//! Sink stage: commits enriched records into the persistent store for a
//! single run. The store is keyed uniquely by file path; an insert whose
//! path is already present is silently ignored, never an error and never
//! an overwrite. Each record that is actually inserted is mirrored to
//! the progress reporter with a 1-based running count and a
//! human-readable summary.

use vstd::prelude::*;

use crate::enrich::{MetadataRecord, MetadataRecordV, summary_of};
use crate::text::{chars_eq, clone_chars};

verus! {

/// One persisted row: the fields of a metadata record minus the match
/// flag, keyed by the file path.
pub struct PersistedMovie {
    pub path: Vec<char>,
    pub title: Vec<char>,
    pub year: Vec<char>,
    pub runtime: Vec<char>,
    pub genre: Vec<char>,
    pub plot: Vec<char>,
    pub poster_url: Vec<char>,
    pub rating: Vec<char>,
    pub external_id: Vec<char>,
}

/// Mathematical image of a `PersistedMovie`.
pub struct PersistedMovieV {
    pub path: Seq<char>,
    pub title: Seq<char>,
    pub year: Seq<char>,
    pub runtime: Seq<char>,
    pub genre: Seq<char>,
    pub plot: Seq<char>,
    pub poster_url: Seq<char>,
    pub rating: Seq<char>,
    pub external_id: Seq<char>,
}

impl View for PersistedMovie {
    type V = PersistedMovieV;

    open spec fn view(&self) -> PersistedMovieV {
        PersistedMovieV {
            path: self.path@,
            title: self.title@,
            year: self.year@,
            runtime: self.runtime@,
            genre: self.genre@,
            plot: self.plot@,
            poster_url: self.poster_url@,
            rating: self.rating@,
            external_id: self.external_id@,
        }
    }
}

impl DeepView for PersistedMovie {
    type V = PersistedMovieV;

    open spec fn deep_view(&self) -> PersistedMovieV {
        self.view()
    }
}

/// The row persisted for a record.
pub open spec fn row_of(rec: MetadataRecordV) -> PersistedMovieV {
    PersistedMovieV {
        path: rec.path,
        title: rec.title,
        year: rec.year,
        runtime: rec.runtime,
        genre: rec.genre,
        plot: rec.plot,
        poster_url: rec.poster_url,
        rating: rec.rating,
        external_id: rec.external_id,
    }
}

/// Some row already claims this path.
pub open spec fn has_path(rows: Seq<PersistedMovieV>, path: Seq<char>) -> bool {
    exists|i: int| 0 <= i < rows.len() && (#[trigger] rows[i]).path == path
}

/// The store's uniqueness constraint: no two rows share a path.
pub open spec fn unique_paths(rows: Seq<PersistedMovieV>) -> bool {
    forall|i: int, j: int|
        0 <= i < j < rows.len() ==> (#[trigger] rows[i]).path != (#[trigger] rows[j]).path
}

/// One upsert-like insert: appended when the path is new, ignored when
/// the path is already present.
pub open spec fn insert_spec(
    rows: Seq<PersistedMovieV>,
    rec: MetadataRecordV,
) -> Seq<PersistedMovieV> {
    if has_path(rows, rec.path) {
        rows
    } else {
        rows.push(row_of(rec))
    }
}

/// The rows after a whole run commits its records in arrival order.
pub open spec fn sink_spec(
    rows: Seq<PersistedMovieV>,
    recs: Seq<MetadataRecordV>,
) -> Seq<PersistedMovieV>
    decreases recs.len(),
{
    if recs.len() == 0 {
        rows
    } else {
        insert_spec(sink_spec(rows, recs.drop_last()), recs.last())
    }
}

/// The records a run actually inserts (not duplicate-skips), in order.
pub open spec fn accepted_spec(
    rows: Seq<PersistedMovieV>,
    recs: Seq<MetadataRecordV>,
) -> Seq<MetadataRecordV>
    decreases recs.len(),
{
    if recs.len() == 0 {
        Seq::empty()
    } else {
        let prev = accepted_spec(rows, recs.drop_last());
        if has_path(sink_spec(rows, recs.drop_last()), recs.last().path) {
            prev
        } else {
            prev.push(recs.last())
        }
    }
}

/// What the progress reporter is shown for one accepted record.
pub struct ProgressEntry {
    /// 1-based running count of accepted records.
    pub index: usize,
    /// The human-readable summary of the record.
    pub summary: Vec<char>,
}

/// Mathematical image of a `ProgressEntry`.
pub struct ProgressEntryV {
    pub index: int,
    pub summary: Seq<char>,
}

impl View for ProgressEntry {
    type V = ProgressEntryV;

    open spec fn view(&self) -> ProgressEntryV {
        ProgressEntryV { index: self.index as int, summary: self.summary@ }
    }
}

impl DeepView for ProgressEntry {
    type V = ProgressEntryV;

    open spec fn deep_view(&self) -> ProgressEntryV {
        self.view()
    }
}

/// The whole progress feed of a run: the accepted records in order, each
/// with its 1-based count and summary.
pub open spec fn progress_spec(
    rows: Seq<PersistedMovieV>,
    recs: Seq<MetadataRecordV>,
) -> Seq<ProgressEntryV> {
    accepted_spec(rows, recs).map(
        |k: int, r: MetadataRecordV| ProgressEntryV { index: k + 1, summary: summary_of(r) },
    )
}

/// The persistent store of one run: rows keyed uniquely by file path.
pub struct Store {
    pub rows: Vec<PersistedMovie>,
}

impl View for Store {
    type V = Seq<PersistedMovieV>;

    open spec fn view(&self) -> Seq<PersistedMovieV> {
        self.rows.deep_view()
    }
}

impl Store {
    /// The store's invariant: the uniqueness constraint on paths.
    pub open spec fn wf(&self) -> bool {
        unique_paths(self@)
    }

    /// An empty store.
    pub fn new() -> (s: Store)
        ensures
            s.wf(),
            s@ == Seq::<PersistedMovieV>::empty(),
    {
        let s = Store { rows: Vec::new() };
        assert(s@ =~= Seq::<PersistedMovieV>::empty());
        s
    }

    /// How many rows the store holds.
    pub fn len(&self) -> (n: usize)
        ensures
            n == self@.len(),
    {
        self.rows.len()
    }

    /// Whether some row already claims this path.
    pub fn contains_path(&self, path: &Vec<char>) -> (r: bool)
        ensures
            r == has_path(self@, path@),
    {
        let mut i: usize = 0;
        while i < self.rows.len()
            invariant
                i <= self.rows@.len(),
                forall|j: int| 0 <= j < i ==> (#[trigger] self@[j]).path != path@,
            decreases self.rows@.len() - i,
        {
            if chars_eq(&self.rows[i].path, path) {
                assert(self@[i as int].path == path@);
                return true;
            }
            assert(self@[i as int] == self.rows@[i as int].deep_view());
            i += 1;
        }
        false
    }

    /// One upsert-like insert: the row is appended when its path is new
    /// and silently ignored when the path is already present. Returns
    /// whether the row was actually inserted.
    pub fn insert(&mut self, rec: &MetadataRecord) -> (added: bool)
        requires
            old(self).wf(),
        ensures
            final(self).wf(),
            final(self)@ == insert_spec(old(self)@, rec@),
            added == !has_path(old(self)@, rec@.path),
    {
        if self.contains_path(&rec.path) {
            return false;
        }
        let row = PersistedMovie {
            path: clone_chars(&rec.path),
            title: clone_chars(&rec.title),
            year: clone_chars(&rec.year),
            runtime: clone_chars(&rec.runtime),
            genre: clone_chars(&rec.genre),
            plot: clone_chars(&rec.plot),
            poster_url: clone_chars(&rec.poster_url),
            rating: clone_chars(&rec.rating),
            external_id: clone_chars(&rec.external_id),
        };
        assert(row.deep_view() == row_of(rec@));
        let ghost before = self@;
        self.rows.push(row);
        proof {
            assert(self@ =~= before.push(row_of(rec@)));
            assert forall|i: int, j: int| 0 <= i < j < self@.len() implies (
            #[trigger] self@[i]).path != (#[trigger] self@[j]).path by {
                if j == self@.len() - 1 {
                    assert(!has_path(before, rec@.path));
                    assert(before[i].path != rec@.path);
                }
            }
        }
        true
    }

    /// Commit a whole run's records in arrival order, mirroring each
    /// actually inserted record to the progress feed with its 1-based
    /// running count and summary.
    pub fn run_sink(&mut self, recs: &Vec<MetadataRecord>) -> (progress: Vec<ProgressEntry>)
        requires
            old(self).wf(),
        ensures
            final(self).wf(),
            final(self)@ == sink_spec(old(self)@, recs.deep_view()),
            progress.deep_view() == progress_spec(old(self)@, recs.deep_view()),
    {
        let ghost rows0 = self@;
        let mut progress: Vec<ProgressEntry> = Vec::new();
        let mut count: usize = 0;
        let mut i: usize = 0;
        while i < recs.len()
            invariant
                i <= recs@.len(),
                self.wf(),
                self@ =~= sink_spec(rows0, recs.deep_view().take(i as int)),
                count == accepted_spec(rows0, recs.deep_view().take(i as int)).len(),
                count <= i,
                progress.deep_view() =~= progress_spec(rows0, recs.deep_view().take(i as int)),
            decreases recs@.len() - i,
        {
            proof {
                assert(recs.deep_view().take(i + 1).drop_last() =~= recs.deep_view().take(
                    i as int));
                assert(recs.deep_view().take(i + 1).last() == recs.deep_view()[i as int]);
                assert(recs.deep_view()[i as int] == recs@[i as int].deep_view());
            }
            let added = self.insert(&recs[i]);
            if added {
                count += 1;
                let line = recs[i].summary();
                progress.push(ProgressEntry { index: count, summary: line });
            }
            proof {
                let rv = recs.deep_view();
                let prev_acc = accepted_spec(rows0, rv.take(i as int));
                let new_acc = accepted_spec(rows0, rv.take(i + 1));
                assert(self@ =~= sink_spec(rows0, rv.take(i + 1)));
                if added {
                    assert(new_acc =~= prev_acc.push(rv[i as int]));
                } else {
                    assert(new_acc =~= prev_acc);
                }
                assert(prev_acc.len() == progress_spec(rows0, rv.take(i as int)).len());
                if added {
                    assert(new_acc.len() == prev_acc.len() + 1);
                    assert(progress.deep_view().len() == prev_acc.len() + 1);
                } else {
                    assert(new_acc.len() == prev_acc.len());
                    assert(progress.deep_view().len() == prev_acc.len());
                }
                assert(progress.deep_view().len() == new_acc.len());
                assert forall|k: int| 0 <= k < new_acc.len() implies progress.deep_view()[k]
                    == progress_spec(rows0, rv.take(i + 1))[k] by {
                    assert(progress_spec(rows0, rv.take(i + 1))[k] == (ProgressEntryV {
                        index: k + 1,
                        summary: summary_of(new_acc[k]),
                    }));
                    if k < prev_acc.len() {
                        assert(progress_spec(rows0, rv.take(i as int))[k] == (ProgressEntryV {
                            index: k + 1,
                            summary: summary_of(prev_acc[k]),
                        }));
                        assert(new_acc[k] == prev_acc[k]);
                        assert(progress.deep_view()[k] == progress_spec(
                            rows0,
                            rv.take(i as int),
                        )[k]);
                    } else {
                        assert(new_acc[k] == rv[i as int]);
                        assert(count as int == k + 1);
                        assert(progress.deep_view()[k] == (ProgressEntryV {
                            index: count as int,
                            summary: summary_of(rv[i as int]),
                        }));
                    }
                }
                assert(progress.deep_view() =~= progress_spec(rows0, rv.take(i + 1)));
            }
            i += 1;
        }
        assert(recs.deep_view().take(recs@.len() as int) =~= recs.deep_view());
        progress
    }
}

/// Inserting never removes a path, and always establishes the inserted
/// record's own path.
proof fn lemma_insert_paths(rows: Seq<PersistedMovieV>, rec: MetadataRecordV, p: Seq<char>)
    ensures
        has_path(rows, p) ==> has_path(insert_spec(rows, rec), p),
        has_path(insert_spec(rows, rec), rec.path),
{
    if has_path(rows, p) {
        let i = choose|i: int| 0 <= i < rows.len() && (#[trigger] rows[i]).path == p;
        assert(insert_spec(rows, rec)[i].path == p);
    }
    if has_path(rows, rec.path) {
    } else {
        assert(insert_spec(rows, rec)[rows.len() as int].path == rec.path);
    }
}

/// A whole run never removes a path.
proof fn lemma_sink_preserves_path(
    rows: Seq<PersistedMovieV>,
    recs: Seq<MetadataRecordV>,
    p: Seq<char>,
)
    requires
        has_path(rows, p),
    ensures
        has_path(sink_spec(rows, recs), p),
    decreases recs.len(),
{
    if recs.len() > 0 {
        lemma_sink_preserves_path(rows, recs.drop_last(), p);
        lemma_insert_paths(sink_spec(rows, recs.drop_last()), recs.last(), p);
    }
}

/// After a run, every committed record's path is present in the store.
proof fn lemma_sink_covers(rows: Seq<PersistedMovieV>, recs: Seq<MetadataRecordV>)
    ensures
        forall|i: int|
            0 <= i < recs.len() ==> has_path(sink_spec(rows, recs), (#[trigger] recs[i]).path),
    decreases recs.len(),
{
    if recs.len() > 0 {
        lemma_sink_covers(rows, recs.drop_last());
        assert forall|i: int|
            0 <= i < recs.len() implies has_path(sink_spec(rows, recs), (
        #[trigger] recs[i]).path) by {
            if i < recs.len() - 1 {
                assert(has_path(sink_spec(rows, recs.drop_last()), recs.drop_last()[i].path));
                lemma_insert_paths(sink_spec(rows, recs.drop_last()), recs.last(), recs[i].path);
            } else {
                lemma_insert_paths(sink_spec(rows, recs.drop_last()), recs.last(), recs[i].path);
            }
        }
    }
}

/// `p` is the path of some record in `cover`.
pub open spec fn path_among(p: Seq<char>, cover: Seq<MetadataRecordV>) -> bool {
    exists|i: int| 0 <= i < cover.len() && (#[trigger] cover[i]).path == p
}

/// Every path of `recs` occurs among the paths of `cover`.
pub open spec fn paths_covered(recs: Seq<MetadataRecordV>, cover: Seq<MetadataRecordV>) -> bool {
    forall|j: int| 0 <= j < recs.len() ==> path_among((#[trigger] recs[j]).path, cover)
}

/// A run whose records' paths are all already present changes nothing.
proof fn lemma_sink_no_new(rows: Seq<PersistedMovieV>, recs: Seq<MetadataRecordV>)
    requires
        forall|j: int| 0 <= j < recs.len() ==> has_path(rows, (#[trigger] recs[j]).path),
    ensures
        sink_spec(rows, recs) == rows,
    decreases recs.len(),
{
    if recs.len() > 0 {
        lemma_sink_no_new(rows, recs.drop_last());
        assert(has_path(rows, recs.last().path));
    }
}

/// Running the pipeline a second time against the same store adds
/// nothing, as long as every path of the second run's records already
/// appeared in the first run's: the unique-path constraint makes the
/// run idempotent row for row.
pub proof fn lemma_second_run_no_change(
    rows: Seq<PersistedMovieV>,
    recs: Seq<MetadataRecordV>,
    recs2: Seq<MetadataRecordV>,
)
    requires
        paths_covered(recs2, recs),
    ensures
        sink_spec(sink_spec(rows, recs), recs2) == sink_spec(rows, recs),
{
    let committed = sink_spec(rows, recs);
    lemma_sink_covers(rows, recs);
    assert forall|j: int| 0 <= j < recs2.len() implies has_path(committed, (
    #[trigger] recs2[j]).path) by {
        assert(path_among(recs2[j].path, recs));
        let i = choose|i: int|
            0 <= i < recs.len() && (#[trigger] recs[i]).path == recs2[j].path;
        assert(has_path(committed, recs[i].path));
    }
    lemma_sink_no_new(committed, recs2);
}

/// Committing the same records twice leaves exactly the rows of
/// committing them once.
pub proof fn lemma_sink_idempotent(rows: Seq<PersistedMovieV>, recs: Seq<MetadataRecordV>)
    ensures
        sink_spec(sink_spec(rows, recs), recs) == sink_spec(rows, recs),
{
    assert forall|j: int| 0 <= j < recs.len() implies path_among(
        (#[trigger] recs[j]).path,
        recs,
    ) by {
        assert(0 <= j < recs.len() && recs[j].path == recs[j].path);
    }
    lemma_second_run_no_change(rows, recs, recs);
}

} // verus!
