//! Enricher stage: turns the remote lookup reply for each candidate into
//! a metadata record, a no-match report, or a transport-failure report,
//! and forwards only positively matched records downstream. The stage
//! admits at most a configured number of lookups at once; the admission
//! policy lives in [`crate::limit`].

use vstd::prelude::*;

use crate::scan::{Candidate, CandidateV};
use crate::text::{clone_chars, append_chars};

verus! {

/// The decoded body of a remote lookup reply, field for field. The
/// `response` field is the service's own match indicator.
pub struct LookupResponse {
    pub title: Vec<char>,
    pub year: Vec<char>,
    pub runtime: Vec<char>,
    pub genre: Vec<char>,
    pub plot: Vec<char>,
    pub poster_url: Vec<char>,
    pub rating: Vec<char>,
    pub external_id: Vec<char>,
    pub response: Vec<char>,
}

/// Mathematical image of a `LookupResponse`.
pub struct LookupResponseV {
    pub title: Seq<char>,
    pub year: Seq<char>,
    pub runtime: Seq<char>,
    pub genre: Seq<char>,
    pub plot: Seq<char>,
    pub poster_url: Seq<char>,
    pub rating: Seq<char>,
    pub external_id: Seq<char>,
    pub response: Seq<char>,
}

impl View for LookupResponse {
    type V = LookupResponseV;

    open spec fn view(&self) -> LookupResponseV {
        LookupResponseV {
            title: self.title@,
            year: self.year@,
            runtime: self.runtime@,
            genre: self.genre@,
            plot: self.plot@,
            poster_url: self.poster_url@,
            rating: self.rating@,
            external_id: self.external_id@,
            response: self.response@,
        }
    }
}

impl DeepView for LookupResponse {
    type V = LookupResponseV;

    open spec fn deep_view(&self) -> LookupResponseV {
        self.view()
    }
}

/// An enriched record: the decoded reply merged with the originating
/// file path. `found` records whether the service reported a positive
/// match.
pub struct MetadataRecord {
    pub path: Vec<char>,
    pub title: Vec<char>,
    pub year: Vec<char>,
    pub runtime: Vec<char>,
    pub genre: Vec<char>,
    pub plot: Vec<char>,
    pub poster_url: Vec<char>,
    pub rating: Vec<char>,
    pub external_id: Vec<char>,
    pub found: bool,
}

/// Mathematical image of a `MetadataRecord`.
pub struct MetadataRecordV {
    pub path: Seq<char>,
    pub title: Seq<char>,
    pub year: Seq<char>,
    pub runtime: Seq<char>,
    pub genre: Seq<char>,
    pub plot: Seq<char>,
    pub poster_url: Seq<char>,
    pub rating: Seq<char>,
    pub external_id: Seq<char>,
    pub found: bool,
}

impl View for MetadataRecord {
    type V = MetadataRecordV;

    open spec fn view(&self) -> MetadataRecordV {
        MetadataRecordV {
            path: self.path@,
            title: self.title@,
            year: self.year@,
            runtime: self.runtime@,
            genre: self.genre@,
            plot: self.plot@,
            poster_url: self.poster_url@,
            rating: self.rating@,
            external_id: self.external_id@,
            found: self.found,
        }
    }
}

impl DeepView for MetadataRecord {
    type V = MetadataRecordV;

    open spec fn deep_view(&self) -> MetadataRecordV {
        self.view()
    }
}

/// The one-record summary the progress reporter prints: title, year in
/// parentheses, runtime, then genre and plot on their own lines.
pub open spec fn summary_of(rec: MetadataRecordV) -> Seq<char> {
    rec.title + seq![' ', '('] + rec.year + seq![')', ' ', '-', '-', ' '] + rec.runtime
        + seq!['\n'] + rec.genre + seq!['\n'] + rec.plot
}

impl MetadataRecord {
    /// Render the human-readable summary of this record.
    pub fn summary(&self) -> (s: Vec<char>)
        ensures
            s@ == summary_of(self@),
    {
        let mut s: Vec<char> = Vec::new();
        append_chars(&mut s, &self.title);
        s.push(' ');
        s.push('(');
        append_chars(&mut s, &self.year);
        s.push(')');
        s.push(' ');
        s.push('-');
        s.push('-');
        s.push(' ');
        append_chars(&mut s, &self.runtime);
        s.push('\n');
        append_chars(&mut s, &self.genre);
        s.push('\n');
        append_chars(&mut s, &self.plot);
        assert(s@ =~= summary_of(self@));
        s
    }
}

/// The key for one outbound lookup: the service's base query followed
/// by the title.
pub fn lookup_key(base: &Vec<char>, title: &Vec<char>) -> (key: Vec<char>)
    ensures
        key@ == base@ + title@,
{
    let mut key = clone_chars(base);
    append_chars(&mut key, title);
    key
}

/// The service reported a positive match: its indicator begins with `T`.
/// Anything else, the empty indicator included, is negative.
pub open spec fn positive(response: Seq<char>) -> bool {
    response.len() > 0 && response[0] == 'T'
}

/// Whether a reply's match indicator is positive.
pub fn is_positive(response: &Vec<char>) -> (r: bool)
    ensures
        r == positive(response@),
{
    response.len() > 0 && response[0] == 'T'
}

/// The record built from a positive reply for the file at `path`.
pub open spec fn record_of(path: Seq<char>, resp: LookupResponseV) -> MetadataRecordV {
    MetadataRecordV {
        path: path,
        title: resp.title,
        year: resp.year,
        runtime: resp.runtime,
        genre: resp.genre,
        plot: resp.plot,
        poster_url: resp.poster_url,
        rating: resp.rating,
        external_id: resp.external_id,
        found: true,
    }
}

/// What the enricher does with one candidate once its lookup settles.
pub enum EnrichOutcome {
    /// A positive match: the record goes downstream to the sink.
    Forward(MetadataRecord),
    /// A well-formed negative reply: the item is dropped and the file at
    /// this path is reported to the operator as possibly misnamed.
    NoMatch(Vec<char>),
    /// A network or decoding failure: the item at this path is dropped
    /// and the failure is logged.
    TransportFailure(Vec<char>),
}

/// Mathematical image of an `EnrichOutcome`.
pub enum EnrichOutcomeV {
    Forward(MetadataRecordV),
    NoMatch(Seq<char>),
    TransportFailure(Seq<char>),
}

impl View for EnrichOutcome {
    type V = EnrichOutcomeV;

    open spec fn view(&self) -> EnrichOutcomeV {
        match self {
            EnrichOutcome::Forward(rec) => EnrichOutcomeV::Forward(rec@),
            EnrichOutcome::NoMatch(path) => EnrichOutcomeV::NoMatch(path@),
            EnrichOutcome::TransportFailure(path) => EnrichOutcomeV::TransportFailure(path@),
        }
    }
}

impl DeepView for EnrichOutcome {
    type V = EnrichOutcomeV;

    open spec fn deep_view(&self) -> EnrichOutcomeV {
        self.view()
    }
}

/// The outcome for one candidate: a transport failure when no reply was
/// decoded, the record when the reply is positive, a no-match report
/// otherwise.
pub open spec fn enrich_one_spec(path: Seq<char>, reply: Option<LookupResponseV>) -> EnrichOutcomeV {
    match reply {
        Option::None => EnrichOutcomeV::TransportFailure(path),
        Option::Some(resp) => if positive(resp.response) {
            EnrichOutcomeV::Forward(record_of(path, resp))
        } else {
            EnrichOutcomeV::NoMatch(path)
        },
    }
}

/// Settle one candidate's lookup. `reply` is the decoded response body,
/// or `None` for a network or decoding failure.
pub fn enrich_one(path: Vec<char>, reply: Option<LookupResponse>) -> (out: EnrichOutcome)
    ensures
        out.deep_view() == enrich_one_spec(path@, reply.deep_view()),
{
    match reply {
        Option::None => EnrichOutcome::TransportFailure(path),
        Option::Some(resp) => {
            if is_positive(&resp.response) {
                EnrichOutcome::Forward(MetadataRecord {
                    path: path,
                    title: resp.title,
                    year: resp.year,
                    runtime: resp.runtime,
                    genre: resp.genre,
                    plot: resp.plot,
                    poster_url: resp.poster_url,
                    rating: resp.rating,
                    external_id: resp.external_id,
                    found: true,
                })
            } else {
                EnrichOutcome::NoMatch(path)
            }
        },
    }
}

/// The records the enricher forwards for candidates paired with their
/// replies, in order: exactly one per positive reply, none for negative
/// replies or transport failures.
pub open spec fn enrich_all_spec(
    cands: Seq<CandidateV>,
    replies: Seq<Option<LookupResponseV>>,
) -> Seq<MetadataRecordV>
    decreases cands.len(),
{
    if cands.len() == 0 || replies.len() == 0 {
        Seq::empty()
    } else {
        let rest = enrich_all_spec(cands.drop_last(), replies.drop_last());
        match replies.last() {
            Option::Some(resp) => if positive(resp.response) {
                rest + seq![record_of(cands.last().path, resp)]
            } else {
                rest
            },
            Option::None => rest,
        }
    }
}

/// Settle a batch of candidates whose replies arrived in the same order,
/// keeping only the positively matched records.
pub fn enrich_all(
    cands: &Vec<Candidate>,
    replies: &Vec<Option<LookupResponse>>,
) -> (out: Vec<MetadataRecord>)
    requires
        cands@.len() == replies@.len(),
    ensures
        out.deep_view() == enrich_all_spec(cands.deep_view(), replies.deep_view()),
{
    let mut out: Vec<MetadataRecord> = Vec::new();
    let mut i: usize = 0;
    while i < cands.len()
        invariant
            i <= cands@.len(),
            cands@.len() == replies@.len(),
            out.deep_view() =~= enrich_all_spec(
                cands.deep_view().take(i as int),
                replies.deep_view().take(i as int),
            ),
        decreases cands@.len() - i,
    {
        proof {
            assert(cands.deep_view().take(i + 1).drop_last() =~= cands.deep_view().take(i as int));
            assert(replies.deep_view().take(i + 1).drop_last() =~= replies.deep_view().take(
                i as int));
            assert(cands.deep_view().take(i + 1).last() == cands.deep_view()[i as int]);
            assert(replies.deep_view().take(i + 1).last() == replies.deep_view()[i as int]);
            assert(cands.deep_view()[i as int] == cands@[i as int].deep_view());
            assert(replies.deep_view()[i as int] == replies@[i as int].deep_view());
        }
        match &replies[i] {
            Option::Some(resp) => {
                if is_positive(&resp.response) {
                    let rec = MetadataRecord {
                        path: clone_chars(&cands[i].path),
                        title: clone_chars(&resp.title),
                        year: clone_chars(&resp.year),
                        runtime: clone_chars(&resp.runtime),
                        genre: clone_chars(&resp.genre),
                        plot: clone_chars(&resp.plot),
                        poster_url: clone_chars(&resp.poster_url),
                        rating: clone_chars(&resp.rating),
                        external_id: clone_chars(&resp.external_id),
                        found: true,
                    };
                    assert(rec.deep_view() == record_of(cands.deep_view()[i as int].path, resp@));
                    out.push(rec);
                }
            },
            Option::None => {},
        }
        assert(out.deep_view() =~= enrich_all_spec(
            cands.deep_view().take(i + 1),
            replies.deep_view().take(i + 1),
        ));
        i += 1;
    }
    assert(cands.deep_view().take(cands@.len() as int) =~= cands.deep_view());
    assert(replies.deep_view().take(replies@.len() as int) =~= replies.deep_view());
    out
}

/// The reply settled with a positive match.
pub open spec fn reply_positive(r: Option<LookupResponseV>) -> bool {
    r is Some && positive(r->Some_0.response)
}

/// `rec` is the record of some positively matched reply in the batch.
pub open spec fn stems_from_positive(
    cands: Seq<CandidateV>,
    replies: Seq<Option<LookupResponseV>>,
    rec: MetadataRecordV,
) -> bool {
    exists|i: int|
        0 <= i < replies.len() && reply_positive(#[trigger] replies[i]) && rec == record_of(
            cands[i].path,
            replies[i]->Some_0,
        )
}

/// A record is forwarded to the sink exactly for the positively matched
/// replies: every positive reply contributes its record, every forwarded
/// record stems from some positive reply, and every forwarded record has
/// its `found` flag set. Negative replies and transport failures
/// contribute nothing.
pub proof fn lemma_forward_iff_positive(
    cands: Seq<CandidateV>,
    replies: Seq<Option<LookupResponseV>>,
)
    requires
        cands.len() == replies.len(),
    ensures
        forall|j: int| 0 <= j < enrich_all_spec(cands, replies).len()
            ==> (#[trigger] enrich_all_spec(cands, replies)[j]).found,
        forall|i: int| 0 <= i < replies.len() && reply_positive(#[trigger] replies[i])
            ==> enrich_all_spec(cands, replies).contains(
                record_of(cands[i].path, replies[i]->Some_0),
            ),
        forall|j: int| 0 <= j < enrich_all_spec(cands, replies).len() ==> stems_from_positive(
            cands,
            replies,
            #[trigger] enrich_all_spec(cands, replies)[j],
        ),
    decreases cands.len(),
{
    let out = enrich_all_spec(cands, replies);
    if cands.len() == 0 {
    } else {
        let n = cands.len() - 1;
        lemma_forward_iff_positive(cands.drop_last(), replies.drop_last());
        let prev = enrich_all_spec(cands.drop_last(), replies.drop_last());
        assert forall|i: int| 0 <= i < n implies replies.drop_last()[i] == replies[i]
            && cands.drop_last()[i] == cands[i] by {}
        if reply_positive(replies[n]) {
            assert(out =~= prev + seq![record_of(cands[n].path, replies[n]->Some_0)]);
        } else {
            assert(out =~= prev);
        }
        assert forall|i: int| 0 <= i < replies.len() && reply_positive(#[trigger] replies[i])
            implies out.contains(record_of(cands[i].path, replies[i]->Some_0)) by {
            if i < n {
                let rec = record_of(cands.drop_last()[i].path, replies.drop_last()[i]->Some_0);
                assert(prev.contains(rec));
                let k = choose|k: int| 0 <= k < prev.len() && prev[k] == rec;
                assert(out[k] == rec);
            } else {
                assert(out[out.len() - 1] == record_of(cands[i].path, replies[i]->Some_0));
            }
        }
        assert forall|j: int| 0 <= j < out.len() implies stems_from_positive(
            cands,
            replies,
            #[trigger] out[j],
        ) by {
            if j < prev.len() {
                assert(stems_from_positive(cands.drop_last(), replies.drop_last(), prev[j]));
                let i = choose|i: int|
                    0 <= i < replies.drop_last().len() && reply_positive(
                        #[trigger] replies.drop_last()[i],
                    ) && prev[j] == record_of(
                        cands.drop_last()[i].path,
                        replies.drop_last()[i]->Some_0,
                    );
                assert(reply_positive(replies[i]) && out[j] == record_of(
                    cands[i].path,
                    replies[i]->Some_0,
                ));
            } else {
                assert(reply_positive(replies[n]) && out[j] == record_of(
                    cands[n].path,
                    replies[n]->Some_0,
                ));
            }
        }
    }
}

/// Every record handed to the sink is well formed: its `found` flag is
/// set, and — the candidates' paths being non-empty, as paths of real
/// directory entries are — its path is non-empty.
pub proof fn lemma_forwarded_records_wellformed(
    cands: Seq<CandidateV>,
    replies: Seq<Option<LookupResponseV>>,
)
    requires
        cands.len() == replies.len(),
        forall|i: int| 0 <= i < cands.len() ==> (#[trigger] cands[i]).path.len() > 0,
    ensures
        forall|j: int| 0 <= j < enrich_all_spec(cands, replies).len()
            ==> (#[trigger] enrich_all_spec(cands, replies)[j]).found
            && enrich_all_spec(cands, replies)[j].path.len() > 0,
{
    lemma_forward_iff_positive(cands, replies);
    let out = enrich_all_spec(cands, replies);
    assert forall|j: int| 0 <= j < out.len() implies (#[trigger] out[j]).found && out[j].path.len()
        > 0 by {
        assert(stems_from_positive(cands, replies, out[j]));
        let i = choose|i: int|
            0 <= i < replies.len() && reply_positive(#[trigger] replies[i]) && out[j] == record_of(
                cands[i].path,
                replies[i]->Some_0,
            );
        assert(cands[i].path.len() > 0);
    }
}

} // verus!
