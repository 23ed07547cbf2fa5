//! The whole run, stage by stage: scan the directory entries, settle
//! each candidate's lookup reply, and commit the positively matched
//! records into the store. The concurrent plumbing around the stages
//! (the walker thread, the bounded lookup executor, the channels) hands
//! each stage exactly the values these functions take.

use vstd::prelude::*;

use crate::enrich::{enrich_all, enrich_all_spec, LookupResponse, LookupResponseV};
use crate::scan::{scan, scan_spec, ScanEntry, ScanEntryV};
use crate::sink::{
    progress_spec, sink_spec, lemma_sink_idempotent, PersistedMovieV, ProgressEntry, Store,
};

verus! {

/// The records a run forwards to the sink, given the directory entries
/// and the reply each candidate's lookup settles with.
pub open spec fn pipeline_records(
    entries: Seq<ScanEntryV>,
    replies: Seq<Option<LookupResponseV>>,
) -> Seq<crate::enrich::MetadataRecordV> {
    enrich_all_spec(scan_spec(entries), replies)
}

/// One whole run against `store`: scan, enrich, commit. `replies` pairs
/// with the scanned candidates in order; the returned entries are the
/// progress feed of the run.
pub fn run_pipeline(
    entries: &Vec<ScanEntry>,
    replies: &Vec<Option<LookupResponse>>,
    store: &mut Store,
) -> (progress: Vec<ProgressEntry>)
    requires
        old(store).wf(),
        replies@.len() == scan_spec(entries.deep_view()).len(),
    ensures
        final(store).wf(),
        final(store)@ == sink_spec(
            old(store)@,
            pipeline_records(entries.deep_view(), replies.deep_view()),
        ),
        progress.deep_view() == progress_spec(
            old(store)@,
            pipeline_records(entries.deep_view(), replies.deep_view()),
        ),
{
    let cands = scan(entries);
    let recs = enrich_all(&cands, replies);
    store.run_sink(&recs)
}

/// Running the pipeline twice over the same directory with the same
/// replies, against the same store, leaves exactly the rows of running
/// it once: the unique-path constraint absorbs the second run.
pub proof fn lemma_pipeline_idempotent(
    rows: Seq<PersistedMovieV>,
    entries: Seq<ScanEntryV>,
    replies: Seq<Option<LookupResponseV>>,
)
    ensures
        sink_spec(
            sink_spec(rows, pipeline_records(entries, replies)),
            pipeline_records(entries, replies),
        ) == sink_spec(rows, pipeline_records(entries, replies)),
{
    lemma_sink_idempotent(rows, pipeline_records(entries, replies));
}

} // verus!
