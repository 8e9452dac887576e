//! Requests and responses of the review commands, and the computing part of
//! those commands over a conversation's snapshot store.
use vstd::prelude::*;
use crate::keyed::{distinct_keys, pair_map};
use crate::snapshots::{ReviewSnapshots, opt_view};

verus! {

/// Request for the diff between two turns of a conversation.
#[derive(Debug, Clone, PartialEq)]
pub struct GetTurnDiffRangeParams {
    pub conversation_id: String,
    pub base_event_id: Option<String>,
    pub target_event_id: String,
}

/// The unified diff between two turns.
#[derive(Debug, Clone, PartialEq)]
pub struct GetTurnDiffRangeResponse {
    pub unified_diff: String,
}

/// Request for the snapshots of a conversation.
#[derive(Debug, Clone, PartialEq)]
pub struct ListTurnSnapshotsParams {
    pub conversation_id: String,
}

/// The snapshot commit of one turn.
#[derive(Debug, Clone, PartialEq)]
pub struct TurnSnapshotDescriptor {
    pub event_id: String,
    pub commit_id: String,
}

/// The snapshots of a conversation.
#[derive(Debug, Clone, PartialEq)]
pub struct ListTurnSnapshotsResponse {
    pub disabled: bool,
    pub base_commit_id: Option<String>,
    pub snapshots: Vec<TurnSnapshotDescriptor>,
}

/// The descriptors of `d` read as pairs of event and commit.
pub open spec fn descriptor_pairs(d: Seq<TurnSnapshotDescriptor>) -> Seq<(String, String)> {
    d.map_values(|t: TurnSnapshotDescriptor| (t.event_id, t.commit_id))
}

/// Message of the error returned where no diff range can be resolved.
pub const RANGE_UNAVAILABLE: &'static str = "Snapshot data unavailable for requested range";

/// Lists the snapshots of a conversation: whether snapshotting is disabled,
/// the base commit, and one descriptor per recorded turn.
pub fn list_turn_snapshots(store: &ReviewSnapshots) -> (r: ListTurnSnapshotsResponse)
    requires
        store.wf(),
    ensures
        r.disabled == store@.disabled,
        opt_view(r.base_commit_id) == store@.base_commit,
        distinct_keys(descriptor_pairs(r.snapshots@)),
        pair_map(descriptor_pairs(r.snapshots@)) == store@.turn_commits,
{
    let summary = store.snapshot_summary();
    let ghost pairs = summary.turn_commits@;
    let mut snapshots: Vec<TurnSnapshotDescriptor> = Vec::new();
    let mut i: usize = 0;
    while i < summary.turn_commits.len()
        invariant
            i <= pairs.len(),
            pairs == summary.turn_commits@,
            snapshots@.len() == i,
            forall|j: int|
                0 <= j < i ==> #[trigger] snapshots@[j].event_id == pairs[j].0
                    && snapshots@[j].commit_id == pairs[j].1,
        decreases pairs.len() - i,
    {
        let (event_id, commit_id) = &summary.turn_commits[i];
        snapshots.push(TurnSnapshotDescriptor { event_id: event_id.clone(), commit_id: commit_id.clone() });
        i = i + 1;
    }
    assert forall|j: int| 0 <= j < pairs.len() implies #[trigger] descriptor_pairs(snapshots@)[j]
        == pairs[j] by {
        assert(snapshots@[j].event_id == pairs[j].0);
    }
    assert(descriptor_pairs(snapshots@) =~= pairs);
    ListTurnSnapshotsResponse {
        disabled: summary.disabled,
        base_commit_id: summary.base_commit,
        snapshots,
    }
}

/// Resolves the working directory and the two commits to diff for a
/// request; fails with `RANGE_UNAVAILABLE` where the store cannot resolve
/// them.
pub fn turn_diff_range(store: &ReviewSnapshots, params: &GetTurnDiffRangeParams) -> (r: Result<
    (String, String, String),
    String,
>)
    requires
        store.wf(),
    ensures
        match r {
            Ok((cwd, base, target)) => store@.range(opt_view(params.base_event_id), params.target_event_id@)
                == Some((cwd@, base@, target@)),
            Err(m) => store@.range(opt_view(params.base_event_id), params.target_event_id@) is None
                && m@ == RANGE_UNAVAILABLE@,
        },
{
    let base = match &params.base_event_id {
        Some(e) => Some(e),
        None => None,
    };
    match store.commits_for_range(base, &params.target_event_id) {
        Some(found) => Ok(found),
        None => Err(RANGE_UNAVAILABLE.to_string()),
    }
}

} // verus!
