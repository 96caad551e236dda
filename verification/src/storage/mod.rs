use vstd::prelude::*;

use crate::node::RaftNode;
use crate::types::{copy_entries, LogEntry, NodeId, Term};

pub mod file;
pub mod in_memory;
pub mod noop;

verus! {

/// Everything a node needs to come back after a restart.
#[derive(Debug, Clone)]
pub struct StorageSnapshot {
    pub node_id: NodeId,
    pub current_term: Term,
    pub voted_for: Option<NodeId>,
    pub log: Vec<LogEntry>,
    pub commit_index: usize,
    pub last_included_index: usize,
    pub last_included_term: Term,
    pub state_machine_snapshot: Vec<u8>,
}

/// A snapshot as plain values.
#[verifier::ext_equal]
pub struct SnapshotView {
    pub node_id: NodeId,
    pub current_term: Term,
    pub voted_for: Option<NodeId>,
    pub log: Seq<LogEntry>,
    pub commit_index: usize,
    pub last_included_index: usize,
    pub last_included_term: Term,
    pub state_machine_snapshot: Seq<u8>,
}

impl View for StorageSnapshot {
    type V = SnapshotView;

    open spec fn view(&self) -> SnapshotView {
        SnapshotView {
            node_id: self.node_id,
            current_term: self.current_term,
            voted_for: self.voted_for,
            log: self.log@,
            commit_index: self.commit_index,
            last_included_index: self.last_included_index,
            last_included_term: self.last_included_term,
            state_machine_snapshot: self.state_machine_snapshot@,
        }
    }
}

/// `s` holds the persistent state of `node`.
pub open spec fn is_snapshot_of(s: SnapshotView, node: &RaftNode) -> bool {
    &&& s.node_id == node.id
    &&& s.current_term == node.current_term
    &&& s.voted_for == node.voted_for
    &&& s.log == node.log@
    &&& s.commit_index == node.commit_index
    &&& s.last_included_index == node.snapshot_last_included_index
    &&& s.last_included_term == node.snapshot_last_included_term
}

/// Restoring a node from a snapshot of another gives back that node's
/// persistent state: term, vote, log, snapshot point and commit index (when
/// the commit index lay, as it normally does, between the snapshot point and
/// the end of the log).
pub proof fn law_restore_gives_back_saved_state(
    saved: &RaftNode,
    s: SnapshotView,
    before: &RaftNode,
    after: &RaftNode,
)
    requires
        is_snapshot_of(s, saved),
        saved.snapshot_last_included_index <= saved.commit_index <= saved.last_index(),
        RaftNode::restored(
            before,
            after,
            s.current_term,
            s.voted_for,
            s.log,
            s.commit_index,
            s.last_included_index,
            s.last_included_term,
        ),
    ensures
        after.current_term == saved.current_term,
        after.voted_for == saved.voted_for,
        after.log@ == saved.log@,
        after.snapshot_last_included_index == saved.snapshot_last_included_index,
        after.snapshot_last_included_term == saved.snapshot_last_included_term,
        after.commit_index == saved.commit_index,
        after.last_index() == saved.last_index(),
{
}

/// A copy of `bytes`.
pub fn copy_bytes(bytes: &Vec<u8>) -> (r: Vec<u8>)
    ensures
        r@ == bytes@,
{
    let mut r: Vec<u8> = Vec::new();
    let mut i: usize = 0;
    while i < bytes.len()
        invariant
            0 <= i <= bytes@.len(),
            r@ == bytes@.take(i as int),
        decreases bytes@.len() - i,
    {
        r.push(bytes[i]);
        proof {
            assert(bytes@.take(i + 1) == bytes@.take(i as int).push(bytes@[i as int]));
        }
        i = i + 1;
    }
    proof {
        assert(bytes@.take(bytes@.len() as int) == bytes@);
    }
    r
}

impl StorageSnapshot {
    /// The persistent state of `node`, with the state machine's own snapshot.
    pub fn from_node(node: &RaftNode, state_machine_snapshot: Vec<u8>) -> (r: Self)
        ensures
            is_snapshot_of(r@, node),
            r.state_machine_snapshot@ == state_machine_snapshot@,
    {
        let log = copy_entries(&node.log, 0, node.log.len());
        proof {
            assert(log@ =~= node.log@);
        }
        StorageSnapshot {
            node_id: node.id,
            current_term: node.current_term,
            voted_for: node.voted_for,
            log,
            commit_index: node.commit_index,
            last_included_index: node.snapshot_last_included_index,
            last_included_term: node.snapshot_last_included_term,
            state_machine_snapshot,
        }
    }

    /// A copy equal to `self` in every field.
    pub fn duplicate(&self) -> (r: Self)
        ensures
            r@ == self@,
    {
        let r = StorageSnapshot {
            node_id: self.node_id,
            current_term: self.current_term,
            voted_for: self.voted_for,
            log: copy_entries(&self.log, 0, self.log.len()),
            commit_index: self.commit_index,
            last_included_index: self.last_included_index,
            last_included_term: self.last_included_term,
            state_machine_snapshot: copy_bytes(&self.state_machine_snapshot),
        };
        proof {
            assert(r.log@ =~= self.log@);
            assert(r@ =~= self@);
        }
        r
    }
}

/// Where nodes keep their snapshots.
pub trait StorageStrategy {
    /// The snapshot last saved for `node_id`, if any.
    fn load(&self, node_id: NodeId) -> (r: Option<StorageSnapshot>)
        default_ensures
            r is None,
    {
        None
    }

    /// Keeps `snapshot` as the latest one of its node.
    fn save(&mut self, snapshot: StorageSnapshot);
}

} // verus!
