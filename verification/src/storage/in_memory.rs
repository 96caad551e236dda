use std::collections::HashMap;

use vstd::prelude::*;

use crate::storage::{SnapshotView, StorageSnapshot, StorageStrategy};
use crate::types::NodeId;

verus! {

broadcast use vstd::std_specs::hash::group_hash_axioms;

/// Storage that keeps the latest snapshot of each node in memory.
#[derive(Default)]
pub struct InMemoryStorage {
    snapshots: HashMap<NodeId, StorageSnapshot>,
}

/// What storage gives back after a save: loading the saved node finds the
/// saved snapshot, and every other node finds what it found before.
pub proof fn law_load_after_save(
    before: &InMemoryStorage,
    after: &InMemoryStorage,
    saved: SnapshotView,
    other: NodeId,
)
    requires
        after.stored() == before.stored().insert(saved.node_id, saved),
    ensures
        after.stored().contains_key(saved.node_id),
        after.stored()[saved.node_id] == saved,
        other != saved.node_id ==> (after.stored().contains_key(other)
            == before.stored().contains_key(other) && (before.stored().contains_key(other)
            ==> after.stored()[other] == before.stored()[other])),
{
}

/// What storage holds after `m` takes the saves `saves` in order: each save
/// replaces the snapshot of its node.
pub open spec fn after_saves(m: Map<NodeId, SnapshotView>, saves: Seq<SnapshotView>) -> Map<
    NodeId,
    SnapshotView,
>
    decreases saves.len(),
{
    if saves.len() == 0 {
        m
    } else {
        after_saves(m, saves.drop_last()).insert(saves.last().node_id, saves.last())
    }
}

/// Loading a node gives back the last snapshot saved for it, whatever was
/// saved for other nodes afterwards.
pub proof fn law_load_finds_last_save(
    before: &InMemoryStorage,
    after: &InMemoryStorage,
    saves: Seq<SnapshotView>,
    i: int,
)
    requires
        after.stored() == after_saves(before.stored(), saves),
        0 <= i < saves.len(),
        forall|j: int| i < j < saves.len() ==> (#[trigger] saves[j]).node_id != saves[i].node_id,
    ensures
        after.stored().contains_key(saves[i].node_id),
        after.stored()[saves[i].node_id] == saves[i],
{
    lemma_last_save_wins(before.stored(), saves, i);
}

proof fn lemma_last_save_wins(m: Map<NodeId, SnapshotView>, saves: Seq<SnapshotView>, i: int)
    requires
        0 <= i < saves.len(),
        forall|j: int| i < j < saves.len() ==> (#[trigger] saves[j]).node_id != saves[i].node_id,
    ensures
        after_saves(m, saves).contains_key(saves[i].node_id),
        after_saves(m, saves)[saves[i].node_id] == saves[i],
    decreases saves.len(),
{
    if i < saves.len() - 1 {
        let init = saves.drop_last();
        assert forall|j: int| i < j < init.len() implies (#[trigger] init[j]).node_id
            != init[i].node_id by {
            assert(init[j] == saves[j]);
        }
        lemma_last_save_wins(m, init, i);
        assert(saves.last() == saves[saves.len() - 1]);
    }
}

impl InMemoryStorage {
    /// The latest snapshot kept for each node.
    pub closed spec fn stored(&self) -> Map<NodeId, SnapshotView> {
        self.snapshots@.map_values(|s: StorageSnapshot| s@)
    }

    /// Storage holding no snapshot.
    pub fn new() -> (r: Self)
        ensures
            r.stored() == Map::<NodeId, SnapshotView>::empty(),
    {
        let r = InMemoryStorage { snapshots: HashMap::new() };
        proof {
            assert(r.stored() =~= Map::<NodeId, SnapshotView>::empty());
        }
        r
    }

    /// The snapshot kept for `node_id`, if any.
    pub fn get(&self, node_id: NodeId) -> (r: Option<&StorageSnapshot>)
        ensures
            match r {
                Some(s) => self.stored().contains_key(node_id) && s@ == self.stored()[node_id],
                None => !self.stored().contains_key(node_id),
            },
    {
        self.snapshots.get(&node_id)
    }
}

impl StorageStrategy for InMemoryStorage {
    /// A copy of the snapshot kept for `node_id`, if any.
    fn load(&self, node_id: NodeId) -> (r: Option<StorageSnapshot>)
        ensures
            match r {
                Some(s) => self.stored().contains_key(node_id) && s@ == self.stored()[node_id],
                None => !self.stored().contains_key(node_id),
            },
    {
        match self.snapshots.get(&node_id) {
            Some(s) => Some(s.duplicate()),
            None => None,
        }
    }

    /// Keeps `snapshot` for its node, replacing any earlier one.
    fn save(&mut self, snapshot: StorageSnapshot)
        ensures
            final(self).stored() == old(self).stored().insert(snapshot.node_id, snapshot@),
    {
        let ghost v = snapshot@;
        self.snapshots.insert(snapshot.node_id, snapshot);
        proof {
            assert(self.stored() =~= old(self).stored().insert(snapshot.node_id, v));
        }
    }
}

} // verus!
