use vstd::prelude::*;

use crate::storage::{StorageSnapshot, StorageStrategy};

verus! {

/// Storage that keeps nothing: every load finds no snapshot.
#[derive(Default)]
pub struct NoopStorage;

impl StorageStrategy for NoopStorage {
    /// Discards `snapshot`.
    fn save(&mut self, _snapshot: StorageSnapshot) {
    }
}

} // verus!
