use vstd::prelude::*;

verus! {

/// One entry of a table's snapshot log.
#[derive(Clone, Debug, PartialEq, Default)]
pub struct SnapshotLogInner {
    pub snapshot_id: i32,
    pub timestamp_ms: i32,
}

impl SnapshotLogInner {
    pub fn new(snapshot_id: i32, timestamp_ms: i32) -> (r: SnapshotLogInner)
        ensures
            r.snapshot_id == snapshot_id,
            r.timestamp_ms == timestamp_ms,
    {
        SnapshotLogInner { snapshot_id, timestamp_ms }
    }
}

} // verus!
