use vstd::prelude::*;

use iceberg_rs::model::snapshot::SnapshotV2;

verus! {

/// The body of an update that adds a snapshot to a table.
#[derive(Debug, PartialEq)]
pub struct AddSnapshotUpdateAllOf {
    pub snapshot: Box<SnapshotV2>,
}

impl AddSnapshotUpdateAllOf {
    pub fn new(snapshot: SnapshotV2) -> (r: AddSnapshotUpdateAllOf)
        ensures
            *r.snapshot == snapshot,
    {
        AddSnapshotUpdateAllOf { snapshot: Box::new(snapshot) }
    }
}

} // verus!
