use vstd::prelude::*;

use iceberg_rs::model::partition::PartitionField;

verus! {

/// A partition spec: its fields, and its id once the service assigned one.
#[derive(Debug, PartialEq)]
pub struct PartitionSpec {
    pub spec_id: Option<i32>,
    pub fields: Vec<PartitionField>,
}

impl PartitionSpec {
    pub fn new(fields: Vec<PartitionField>) -> (r: PartitionSpec)
        ensures
            r.spec_id is None,
            r.fields == fields,
    {
        PartitionSpec { spec_id: None, fields }
    }
}

} // verus!
