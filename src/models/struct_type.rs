use vstd::prelude::*;

use iceberg_rs::model::schema::StructField;

verus! {

/// A struct column type: its fields in order.
#[derive(Debug, PartialEq)]
pub struct StructType {
    pub kind: RHashType,
    pub fields: Vec<StructField>,
}

impl StructType {
    pub fn new(kind: RHashType, fields: Vec<StructField>) -> (r: StructType)
        ensures
            r.kind == kind,
            r.fields == fields,
    {
        StructType { kind, fields }
    }
}

/// The type tag of a struct type.
#[derive(Clone, Copy, Debug, PartialEq, Eq, Structural, PartialOrd, Ord, Hash)]
pub enum RHashType {
    Struct,
}

impl Default for RHashType {
    fn default() -> (r: RHashType)
        ensures
            r == RHashType::Struct,
    {
        RHashType::Struct
    }
}

} // verus!
