use vstd::prelude::*;

use iceberg_rs::model::schema::AllType;

verus! {

/// A list column type: the type of its elements and their field id.
#[derive(Debug, PartialEq)]
pub struct ListType {
    pub kind: RHashType,
    pub element_id: i32,
    pub element: Box<AllType>,
    pub element_required: bool,
}

impl ListType {
    pub fn new(kind: RHashType, element_id: i32, element: AllType, element_required: bool) -> (r:
        ListType)
        ensures
            r.kind == kind,
            r.element_id == element_id,
            *r.element == element,
            r.element_required == element_required,
    {
        ListType { kind, element_id, element: Box::new(element), element_required }
    }
}

/// The type tag of a list type.
#[derive(Clone, Copy, Debug, PartialEq, Eq, Structural, PartialOrd, Ord, Hash)]
pub enum RHashType {
    List,
}

impl Default for RHashType {
    fn default() -> (r: RHashType)
        ensures
            r == RHashType::List,
    {
        RHashType::List
    }
}

} // verus!
