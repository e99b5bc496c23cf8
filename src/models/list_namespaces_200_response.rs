use vstd::prelude::*;

verus! {

/// A namespace listing: the segments of each namespace, when the field is
/// present.
#[derive(Clone, Debug, PartialEq, Default)]
pub struct ListNamespaces200Response {
    pub namespaces: Option<Vec<Vec<String>>>,
}

impl ListNamespaces200Response {
    pub fn new() -> (r: ListNamespaces200Response)
        ensures
            r.namespaces is None,
    {
        ListNamespaces200Response { namespaces: None }
    }
}

} // verus!
