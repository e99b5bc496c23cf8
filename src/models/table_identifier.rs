use vstd::prelude::*;

verus! {

/// A table as the service names it: namespace segments and a bare name.
#[derive(Clone, Debug, PartialEq, Default)]
pub struct TableIdentifier {
    pub namespace: Vec<String>,
    pub name: String,
}

impl TableIdentifier {
    pub fn new(namespace: Vec<String>, name: String) -> (r: TableIdentifier)
        ensures
            r.namespace == namespace,
            r.name == name,
    {
        TableIdentifier { namespace, name }
    }
}

} // verus!
