use vstd::prelude::*;

use super::table_identifier::TableIdentifier;

verus! {

/// A request to move a table from one identifier to another.
#[derive(Clone, Debug, PartialEq, Default)]
pub struct RenameTableRequest {
    pub source: Box<TableIdentifier>,
    pub destination: Box<TableIdentifier>,
}

impl RenameTableRequest {
    pub fn new(source: TableIdentifier, destination: TableIdentifier) -> (r: RenameTableRequest)
        ensures
            *r.source == source,
            *r.destination == destination,
    {
        RenameTableRequest { source: Box::new(source), destination: Box::new(destination) }
    }
}

} // verus!
