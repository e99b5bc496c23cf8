use vstd::prelude::*;

verus! {

/// What a catalog service or its transport reported instead of success.
#[derive(Clone, Debug, PartialEq, Eq)]
pub enum TransportError {
    /// The identifier has no entry in the catalog.
    NotFound,
    /// The request conflicts with the catalog's current state: the
    /// identifier already exists, or a pointer swap found a stale pointer.
    Conflict,
    /// Any other failure of the service or the network, with its message.
    Failure(String),
}

/// The errors of the catalog core.
#[derive(Clone, Debug, PartialEq, Eq)]
pub enum CatalogError {
    /// A namespace or identifier was given with missing or empty segments.
    MalformedIdentifier,
    /// The service response lacks a field that it must always carry.
    CatalogProtocolError(String),
    /// The service or the network failed, not-found included.
    CatalogTransportError(TransportError),
    /// The table record carries no metadata location.
    MissingMetadataLocation,
    /// The metadata location is not a well-formed location.
    InvalidLocationUri,
    /// The metadata file could not be read from the object store.
    MetadataUnavailable(String),
    /// The metadata file is not UTF-8 text or not valid table metadata.
    CorruptMetadata,
    /// A pointer swap was rejected because the previous location is stale.
    ConcurrentModification,
}

} // verus!
