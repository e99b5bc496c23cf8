use vstd::prelude::*;

use iceberg_rs::model::table::TableMetadataV2;

use crate::error::{CatalogError, TransportError};
use crate::identifier::{copy_strings, join_segments, join_with, valid_parts, views, Namespace, TableIdentifier};
use crate::memory::Transaction;
use crate::models::table_identifier::TableIdentifier as ServiceTableIdentifier;

verus! {

#[verifier::external_type_specification]
#[verifier::external_body]
pub struct ExTableMetadataV2(TableMetadataV2);

/// The path component of `location` read as an absolute URL, if it is one.
pub uninterp spec fn url_path_of(location: Seq<char>) -> Option<Seq<char>>;

/// The text that `bytes` encode, if they are valid UTF-8.
pub uninterp spec fn utf8_text(bytes: Seq<u8>) -> Option<Seq<char>>;

/// Whether `text` is a JSON document of version 2 table metadata.
pub uninterp spec fn is_table_metadata(text: Seq<char>) -> bool;

/// Relies on url::Url::parse and Url::path: the path of the location when it
/// parses as an absolute URL, nothing when it does not.
#[verifier::external_body]
fn location_path(location: &str) -> (r: Option<String>)
    ensures
        match r {
            Some(p) => url_path_of(location@) == Some(p@),
            None => url_path_of(location@) is None,
        },
{
    url::Url::parse(location).ok().map(|u| u.path().to_string())
}

/// Relies on std::str::from_utf8: the text when the bytes are valid UTF-8.
#[verifier::external_body]
fn utf8_decode(bytes: &[u8]) -> (r: Option<String>)
    ensures
        match r {
            Some(t) => utf8_text(bytes@) == Some(t@),
            None => utf8_text(bytes@) is None,
        },
{
    std::str::from_utf8(bytes).ok().map(|t| t.to_string())
}

/// Relies on serde_json::from_str into iceberg_rs's TableMetadataV2: a value
/// exactly when the text is such a document.
#[verifier::external_body]
fn parse_table_metadata(text: &str) -> (r: Option<TableMetadataV2>)
    ensures
        r is Some <==> is_table_metadata(text@),
{
    serde_json::from_str::<TableMetadataV2>(text).ok()
}

/// The segments of a table entry as the service lists it.
pub open spec fn entry_parts(e: ServiceTableIdentifier) -> Seq<Seq<char>> {
    views(e.namespace@).push(e.name@)
}

/// The identifiers of a table listing. A listing without its identifiers
/// field is a protocol error; one malformed entry fails the whole listing.
pub fn list_tables_result(identifiers: Option<Vec<ServiceTableIdentifier>>) -> (r: Result<
    Vec<TableIdentifier>,
    CatalogError,
>)
    ensures
        match identifiers {
            None => r matches Err(CatalogError::CatalogProtocolError(_)),
            Some(v) => {
                &&& r is Ok <==> forall|i: int| 0 <= i < v.len() ==> valid_parts(
                    #[trigger] entry_parts(v@[i]),
                )
                &&& r matches Ok(ids) ==> ids.len() == v.len() && forall|i: int|
                    0 <= i < v.len() ==> #[trigger] ids@[i]@ == entry_parts(v@[i])
                        && ids@[i].wf()
                &&& r matches Err(e) ==> e is MalformedIdentifier
            },
        },
{
    match identifiers {
        None => Err(CatalogError::CatalogProtocolError("no tables field".to_string())),
        Some(v) => tables_from_entries(&v),
    }
}

/// The namespaces of a namespace listing. A listing without its namespaces
/// field is a protocol error; one malformed entry fails the whole listing.
pub fn list_namespaces_result(namespaces: Option<Vec<Vec<String>>>) -> (r: Result<
    Vec<Namespace>,
    CatalogError,
>)
    ensures
        match namespaces {
            None => r matches Err(CatalogError::CatalogProtocolError(_)),
            Some(v) => {
                &&& r is Ok <==> forall|i: int| 0 <= i < v.len() ==> all_nonempty_strs(
                    #[trigger] v@[i],
                )
                &&& r matches Ok(ns) ==> ns.len() == v.len() && forall|i: int|
                    0 <= i < v.len() ==> #[trigger] ns@[i]@ == views(v@[i]@) && ns@[i].wf()
                &&& r matches Err(e) ==> e is MalformedIdentifier
            },
        },
{
    match namespaces {
        None => Err(CatalogError::CatalogProtocolError("no namespaces field".to_string())),
        Some(v) => namespaces_from_levels(&v),
    }
}

/// Each entry of a table listing as an identifier, failing at the first
/// malformed one.
fn tables_from_entries(v: &Vec<ServiceTableIdentifier>) -> (r: Result<
    Vec<TableIdentifier>,
    CatalogError,
>)
    ensures
        r is Ok <==> forall|i: int| 0 <= i < v.len() ==> valid_parts(#[trigger] entry_parts(v@[i])),
        r matches Ok(ids) ==> ids.len() == v.len() && forall|i: int|
            0 <= i < v.len() ==> #[trigger] ids@[i]@ == entry_parts(v@[i]) && ids@[i].wf(),
        r matches Err(e) ==> e is MalformedIdentifier,
{
    let mut ids: Vec<TableIdentifier> = Vec::new();
    let mut i: usize = 0;
    while i < v.len()
        invariant
            0 <= i <= v.len(),
            ids.len() == i,
            forall|k: int| 0 <= k < i ==> valid_parts(#[trigger] entry_parts(v@[k])),
            forall|k: int|
                0 <= k < i ==> #[trigger] ids@[k]@ == entry_parts(v@[k]) && ids@[k].wf(),
        decreases v.len() - i,
    {
        match TableIdentifier::from_parts(&v[i].namespace, &v[i].name) {
            Ok(id) => {
                ids.push(id);
            },
            Err(e) => {
                assert(!valid_parts(entry_parts(v@[i as int])));
                return Err(e);
            },
        }
        i += 1;
    }
    Ok(ids)
}

/// Each segment list of a namespace listing as a namespace, failing at the
/// first malformed one.
fn namespaces_from_levels(v: &Vec<Vec<String>>) -> (r: Result<Vec<Namespace>, CatalogError>)
    ensures
        r is Ok <==> forall|i: int| 0 <= i < v.len() ==> all_nonempty_strs(#[trigger] v@[i]),
        r matches Ok(ns) ==> ns.len() == v.len() && forall|i: int|
            0 <= i < v.len() ==> #[trigger] ns@[i]@ == views(v@[i]@) && ns@[i].wf(),
        r matches Err(e) ==> e is MalformedIdentifier,
{
    let mut ns: Vec<Namespace> = Vec::new();
    let mut i: usize = 0;
    while i < v.len()
        invariant
            0 <= i <= v.len(),
            ns.len() == i,
            forall|k: int| 0 <= k < i ==> all_nonempty_strs(#[trigger] v@[k]),
            forall|k: int| 0 <= k < i ==> #[trigger] ns@[k]@ == views(v@[k]@) && ns@[k].wf(),
        decreases v.len() - i,
    {
        match Namespace::try_new(&v[i]) {
            Ok(n) => {
                ns.push(n);
            },
            Err(e) => {
                assert(!all_nonempty_strs(v@[i as int]));
                return Err(e);
            },
        }
        i += 1;
    }
    Ok(ns)
}

/// No string of the list is empty.
pub open spec fn all_nonempty_strs(v: Vec<String>) -> bool {
    crate::identifier::all_nonempty(views(v@))
}

/// Existence as the service signals it: success means the table exists,
/// not-found means it does not, and any other failure is passed on.
pub fn exists_result(response: Result<(), TransportError>) -> (r: Result<bool, CatalogError>)
    ensures
        match response {
            Ok(()) => r == Ok::<bool, CatalogError>(true),
            Err(TransportError::NotFound) => r == Ok::<bool, CatalogError>(false),
            Err(e) => r == Err::<bool, CatalogError>(CatalogError::CatalogTransportError(e)),
        },
{
    match response {
        Ok(()) => Ok(true),
        Err(TransportError::NotFound) => Ok(false),
        Err(e) => Err(CatalogError::CatalogTransportError(e)),
    }
}

/// The outcome of a pointer swap: a conflict means the previous location
/// was stale; any other failure is passed on.
pub fn commit_result(response: Result<(), TransportError>) -> (r: Result<(), CatalogError>)
    ensures
        match response {
            Ok(()) => r is Ok,
            Err(TransportError::Conflict) => r == Err::<(), CatalogError>(
                CatalogError::ConcurrentModification,
            ),
            Err(e) => r == Err::<(), CatalogError>(CatalogError::CatalogTransportError(e)),
        },
{
    match response {
        Ok(()) => Ok(()),
        Err(TransportError::Conflict) => Err(CatalogError::ConcurrentModification),
        Err(e) => Err(CatalogError::CatalogTransportError(e)),
    }
}

/// The object-store path of the metadata file that a table record points
/// to: the path component of its metadata location.
pub fn metadata_path(location: Option<String>) -> (r: Result<String, CatalogError>)
    ensures
        match location {
            None => r == Err::<String, CatalogError>(CatalogError::MissingMetadataLocation),
            Some(l) => match url_path_of(l@) {
                None => r == Err::<String, CatalogError>(CatalogError::InvalidLocationUri),
                Some(p) => r matches Ok(q) && q@ == p,
            },
        },
{
    match location {
        None => Err(CatalogError::MissingMetadataLocation),
        Some(l) => match location_path(l.as_str()) {
            None => Err(CatalogError::InvalidLocationUri),
            Some(p) => Ok(p),
        },
    }
}

/// The table metadata in what the object store returned: a read failure is
/// `MetadataUnavailable`; bytes that are not UTF-8 text, or text that is not
/// table metadata, are `CorruptMetadata`.
pub fn decode_metadata(fetched: Result<Vec<u8>, String>) -> (r: Result<
    TableMetadataV2,
    CatalogError,
>)
    ensures
        match fetched {
            Err(m) => r matches Err(CatalogError::MetadataUnavailable(n)) && n == m,
            Ok(b) => match utf8_text(b@) {
                None => r matches Err(CatalogError::CorruptMetadata),
                Some(t) => {
                    &&& r is Ok <==> is_table_metadata(t)
                    &&& r matches Err(e) ==> e is CorruptMetadata
                },
            },
        },
{
    match fetched {
        Err(m) => Err(CatalogError::MetadataUnavailable(m)),
        Ok(b) => match utf8_decode(b.as_slice()) {
            None => Err(CatalogError::CorruptMetadata),
            Some(t) => match parse_table_metadata(t.as_str()) {
                Some(m) => Ok(m),
                None => Err(CatalogError::CorruptMetadata),
            },
        },
    }
}

/// The storage location of a new table: the catalog root followed by the
/// identifier's segments joined with slashes.
pub fn table_location(base_path: &String, identifier: &TableIdentifier) -> (r: String)
    requires
        identifier.wf(),
    ensures
        r@ == base_path@ + join_with(identifier@, '/'),
{
    let levels = identifier.namespace().levels();
    let mut parts = copy_strings(levels);
    let name: String = identifier.name().clone();
    let ghost prev = parts@;
    parts.push(name);
    assert(views(parts@) =~= views(prev).push(name@));
    assert(identifier@ =~= identifier@.drop_last().push(identifier@.last()));
    proof {
        reveal_strlit("/");
    }
    let joined = join_segments(&parts, "/");
    let mut r = base_path.clone();
    r.append(joined.as_str());
    r
}

/// A client-side handle on a table: its identifier, the metadata location
/// it was loaded from, and the metadata read there.
pub struct Table {
    identifier: TableIdentifier,
    metadata_location: String,
    metadata: TableMetadataV2,
}

impl Table {
    /// A handle binding the identifier to the location and its metadata.
    pub fn new(identifier: TableIdentifier, metadata_location: String, metadata: TableMetadataV2) -> (r:
        Table)
        ensures
            r.identifier()@ == identifier@,
            r.spec_location() == metadata_location@,
            r.spec_metadata() == metadata,
    {
        Table { identifier, metadata_location, metadata }
    }

    pub closed spec fn identifier(&self) -> TableIdentifier {
        self.identifier
    }

    pub closed spec fn spec_location(&self) -> Seq<char> {
        self.metadata_location@
    }

    pub closed spec fn spec_metadata(&self) -> TableMetadataV2 {
        self.metadata
    }

    /// The identifier of the table.
    pub fn table_identifier(&self) -> (r: &TableIdentifier)
        ensures
            r@ == self.identifier()@,
    {
        &self.identifier
    }

    /// The metadata location the handle was loaded from.
    pub fn metadata_location(&self) -> (r: &String)
        ensures
            r@ == self.spec_location(),
    {
        &self.metadata_location
    }

    /// The metadata read at that location.
    pub fn metadata(&self) -> (r: &TableMetadataV2)
        ensures
            *r == self.spec_metadata(),
    {
        &self.metadata
    }

    /// A transaction that remembers the handle's location as the previous one.
    pub fn new_transaction(&self) -> (r: Transaction<'_>)
        ensures
            r.spec_identifier() == self.identifier()@,
            r.spec_previous() == self.spec_location(),
    {
        Transaction::new(&self.identifier, &self.metadata_location)
    }
}

/// A condition that the service checks before it applies a commit.
#[derive(Clone, Debug, PartialEq)]
pub enum TableRequirement {
    /// The table's pointer still holds this metadata location.
    AssertCurrentLocation(String),
}

/// One change that a commit applies.
#[derive(Clone, Debug, PartialEq)]
pub enum TableUpdate {
    /// Point the table at this metadata location.
    SetLocation(String),
}

/// The body of a commit: requirements first checked, then updates applied.
#[derive(Clone, Debug, PartialEq)]
pub struct CommitTableRequest {
    pub requirements: Vec<TableRequirement>,
    pub updates: Vec<TableUpdate>,
}

/// The body of a table creation: the table's name and, for a table whose
/// metadata already exists, its metadata location.
#[derive(Clone, Debug, PartialEq)]
pub struct CreateTableRequest {
    pub name: String,
    pub location: Option<String>,
}

/// The pointer swap of a commit: move the pointer to `new_location`, on the
/// condition that it still holds `previous_location`.
pub fn commit_request(new_location: &String, previous_location: &String) -> (r: CommitTableRequest)
    ensures
        r.requirements.len() == 1,
        r.requirements@[0] matches TableRequirement::AssertCurrentLocation(p) && p@
            == previous_location@,
        r.updates.len() == 1,
        r.updates@[0] matches TableUpdate::SetLocation(l) && l@ == new_location@,
{
    let mut requirements: Vec<TableRequirement> = Vec::new();
    requirements.push(TableRequirement::AssertCurrentLocation(previous_location.clone()));
    let mut updates: Vec<TableUpdate> = Vec::new();
    updates.push(TableUpdate::SetLocation(new_location.clone()));
    CommitTableRequest { requirements, updates }
}

/// The creation request that registers `identifier` with metadata that
/// already exists at `metadata_location`.
pub fn register_request(identifier: &TableIdentifier, metadata_location: &String) -> (r:
    CreateTableRequest)
    ensures
        r.name@ == identifier@.last(),
        r.location matches Some(l) && l@ == metadata_location@,
{
    CreateTableRequest {
        name: identifier.name().clone(),
        location: Some(metadata_location.clone()),
    }
}

} // verus!
