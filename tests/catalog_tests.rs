use iceberg_catalog_rest::catalog::{
    commit_request, commit_result, decode_metadata, exists_result, list_namespaces_result,
    list_tables_result, metadata_path, register_request, table_location, Table, TableRequirement,
    TableUpdate,
};
use iceberg_catalog_rest::error::{CatalogError, TransportError};
use iceberg_catalog_rest::identifier::TableIdentifier;
use iceberg_catalog_rest::models::table_identifier::TableIdentifier as Entry;

const METADATA: &str = r#"
{
    "format-version" : 2,
    "table-uuid": "fb072c92-a02b-11e9-ae9c-1bb7bc9eca94",
    "location": "s3://b/wh/data.db/table",
    "last-sequence-number" : 1,
    "last-updated-ms": 1515100955770,
    "last-column-id": 1,
    "schemas": [
        {
            "schema-id" : 1,
            "type" : "struct",
            "fields" :[
                {
                    "id": 1,
                    "name": "struct_name",
                    "required": true,
                    "field_type": "fixed[1]"
                }
            ]
        }
    ],
    "current-schema-id" : 1,
    "partition-specs": [
        {
            "spec-id": 1,
            "fields": [
                {
                    "source-id": 4,
                    "field-id": 1000,
                    "name": "ts_day",
                    "transform": "day"
                }
            ]
        }
    ],
    "default-spec-id": 1,
    "last-partition-id": 1,
    "properties": {
        "commit.retry.num-retries": "1"
    },
    "metadata-log": [
        {
            "metadata-file": "s3://bucket/.../v1.json",
            "timestamp-ms": 1515100
        }
    ],
    "sort-orders": [],
    "default-sort-order-id": 0
}
"#;

fn entry(ns: &[&str], name: &str) -> Entry {
    Entry::new(ns.iter().map(|s| s.to_string()).collect(), name.to_string())
}

#[test]
fn list_tables_without_field_is_protocol_error() {
    assert!(matches!(list_tables_result(None), Err(CatalogError::CatalogProtocolError(_))));
}

#[test]
fn list_tables_keeps_service_order() {
    let ids = list_tables_result(Some(vec![entry(&["ns"], "t1"), entry(&["ns"], "t2")])).unwrap();
    let names: Vec<String> = ids.iter().map(|i| i.to_string()).collect();
    assert_eq!(names, vec!["ns.t1".to_string(), "ns.t2".to_string()]);
    assert!(list_tables_result(Some(vec![])).unwrap().is_empty());
}

#[test]
fn list_tables_fails_on_malformed_entry() {
    assert_eq!(
        list_tables_result(Some(vec![entry(&["ns"], "t1"), entry(&[], "t2")])).err(),
        Some(CatalogError::MalformedIdentifier)
    );
    assert_eq!(
        list_tables_result(Some(vec![entry(&["ns"], "")])).err(),
        Some(CatalogError::MalformedIdentifier)
    );
}

#[test]
fn list_namespaces_maps_segments() {
    assert!(matches!(list_namespaces_result(None), Err(CatalogError::CatalogProtocolError(_))));
    let ns = list_namespaces_result(Some(vec![
        vec!["a".to_string()],
        vec!["a".to_string(), "b".to_string()],
    ]))
    .unwrap();
    assert_eq!(ns.len(), 2);
    assert_eq!(ns[1].to_string(), "a.b");
    assert_eq!(
        list_namespaces_result(Some(vec![vec!["".to_string()]])).err(),
        Some(CatalogError::MalformedIdentifier)
    );
}

#[test]
fn exists_maps_not_found_to_false() {
    assert_eq!(exists_result(Ok(())), Ok(true));
    assert_eq!(exists_result(Err(TransportError::NotFound)), Ok(false));
    assert_eq!(
        exists_result(Err(TransportError::Failure("down".to_string()))),
        Err(CatalogError::CatalogTransportError(TransportError::Failure("down".to_string())))
    );
}

#[test]
fn commit_conflict_is_concurrent_modification() {
    assert_eq!(commit_result(Ok(())), Ok(()));
    assert_eq!(
        commit_result(Err(TransportError::Conflict)),
        Err(CatalogError::ConcurrentModification)
    );
    assert_eq!(
        commit_result(Err(TransportError::NotFound)),
        Err(CatalogError::CatalogTransportError(TransportError::NotFound))
    );
}

#[test]
fn metadata_path_strips_scheme_and_host() {
    assert_eq!(
        metadata_path(Some("s3://bucket/wh/t/metadata/v1.json".to_string())),
        Ok("/wh/t/metadata/v1.json".to_string())
    );
    assert_eq!(
        metadata_path(Some("file:///tmp/meta.json".to_string())),
        Ok("/tmp/meta.json".to_string())
    );
}

#[test]
fn metadata_path_errors() {
    assert_eq!(metadata_path(None), Err(CatalogError::MissingMetadataLocation));
    assert_eq!(
        metadata_path(Some("not a location".to_string())),
        Err(CatalogError::InvalidLocationUri)
    );
}

#[test]
fn decode_metadata_reads_table_metadata() {
    let m = decode_metadata(Ok(METADATA.as_bytes().to_vec())).unwrap();
    assert_eq!(m.location, "s3://b/wh/data.db/table");
    let id = TableIdentifier::parse("wh.table").unwrap();
    let table = Table::new(id, "/wh/v1.json".to_string(), m);
    assert_eq!(table.metadata_location(), "/wh/v1.json");
    assert_eq!(table.metadata().last_column_id, 1);
    let tx = table.new_transaction();
    assert_eq!(tx.previous_location(), "/wh/v1.json");
}

#[test]
fn decode_metadata_errors() {
    assert_eq!(
        decode_metadata(Err("no such object".to_string())).err(),
        Some(CatalogError::MetadataUnavailable("no such object".to_string()))
    );
    assert_eq!(
        decode_metadata(Ok(vec![0xff, 0xfe, 0x7b])).err(),
        Some(CatalogError::CorruptMetadata)
    );
    assert_eq!(
        decode_metadata(Ok(b"{\"format-version\": 1}".to_vec())).err(),
        Some(CatalogError::CorruptMetadata)
    );
}

#[test]
fn table_location_joins_with_slashes() {
    let id = TableIdentifier::parse("load_table.table3").unwrap();
    assert_eq!(table_location(&"/".to_string(), &id), "/load_table/table3");
    let nested = TableIdentifier::parse("a.b.c").unwrap();
    assert_eq!(table_location(&"s3://wh/".to_string(), &nested), "s3://wh/a/b/c");
}

#[test]
fn commit_request_carries_precondition() {
    let r = commit_request(&"/t/v2.json".to_string(), &"/t/v1.json".to_string());
    assert_eq!(
        r.requirements,
        vec![TableRequirement::AssertCurrentLocation("/t/v1.json".to_string())]
    );
    assert_eq!(r.updates, vec![TableUpdate::SetLocation("/t/v2.json".to_string())]);
}

#[test]
fn register_request_names_table_and_location() {
    let id = TableIdentifier::parse("ns.t").unwrap();
    let r = register_request(&id, &"/ns/t/v1.json".to_string());
    assert_eq!(r.name, "t");
    assert_eq!(r.location, Some("/ns/t/v1.json".to_string()));
}
