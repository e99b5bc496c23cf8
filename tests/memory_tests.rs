use iceberg_catalog_rest::catalog::{exists_result, list_tables_result};
use iceberg_catalog_rest::error::{CatalogError, TransportError};
use iceberg_catalog_rest::identifier::{Namespace, TableIdentifier};
use iceberg_catalog_rest::memory::{MemoryCatalog, Transaction};

fn id(text: &str) -> TableIdentifier {
    TableIdentifier::parse(text).unwrap()
}

fn registered(catalog: &MemoryCatalog, identifier: &TableIdentifier) -> bool {
    exists_result(catalog.table_exists(identifier)).unwrap()
}

#[test]
fn test_create_update_drop_table() {
    let mut catalog = MemoryCatalog::new();
    let identifier = id("load_table.table3");
    catalog
        .create_table(&identifier, &"/load_table/table3/metadata/v1.json".to_string())
        .expect("Failed to create table");
    let exists_now = exists_result(catalog.table_exists(&identifier)).expect("Table doesn't exist");
    assert_eq!(exists_now, true);

    let metadata_location = catalog.load_location(&identifier).unwrap();
    let transaction = Transaction::new(&identifier, &metadata_location);
    let new_metadata_location = transaction
        .commit(&mut catalog, &"/load_table/table3/metadata/v2.json".to_string())
        .expect("Transaction failed.");
    assert_ne!(metadata_location, new_metadata_location);

    catalog.drop_table(&identifier).expect("Failed to drop table.");
    catalog.table_exists(&identifier).expect_err("Table still exists");
}

#[test]
fn exists_before_create_after_create_after_drop() {
    let mut catalog = MemoryCatalog::new();
    let t = id("ns.t");
    assert!(!registered(&catalog, &t));
    catalog.create_table(&t, &"/ns/t/v1.json".to_string()).unwrap();
    assert!(registered(&catalog, &t));
    catalog.drop_table(&t).unwrap();
    assert!(!registered(&catalog, &t));
}

#[test]
fn create_twice_conflicts() {
    let mut catalog = MemoryCatalog::new();
    let t = id("ns.t");
    catalog.create_table(&t, &"/a".to_string()).unwrap();
    assert_eq!(catalog.create_table(&t, &"/b".to_string()), Err(TransportError::Conflict));
    assert_eq!(catalog.load_location(&t), Ok("/a".to_string()));
}

#[test]
fn drop_missing_table_is_not_found() {
    let mut catalog = MemoryCatalog::new();
    assert_eq!(catalog.drop_table(&id("ns.t")), Err(TransportError::NotFound));
}

#[test]
fn load_missing_table_is_not_found() {
    let catalog = MemoryCatalog::new();
    assert_eq!(catalog.load_location(&id("ns.missing")), Err(TransportError::NotFound));
}

#[test]
fn two_tables_listed_in_creation_order() {
    let mut catalog = MemoryCatalog::new();
    catalog.create_table(&id("ns.t1"), &"/ns/t1".to_string()).unwrap();
    catalog.create_table(&id("other.x"), &"/other/x".to_string()).unwrap();
    catalog.create_table(&id("ns.t2"), &"/ns/t2".to_string()).unwrap();
    let ns = Namespace::try_new(&vec!["ns".to_string()]).unwrap();
    let listed = list_tables_result(Some(catalog.list_tables(&ns))).unwrap();
    let names: Vec<String> = listed.iter().map(|i| i.name().clone()).collect();
    assert_eq!(names, vec!["t1".to_string(), "t2".to_string()]);
}

#[test]
fn commit_moves_pointer_visible_to_fresh_load() {
    let mut catalog = MemoryCatalog::new();
    let t = id("ns.t");
    catalog.create_table(&t, &"/v1".to_string()).unwrap();
    let before = catalog.load_location(&t).unwrap();
    let after = Transaction::new(&t, &before).commit(&mut catalog, &"/v2".to_string()).unwrap();
    assert_ne!(before, after);
    assert_eq!(catalog.load_location(&t), Ok("/v2".to_string()));
}

#[test]
fn second_writer_with_stale_location_is_refused() {
    let mut catalog = MemoryCatalog::new();
    let t = id("ns.t");
    catalog.create_table(&t, &"/v1".to_string()).unwrap();
    let h1 = catalog.load_location(&t).unwrap();
    let h2 = catalog.load_location(&t).unwrap();
    Transaction::new(&t, &h1).commit(&mut catalog, &"/v2-a".to_string()).unwrap();
    assert_eq!(
        Transaction::new(&t, &h2).commit(&mut catalog, &"/v2-b".to_string()),
        Err(CatalogError::ConcurrentModification)
    );
    assert_eq!(catalog.load_location(&t), Ok("/v2-a".to_string()));
}

#[test]
fn retry_succeeds_only_with_fresh_location() {
    let mut catalog = MemoryCatalog::new();
    let t = id("ns.t");
    catalog.create_table(&t, &"/v1".to_string()).unwrap();
    catalog.update_location(&t, &"/v2".to_string(), &"/v1".to_string()).unwrap();
    assert_eq!(
        catalog.update_location(&t, &"/v3".to_string(), &"/v1".to_string()),
        Err(TransportError::Conflict)
    );
    let fresh = catalog.load_location(&t).unwrap();
    assert_eq!(catalog.update_location(&t, &"/v3".to_string(), &fresh), Ok(()));
    assert_eq!(catalog.load_location(&t), Ok("/v3".to_string()));
}

#[test]
fn commit_on_missing_table_is_not_found() {
    let mut catalog = MemoryCatalog::new();
    let t = id("ns.t");
    assert_eq!(
        Transaction::new(&t, &"/v1".to_string()).commit(&mut catalog, &"/v2".to_string()),
        Err(CatalogError::CatalogTransportError(TransportError::NotFound))
    );
}

fn ns(levels: &[&str]) -> Namespace {
    Namespace::try_new(&levels.iter().map(|s| s.to_string()).collect()).unwrap()
}

#[test]
fn namespaces_listed_under_their_parent() {
    let mut catalog = MemoryCatalog::new();
    catalog.create_namespace(&ns(&["a"])).unwrap();
    catalog.create_namespace(&ns(&["b"])).unwrap();
    catalog.create_namespace(&ns(&["a", "x"])).unwrap();
    catalog.create_namespace(&ns(&["a", "x", "deep"])).unwrap();
    catalog.create_namespace(&ns(&["a", "y"])).unwrap();
    let top: Vec<String> = iceberg_catalog_rest::catalog::list_namespaces_result(Some(
        catalog.list_namespaces(None),
    ))
    .unwrap()
    .iter()
    .map(|n| n.to_string())
    .collect();
    assert_eq!(top, vec!["a".to_string(), "b".to_string()]);
    let under_a = catalog.list_namespaces(Some(&ns(&["a"])));
    assert_eq!(
        under_a,
        vec![
            vec!["a".to_string(), "x".to_string()],
            vec!["a".to_string(), "y".to_string()]
        ]
    );
    assert!(catalog.list_namespaces(Some(&ns(&["b"]))).is_empty());
}

#[test]
fn create_namespace_twice_conflicts() {
    let mut catalog = MemoryCatalog::new();
    catalog.create_namespace(&ns(&["a"])).unwrap();
    assert_eq!(catalog.create_namespace(&ns(&["a"])), Err(TransportError::Conflict));
    assert_eq!(catalog.list_namespaces(None).len(), 1);
}
