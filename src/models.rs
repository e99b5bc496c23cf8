//! Request and response shapes of the catalog service.
use vstd::prelude::*;

use iceberg_rs::model::partition::PartitionField;
use iceberg_rs::model::schema::{AllType, StructField};
use iceberg_rs::model::snapshot::SnapshotV2;

pub mod add_snapshot_update_all_of;
pub mod list_namespaces_200_response;
pub mod list_type;
pub mod partition_spec;
pub mod rename_table_request;
pub mod snapshot_log_inner;
pub mod struct_type;
pub mod table_identifier;

verus! {

#[verifier::external_type_specification]
#[verifier::external_body]
pub struct ExSnapshotV2(SnapshotV2);

#[verifier::external_type_specification]
#[verifier::external_body]
pub struct ExAllType(AllType);

#[verifier::external_type_specification]
#[verifier::external_body]
pub struct ExPartitionField(PartitionField);

#[verifier::external_type_specification]
#[verifier::external_body]
pub struct ExStructField(StructField);

} // verus!
