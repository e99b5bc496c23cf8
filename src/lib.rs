//! Client-side core of a REST table catalog: identifier resolution, the
//! handling of catalog-service responses, and an in-memory catalog service
//! with compare-and-swap commits of table metadata pointers.
pub mod catalog;
pub mod error;
pub mod identifier;
pub mod memory;
pub mod models;
