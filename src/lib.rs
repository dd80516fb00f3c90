//! Boundary construction, batching and scan decisions for an ordered,
//! transactional byte-key store.
pub mod keys;
pub mod error;
pub mod bounds;
pub mod batch;
pub mod scan;
pub mod db;
