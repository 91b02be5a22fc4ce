//! A registry of subscribers, partitioned by product type and keyed by URL
//! within each partition.

pub mod model;
pub mod store;
pub mod repository;
pub mod laws;
