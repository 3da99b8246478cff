//! Prices.

pub mod bulk_api;
pub mod bulk_laws;
pub mod catalog;
pub mod download;
pub mod error;
pub mod file_registry;
pub mod gcp_model;
pub mod gcp_registry;
pub mod model;
pub mod noop;
pub mod registry;
pub mod table_laws;
pub mod file_laws;
