//! Services, the catalog of them, and the plugins that provide them.

pub mod api;
pub mod capacity;
pub mod catalog;
pub mod error;
pub mod plugin;
pub mod resolver;
pub mod laws;
