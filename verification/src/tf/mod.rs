//! Terraform configurations.

pub mod convert;
pub mod document;
pub mod error;
pub mod parser;
pub mod resolver;
pub mod convert_laws;
pub mod laws;
pub mod json_laws;
pub mod value_laws;
