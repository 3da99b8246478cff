//! `CloudFormation` templates.

pub mod sentinel;
pub mod resolved;
pub mod error;
pub mod intrinsic;
pub mod parser;
pub mod convert;
pub mod laws;
pub mod convert_laws;
pub mod intrinsic_laws;
pub mod reason_laws;
pub mod json_laws;
pub mod list_laws;
