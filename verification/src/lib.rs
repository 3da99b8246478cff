//! Infrastructure-as-code cost modelling.

#![allow(unused_imports)]

pub mod amount;
pub mod arch;
pub mod cfn;
pub mod cost;
pub mod decode;
pub mod engine;
pub mod iac;
pub mod iac_laws;
pub mod json;
pub mod path;
pub mod policy;
pub mod pricing;
pub mod service;
pub mod strmap;
pub mod text;
pub mod text_laws;
pub mod tf;
pub mod wrangler;
pub mod yaml;
