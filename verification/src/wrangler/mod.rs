//! Cloudflare Workers: Wrangler configurations and the services they use.

pub mod config;
pub mod document;
pub mod error;
pub mod jsonc;
pub mod jsonc_laws;
pub mod parser;
pub mod plugin;
pub mod services;
pub mod cost_laws;
pub mod laws;
