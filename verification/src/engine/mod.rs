//! From the text of an input to a cost model.

pub mod architecture;
pub mod error;
pub mod generate;
pub mod input;
pub mod registry;
pub mod laws;
