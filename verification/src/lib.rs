//! Reports on a package of a registry: the model of the registry's answer,
//! the formatters of its fields, and the choice of what a set of flags prints.

pub mod errors;
pub mod args;
pub mod crates;
pub mod document;
pub mod report;
pub mod text;
pub mod timestamp;
