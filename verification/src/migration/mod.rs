//! Data migration framework for schema evolution and transformation.
pub mod plan;
pub mod runner;
pub mod version;
