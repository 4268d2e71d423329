//! Data pipeline: ingestion, transformation, stream watermarks and batch jobs.
pub mod batch;
pub mod fields;
pub mod ingestion;
pub mod stream;
pub mod transform;
