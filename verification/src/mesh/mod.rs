//! Service mesh resilience primitives.
pub mod circuit;
