//! Observability: logging configuration and API documentation types.
pub mod logging;
pub mod openapi;
