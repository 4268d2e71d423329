//! Plugin system: hook points and the plugin registry.
pub mod hooks;
pub mod registry;
