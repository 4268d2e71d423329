//! Performance: memory budgets, lazy loading and profiling spans.
pub mod lazy;
pub mod memory;
pub mod profiler;
