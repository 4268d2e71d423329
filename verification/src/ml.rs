//! Machine-learning model lifecycle types.
use vstd::prelude::*;

verus! {

/// Model status in the lifecycle.
#[derive(Debug, Clone, Copy, PartialEq, Eq)]
pub enum ModelStatus {
    Training,
    Validating,
    Ready,
    Deprecated,
    Failed,
}

/// Model type identifier.
#[derive(Debug, Clone, Copy, PartialEq, Eq)]
pub enum ModelType {
    LinearRegression,
    DecisionStump,
    Ensemble,
}

} // verus!
