//! Configuration parts that both filters share.

use vstd::prelude::*;

verus! {

/// What to do with a request when no routing decision can be produced.
#[derive(Debug, Clone, Copy, PartialEq, Eq, Structural)]
pub enum FailureMode {
    /// Pass the request through unmodified, so that a broken optimizer can
    /// neither fail the request nor downgrade a session.
    Open,
    /// Reject with 503, for deployments that would rather fail than route
    /// un-optimized.
    Closed,
}

impl Default for FailureMode {
    fn default() -> (mode: FailureMode)
        ensures
            mode == FailureMode::Open,
    {
        FailureMode::Open
    }
}

/// One tier's resolution: which cluster to dial, and which model name to write
/// into the forwarded request body.
#[derive(Debug, Clone)]
pub struct TargetConfig {
    /// Cluster name.
    pub cluster: String,
    /// Upstream model name.
    pub model: String,
}

/// The content of a [`TargetConfig`].
pub struct TargetView {
    pub cluster: Seq<char>,
    pub model: Seq<char>,
}

impl View for TargetConfig {
    type V = TargetView;

    open spec fn view(&self) -> TargetView {
        TargetView { cluster: self.cluster@, model: self.model@ }
    }
}

/// A refused configuration.
#[derive(Debug, Clone)]
pub struct ConfigError {
    /// What is wrong, for the operator.
    pub message: String,
}

/// The complaint in a refusal, if it is one.
pub open spec fn refusal<T>(outcome: Result<T, ConfigError>) -> Option<Seq<char>> {
    match outcome {
        Ok(_) => None,
        Err(error) => Some(error.message@),
    }
}

/// The text in `text`, or `fallback` where there is none.
pub open spec fn text_or(text: Option<String>, fallback: Seq<char>) -> Seq<char> {
    match text {
        Some(found) => found@,
        None => fallback,
    }
}

/// The value in `value`, or `fallback` where there is none.
pub open spec fn value_or<T>(value: Option<T>, fallback: T) -> T {
    match value {
        Some(found) => found,
        None => fallback,
    }
}

/// An outcome by content.
pub open spec fn settled_as<T: View>(r: Result<T, ConfigError>) -> Result<T::V, Seq<char>> {
    match r {
        Ok(value) => Ok(value@),
        Err(error) => Err(error.message@),
    }
}

} // verus!
