//! The failure taxonomy of a build flow.  None of these is recovered
//! locally: every one aborts the run, and the intended recovery is a later
//! re-invocation that resumes from a checkpoint.

use vstd::prelude::*;

verus! {

/// A fatal build-flow failure.
#[derive(Debug)]
pub enum FlowError {
    /// The composer's generator failed for some node; no partial graph
    /// exists.
    CompositionFailure,
    /// A requested starting checkpoint names no substep of the node.
    CheckpointNotFound { name: String },
    /// The external tool exited with a nonzero status.
    ExternalToolFailure { exit_code: i64 },
    /// The materialized script or a checkpoint file could not be written.
    ScriptIOFailure,
    /// A named node does not exist in the flow.
    NodeNotFound { name: String },
}

impl FlowError {
    /// A diagnostic line for the embedder to surface to the user.
    pub fn message(&self) -> (r: String)
        ensures
            self matches FlowError::CheckpointNotFound { name } ==> r@
                == "checkpoint not found: "@ + name@,
            self is CompositionFailure ==> r@ == "composition failed"@,
            self is ScriptIOFailure ==> r@ == "failed to write script or checkpoint"@,
            self is ExternalToolFailure ==> r@ == "external tool failed"@,
            self matches FlowError::NodeNotFound { name } ==> r@ == "node not found in flow: "@
                + name@,
    {
        match self {
            FlowError::CompositionFailure => String::from_str("composition failed"),
            FlowError::CheckpointNotFound { name } => {
                let mut m = String::from_str("checkpoint not found: ");
                m.append(name.as_str());
                m
            },
            FlowError::ExternalToolFailure { exit_code: _ } => String::from_str(
                "external tool failed",
            ),
            FlowError::ScriptIOFailure => String::from_str("failed to write script or checkpoint"),
            FlowError::NodeNotFound { name } => {
                let mut m = String::from_str("node not found in flow: ");
                m.append(name.as_str());
                m
            },
        }
    }
}

} // verus!
