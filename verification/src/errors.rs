//! The one error channel of the pipeline: every failure, from object
//! building to linking to running an external tool, is a value of
//! `BuildError`, and each variant names what went wrong.

use vstd::prelude::*;
use crate::objfile::RelocKind;
use crate::target::TargetTriple;

verus! {

/// Every failure the pipeline reports.
#[derive(Debug)]
pub enum BuildError {
    /// No backend or no link recipe exists for the descriptor.
    UnsupportedTarget { target: TargetTriple },
    /// A relocation names a symbol absent from the object.
    UnresolvedSymbol { name: Vec<u8> },
    /// The container refuses this relocation kind on this architecture.
    UnsupportedRelocation { kind: RelocKind },
    /// An external tool could not be started.
    ToolSpawnFailure { tool: String, message: String },
    /// An external tool ran and exited unsuccessfully.
    ToolExitFailure { tool: String, message: String },
}

/// What a `BuildError` says, with the byte-string payload abstracted to a
/// sequence; the shape the build model's contracts speak of.
pub ghost enum BuildErrVal {
    UnsupportedTarget { target: TargetTriple },
    UnresolvedSymbol { name: Seq<u8> },
    UnsupportedRelocation { kind: RelocKind },
    ToolSpawnFailure,
    ToolExitFailure,
}

impl View for BuildError {
    type V = BuildErrVal;

    open spec fn view(&self) -> BuildErrVal {
        match self {
            BuildError::UnsupportedTarget { target } => (BuildErrVal::UnsupportedTarget {
                target: *target,
            }),
            BuildError::UnresolvedSymbol { name } => (BuildErrVal::UnresolvedSymbol {
                name: name@,
            }),
            BuildError::UnsupportedRelocation { kind } => (BuildErrVal::UnsupportedRelocation {
                kind: *kind,
            }),
            BuildError::ToolSpawnFailure { .. } => BuildErrVal::ToolSpawnFailure,
            BuildError::ToolExitFailure { .. } => BuildErrVal::ToolExitFailure,
        }
    }
}

} // verus!
