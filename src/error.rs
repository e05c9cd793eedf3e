//! The errors of the debugger library.

use vstd::prelude::*;

verus! {

/// Errors of the debugger library.
#[derive(Debug, PartialEq, Eq)]
pub enum DebugError {
    /// The session holds no recorded step.
    EmptyArena,
    /// A raw offset that is not the start of an instruction was looked up.
    NotInstructionStart,
    /// An instruction index past the last instruction was looked up.
    InstructionOutOfRange,
    /// The interactive navigator or the exporter failed with this message.
    Frontend(String),
}

} // verus!
