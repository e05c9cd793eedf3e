//! Post-mortem debugging of recorded contract execution traces: offset
//! correlation, trace navigation, breakpoint resolution and session assembly.

pub mod arena;
pub mod breakpoints;
pub mod debugger;
pub mod error;
pub mod offsets;
pub mod registry;

pub use arena::{lemma_call_nesting, lemma_stepping_clamps, Address, Frame, Step, TraceArena};
pub use breakpoints::{lemma_next_breakpoint_unique, Breakpoint, Breakpoints};
pub use error::DebugError;
pub use offsets::{build_decode_table, lemma_decode_bijective, OffsetIndex};
pub use registry::{
    build_offset_indexes, offsets_for, ContractOffsets, ContractRegistry, ContractSource,
    IdentifiedContract,
};
pub use debugger::{
    exit_code, Debugger, DebuggerBuilder, DebuggerContext, ExitReason, Exporter, Navigator,
};
