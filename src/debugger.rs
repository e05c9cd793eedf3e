//! The debug session: assembly, validation, and hand-off to the interactive
//! navigator or the exporter.

use vstd::prelude::*;

use crate::arena::TraceArena;
use crate::offsets::OffsetIndex;
use crate::breakpoints::Breakpoints;
use crate::error::DebugError;
use crate::registry::{
    build_offset_indexes, built_from, first_listed, has_code, listed_index, no_index, offsets_for,
    offsets_of, ContractOffsets, ContractRegistry, ContractSource,
};

verus! {

/// How an interactive session ended.
#[derive(Debug, Clone, Copy, PartialEq, Eq, Structural)]
pub enum ExitReason {
    /// The operator quit with a key.
    CharExit,
}

/// Everything a session holds, handed whole to the navigator or the exporter.
pub struct DebuggerContext {
    pub debug_arena: TraceArena,
    pub identified_contracts: ContractRegistry,
    pub contracts_sources: Vec<ContractSource>,
    pub pc_ic_maps: Vec<ContractOffsets>,
    pub breakpoints: Breakpoints,
}

impl DebuggerContext {
    /// The offset index that applies to step `at`: that of the bytecode
    /// variant its frame runs (creation or deployed), of the contract
    /// identified at the frame's address. `None` when the frame is unknown,
    /// the address unidentified, or the contract has no index for that variant.
    pub fn step_offsets(&self, at: usize) -> (r: Option<&OffsetIndex>)
        requires
            at < self.debug_arena.len(),
        ensures
            match r {
                Some(ix) => {
                    let f = self.debug_arena.frame_of(at as int);
                    &&& 0 <= f < self.debug_arena.frames@.len()
                    &&& exists|i: int|
                        first_listed(
                            self.identified_contracts.contracts@,
                            self.debug_arena.frames@[f].address,
                            i,
                        ) && listed_index(
                            self.pc_ic_maps@,
                            self.identified_contracts.contracts@[i].name@,
                            self.debug_arena.frames@[f].is_create,
                            *ix,
                        )
                },
                None => {
                    let f = self.debug_arena.frame_of(at as int);
                    ||| f >= self.debug_arena.frames@.len()
                    ||| forall|i: int|
                        0 <= i < self.identified_contracts.contracts@.len()
                            ==> (#[trigger] self.identified_contracts.contracts@[i]).address
                            != self.debug_arena.frames@[f].address
                    ||| exists|i: int|
                        first_listed(
                            self.identified_contracts.contracts@,
                            self.debug_arena.frames@[f].address,
                            i,
                        ) && no_index(
                            self.pc_ic_maps@,
                            self.identified_contracts.contracts@[i].name@,
                            self.debug_arena.frames@[f].is_create,
                        )
                },
            },
    {
        let f = self.debug_arena.steps[at].frame;
        if f >= self.debug_arena.frames.len() {
            return None;
        }
        let frame = &self.debug_arena.frames[f];
        match self.identified_contracts.contract_name(frame.address) {
            None => None,
            Some(name) => offsets_for(&self.pc_ic_maps, name, frame.is_create),
        }
    }
}

/// The interactive front end: runs over the session until the operator exits.
pub trait Navigator {
    fn run(&mut self, context: &mut DebuggerContext) -> Result<ExitReason, String>;
}

/// The export front end: writes the session to `path`.
pub trait Exporter {
    fn export(&mut self, path: &str, context: &mut DebuggerContext) -> Result<(), String>;
}

/// `maps` are the offset indices of exactly the sources with bytecode.
pub open spec fn maps_of(maps: Seq<ContractOffsets>, sources: Seq<ContractSource>) -> bool {
    &&& forall|k: int| 0 <= k < maps.len() ==> built_from(#[trigger] maps[k], sources, sources.len() as int)
    &&& forall|i: int|
        0 <= i < sources.len() && has_code(#[trigger] sources[i]) ==> exists|k: int|
            0 <= k < maps.len() && offsets_of(maps[k], sources[i])
}

/// A debug session over one recorded trace.
pub struct Debugger {
    pub context: DebuggerContext,
}

impl Debugger {
    /// Creates a new debugger builder.
    pub fn builder() -> (r: DebuggerBuilder)
        ensures
            r.debug_arena.len() == 0,
            r.debug_arena.frames@.len() == 0,
            r.identified_contracts.contracts@.len() == 0,
            r.sources@.len() == 0,
            r.breakpoints@.len() == 0,
    {
        DebuggerBuilder::new()
    }

    /// Creates a new debugger, building the offset indices of every contract
    /// with available bytecode.
    pub fn new(
        debug_arena: TraceArena,
        identified_contracts: ContractRegistry,
        contracts_sources: Vec<ContractSource>,
        breakpoints: Breakpoints,
    ) -> (r: Debugger)
        ensures
            r.context.debug_arena == debug_arena,
            r.context.identified_contracts == identified_contracts,
            r.context.contracts_sources == contracts_sources,
            r.context.breakpoints == breakpoints,
            maps_of(r.context.pc_ic_maps@, contracts_sources@),
    {
        let pc_ic_maps = build_offset_indexes(&contracts_sources);
        Debugger {
            context: DebuggerContext {
                debug_arena,
                identified_contracts,
                contracts_sources,
                pc_ic_maps,
                breakpoints,
            },
        }
    }

    /// Fails with `EmptyArena` exactly when the session holds no step.
    pub fn validate(&self) -> (r: Result<(), DebugError>)
        ensures
            r is Err <==> self.context.debug_arena.len() == 0,
            r is Err ==> r == Err::<(), DebugError>(DebugError::EmptyArena),
    {
        if self.context.debug_arena.is_empty() {
            Err(DebugError::EmptyArena)
        } else {
            Ok(())
        }
    }

    /// Starts the interactive navigator `tui` over the session, after
    /// checking that the session holds a step; the navigator's failure is
    /// passed on as `Frontend`.
    pub fn try_run_tui<N: Navigator>(&mut self, tui: &mut N) -> (r: Result<ExitReason, DebugError>)
        ensures
            (r == Err::<ExitReason, DebugError>(DebugError::EmptyArena)) <==> old(
                self,
            ).context.debug_arena.len() == 0,
            old(self).context.debug_arena.len() == 0 ==> *final(self) == *old(self),
    {
        if let Err(e) = self.validate() {
            return Err(e);
        }
        match tui.run(&mut self.context) {
            Ok(reason) => Ok(reason),
            Err(message) => Err(DebugError::Frontend(message)),
        }
    }

    /// Hands the session to the exporter `dumper`, to write it to `path`,
    /// after checking that the session holds a step; the exporter's failure
    /// is passed on as `Frontend`.
    pub fn dump_to_file<D: Exporter>(&mut self, path: &str, dumper: &mut D) -> (r: Result<(), DebugError>)
        ensures
            (r == Err::<(), DebugError>(DebugError::EmptyArena)) <==> old(
                self,
            ).context.debug_arena.len() == 0,
            old(self).context.debug_arena.len() == 0 ==> *final(self) == *old(self),
    {
        if let Err(e) = self.validate() {
            return Err(e);
        }
        match dumper.export(path, &mut self.context) {
            Ok(()) => Ok(()),
            Err(message) => Err(DebugError::Frontend(message)),
        }
    }
}

/// The process exit status for the outcome of an interactive session: zero
/// for an operator exit, one for any failure.
pub fn exit_code(outcome: &Result<ExitReason, DebugError>) -> (r: i32)
    ensures
        r == (if outcome is Ok {
            0i32
        } else {
            1i32
        }),
{
    match outcome {
        Ok(ExitReason::CharExit) => 0,
        Err(_) => 1,
    }
}

/// Collects the parts of a session before it is built.
pub struct DebuggerBuilder {
    pub debug_arena: TraceArena,
    pub identified_contracts: ContractRegistry,
    pub sources: Vec<ContractSource>,
    pub breakpoints: Breakpoints,
}

impl DebuggerBuilder {
    /// A builder with an empty trace, no identified contract, no source and
    /// no breakpoint.
    pub fn new() -> (r: DebuggerBuilder)
        ensures
            r.debug_arena.len() == 0,
            r.debug_arena.frames@.len() == 0,
            r.identified_contracts.contracts@.len() == 0,
            r.sources@.len() == 0,
            r.breakpoints@.len() == 0,
    {
        DebuggerBuilder {
            debug_arena: TraceArena { frames: Vec::new(), steps: Vec::new() },
            identified_contracts: ContractRegistry::new(),
            sources: Vec::new(),
            breakpoints: Breakpoints::new(),
        }
    }

    /// Sets the recorded trace.
    pub fn debug_arena(self, debug_arena: TraceArena) -> (r: DebuggerBuilder)
        ensures
            r.debug_arena == debug_arena,
            r.identified_contracts == self.identified_contracts,
            r.sources == self.sources,
            r.breakpoints == self.breakpoints,
    {
        DebuggerBuilder { debug_arena, ..self }
    }

    /// Sets the identified contracts.
    pub fn identified_contracts(self, identified_contracts: ContractRegistry) -> (r: DebuggerBuilder)
        ensures
            r.debug_arena == self.debug_arena,
            r.identified_contracts == identified_contracts,
            r.sources == self.sources,
            r.breakpoints == self.breakpoints,
    {
        DebuggerBuilder { identified_contracts, ..self }
    }

    /// Sets the contract sources.
    pub fn sources(self, sources: Vec<ContractSource>) -> (r: DebuggerBuilder)
        ensures
            r.debug_arena == self.debug_arena,
            r.identified_contracts == self.identified_contracts,
            r.sources == sources,
            r.breakpoints == self.breakpoints,
    {
        DebuggerBuilder { sources, ..self }
    }

    /// Sets the breakpoints.
    pub fn breakpoints(self, breakpoints: Breakpoints) -> (r: DebuggerBuilder)
        ensures
            r.debug_arena == self.debug_arena,
            r.identified_contracts == self.identified_contracts,
            r.sources == self.sources,
            r.breakpoints == breakpoints,
    {
        DebuggerBuilder { breakpoints, ..self }
    }

    /// Builds the debugger.
    pub fn build(self) -> (r: Debugger)
        ensures
            r.context.debug_arena == self.debug_arena,
            r.context.identified_contracts == self.identified_contracts,
            r.context.contracts_sources == self.sources,
            r.context.breakpoints == self.breakpoints,
            maps_of(r.context.pc_ic_maps@, self.sources@),
    {
        Debugger::new(self.debug_arena, self.identified_contracts, self.sources, self.breakpoints)
    }
}

} // verus!
