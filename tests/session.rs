use foundry_debugger::{
    build_decode_table, build_offset_indexes, exit_code, offsets_for, Address, Breakpoints,
    ContractRegistry, ContractSource, DebugError, Debugger, DebuggerContext, ExitReason, Exporter,
    Frame, Navigator, OffsetIndex, Step, TraceArena,
};

struct QuitNavigator {
    runs: usize,
}

impl Navigator for QuitNavigator {
    fn run(&mut self, _context: &mut DebuggerContext) -> Result<ExitReason, String> {
        self.runs += 1;
        Ok(ExitReason::CharExit)
    }
}

struct FailingExporter {
    calls: usize,
}

impl Exporter for FailingExporter {
    fn export(&mut self, path: &str, _context: &mut DebuggerContext) -> Result<(), String> {
        self.calls += 1;
        Err(format!("cannot write {path}"))
    }
}

fn one_step_arena() -> TraceArena {
    TraceArena {
        frames: vec![Frame {
            address: Address { high: 0, middle: 0, low: 1 },
            is_create: false,
            parent: None,
        }],
        steps: vec![Step { frame: 0, pc: 0, op: 0x00 }],
    }
}

fn empty_arena() -> TraceArena {
    TraceArena { frames: vec![], steps: vec![] }
}

fn debugger(arena: TraceArena) -> Debugger {
    Debugger::builder().debug_arena(arena).build()
}

#[test]
fn push_then_stop_offsets() {
    let ix = OffsetIndex::new(&[0x60, 0x01, 0x00]);
    assert_eq!(ix.len(), 2);
    assert_eq!(ix.instruction_index(0), Ok(0));
    assert_eq!(ix.instruction_index(2), Ok(1));
    assert_eq!(ix.raw_offset(0), Ok(0));
    assert_eq!(ix.raw_offset(1), Ok(2));
    assert_eq!(ix.instruction_index(1), Err(DebugError::NotInstructionStart));
    assert_eq!(ix.raw_offset(2), Err(DebugError::InstructionOutOfRange));
}

#[test]
fn offsets_round_trip_over_mixed_code() {
    // PUSH2 aa bb, ADD, PUSH32 (32 bytes), DUPN 01, STOP
    let mut code = vec![0x61, 0xaa, 0xbb, 0x01, 0x7f];
    code.extend(std::iter::repeat(0x5b).take(32));
    code.extend([0xe6, 0x01, 0x00]);
    let ix = OffsetIndex::new(&code);
    let expected = [0usize, 3, 4, 37, 39];
    assert_eq!(ix.len(), expected.len());
    for (i, pc) in expected.iter().enumerate() {
        assert_eq!(ix.instruction_index(*pc), Ok(i));
        assert_eq!(ix.raw_offset(i), Ok(*pc));
    }
    assert_eq!(ix.instruction_index(5), Err(DebugError::NotInstructionStart));
}

#[test]
fn truncated_push_ends_decoding() {
    let ix = OffsetIndex::new(&[0x00, 0x63, 0x01]);
    assert_eq!(ix.len(), 2);
    assert_eq!(ix.raw_offset(1), Ok(1));
    assert_eq!(ix.instruction_index(2), Err(DebugError::NotInstructionStart));
}

#[test]
fn empty_code_has_no_instructions() {
    let ix = OffsetIndex::new(&[]);
    assert_eq!(ix.len(), 0);
    assert_eq!(ix.raw_offset(0), Err(DebugError::InstructionOutOfRange));
}

#[test]
fn decode_table_of_latest_semantics() {
    let table = build_decode_table();
    assert_eq!(table.len(), 256);
    assert_eq!(table[0x5f], 0);
    assert_eq!(table[0x60], 1);
    assert_eq!(table[0x7f], 32);
    assert_eq!(table[0xe6], 1);
    assert_eq!(table[0x00], 0);
    assert_eq!(table[0xfe], 0);
}

#[test]
fn custom_table_changes_decoding() {
    let mut table = vec![0u8; 256];
    table[0x01] = 2;
    let ix = OffsetIndex::with_table(&[0x01, 0x60, 0x60, 0x60], &table);
    assert_eq!(ix.len(), 2);
    assert_eq!(ix.raw_offset(1), Ok(3));
}

#[test]
fn offset_indexes_skip_sources_without_code() {
    let sources = vec![
        ContractSource {
            name: "C".to_string(),
            creation_code: Some(vec![0x60, 0x01, 0x00]),
            deployed_code: Some(vec![0x00]),
        },
        ContractSource { name: "Named".to_string(), creation_code: None, deployed_code: None },
        ContractSource {
            name: "D".to_string(),
            creation_code: None,
            deployed_code: Some(vec![0x61, 0x00, 0x00, 0x00]),
        },
    ];
    let maps = build_offset_indexes(&sources);
    assert_eq!(maps.len(), 2);
    let c = offsets_for(&maps, &"C".to_string(), true).unwrap();
    assert_eq!(c.raw_offset(1), Ok(2));
    assert_eq!(offsets_for(&maps, &"C".to_string(), false).unwrap().len(), 1);
    assert!(offsets_for(&maps, &"D".to_string(), true).is_none());
    assert_eq!(offsets_for(&maps, &"D".to_string(), false).unwrap().raw_offset(1), Ok(3));
    assert!(offsets_for(&maps, &"Named".to_string(), true).is_none());
}

#[test]
fn registry_identifies_first_listed_name() {
    let mut reg = ContractRegistry::new();
    let a = Address { high: 1, middle: 2, low: 3 };
    reg.insert(a, "Token".to_string());
    reg.insert(a, "Shadow".to_string());
    assert_eq!(reg.contract_name(a), Some(&"Token".to_string()));
    assert_eq!(reg.contract_name(Address { high: 1, middle: 2, low: 4 }), None);
}

#[test]
fn validate_rejects_empty_trace() {
    assert_eq!(debugger(empty_arena()).validate(), Err(DebugError::EmptyArena));
    assert_eq!(debugger(one_step_arena()).validate(), Ok(()));
}

#[test]
fn tui_refuses_empty_trace() {
    let mut d = debugger(empty_arena());
    let mut nav = QuitNavigator { runs: 0 };
    let r = d.try_run_tui(&mut nav);
    assert_eq!(r, Err(DebugError::EmptyArena));
    assert_eq!(nav.runs, 0);
    assert_eq!(exit_code(&r), 1);
}

#[test]
fn tui_runs_on_non_empty_trace() {
    let mut d = debugger(one_step_arena());
    let mut nav = QuitNavigator { runs: 0 };
    let r = d.try_run_tui(&mut nav);
    assert_eq!(r, Ok(ExitReason::CharExit));
    assert_eq!(nav.runs, 1);
    assert_eq!(exit_code(&r), 0);
}

#[test]
fn dump_refuses_empty_trace() {
    let mut d = debugger(empty_arena());
    let mut ex = FailingExporter { calls: 0 };
    assert_eq!(d.dump_to_file("out.json", &mut ex), Err(DebugError::EmptyArena));
    assert_eq!(ex.calls, 0);
}

#[test]
fn dump_passes_exporter_failure_on() {
    let mut d = debugger(one_step_arena());
    let mut ex = FailingExporter { calls: 0 };
    assert_eq!(
        d.dump_to_file("out.json", &mut ex),
        Err(DebugError::Frontend("cannot write out.json".to_string()))
    );
    assert_eq!(ex.calls, 1);
}

#[test]
fn new_builds_offset_indexes() {
    let sources = vec![ContractSource {
        name: "C".to_string(),
        creation_code: Some(vec![0x60, 0x01, 0x00]),
        deployed_code: None,
    }];
    let d = Debugger::new(one_step_arena(), ContractRegistry::new(), sources, Breakpoints::new());
    assert_eq!(d.context.pc_ic_maps.len(), 1);
    let ix = offsets_for(&d.context.pc_ic_maps, &"C".to_string(), true).unwrap();
    assert_eq!(ix.instruction_index(2), Ok(1));
    assert_eq!(d.context.contracts_sources.len(), 1);
}

#[test]
fn step_offsets_follow_frame_kind_and_identity() {
    let known = Address { high: 0, middle: 0, low: 0xc };
    let unknown = Address { high: 0, middle: 0, low: 0xd };
    let arena = TraceArena {
        frames: vec![
            Frame { address: known, is_create: true, parent: None },
            Frame { address: known, is_create: false, parent: Some(0) },
            Frame { address: unknown, is_create: false, parent: Some(0) },
        ],
        steps: vec![
            Step { frame: 0, pc: 0, op: 0x60 },
            Step { frame: 1, pc: 0, op: 0x00 },
            Step { frame: 2, pc: 0, op: 0x00 },
            Step { frame: 9, pc: 0, op: 0x00 },
        ],
    };
    let mut registry = ContractRegistry::new();
    registry.insert(known, "C".to_string());
    let sources = vec![ContractSource {
        name: "C".to_string(),
        creation_code: Some(vec![0x60, 0x01, 0x00]),
        deployed_code: Some(vec![0x00, 0x00]),
    }];
    let d = Debugger::new(arena, registry, sources, Breakpoints::new());
    let creation = d.context.step_offsets(0).unwrap();
    assert_eq!(creation.raw_offset(1), Ok(2));
    let deployed = d.context.step_offsets(1).unwrap();
    assert_eq!(deployed.raw_offset(1), Ok(1));
    assert!(d.context.step_offsets(2).is_none());
    assert!(d.context.step_offsets(3).is_none());
}
