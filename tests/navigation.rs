use foundry_debugger::{
    Address, Breakpoint, Breakpoints, Frame, Step, TraceArena,
};

fn addr(low: u64) -> Address {
    Address { high: 0, middle: 0, low }
}

fn step(frame: usize, pc: usize) -> Step {
    Step { frame, pc, op: 0x01 }
}

/// Outer frame A with three steps; its second step calls frame B with two.
fn two_frame_arena() -> TraceArena {
    TraceArena {
        frames: vec![
            Frame { address: addr(0xa), is_create: false, parent: None },
            Frame { address: addr(0xb), is_create: false, parent: Some(0) },
        ],
        steps: vec![step(0, 0), step(0, 1), step(1, 0), step(1, 1), step(0, 2)],
    }
}

#[test]
fn two_frames_step_into_and_out() {
    let arena = two_frame_arena();
    let at = arena.step_forward(1);
    assert_eq!(at, 2);
    assert_eq!(arena.current(at).frame, 1);
    let at = arena.step_into_call(at);
    assert_eq!(at, 2);
    assert_eq!(arena.step_out_of_call(3), 4);
    assert_eq!(arena.current(4).frame, 0);
    assert_eq!(arena.current(4).pc, 2);
}

#[test]
fn step_into_call_from_call_site() {
    let arena = two_frame_arena();
    assert_eq!(arena.step_into_call(1), 2);
    assert_eq!(arena.step_into_call(0), 0);
    assert_eq!(arena.step_out_of_call(2), 4);
}

#[test]
fn step_out_of_root_frame_stays() {
    let arena = two_frame_arena();
    assert_eq!(arena.step_out_of_call(0), 0);
    assert_eq!(arena.step_out_of_call(4), 4);
}

#[test]
fn step_out_when_parent_never_resumes() {
    let arena = TraceArena {
        frames: vec![
            Frame { address: addr(1), is_create: false, parent: None },
            Frame { address: addr(2), is_create: true, parent: Some(0) },
        ],
        steps: vec![step(0, 0), step(1, 0), step(1, 1)],
    };
    assert_eq!(arena.step_out_of_call(1), 1);
}

#[test]
fn stepping_clamps_at_both_ends() {
    let arena = two_frame_arena();
    let mut at = 4;
    for _ in 0..3 {
        at = arena.step_forward(at);
        assert_eq!(at, 4);
    }
    let mut at = 0;
    for _ in 0..3 {
        at = arena.step_backward(at);
        assert_eq!(at, 0);
    }
    assert_eq!(arena.step_backward(3), 2);
}

#[test]
fn empty_arena_is_empty() {
    let arena = TraceArena { frames: vec![], steps: vec![] };
    assert!(arena.is_empty());
    assert_eq!(arena.step_count(), 0);
    assert!(!two_frame_arena().is_empty());
}

#[test]
fn run_to_breakpoint_in_child_frame() {
    let arena = two_frame_arena();
    let mut bps = Breakpoints::new();
    bps.insert('a', addr(0xb), 1);
    assert_eq!(bps.run_to_next_breakpoint(&arena, 0), (3, true));
    assert_eq!(bps.run_to_next_breakpoint(&arena, 0), (3, true));
    assert_eq!(bps.run_to_next_breakpoint(&arena, 3), (4, false));
}

#[test]
fn run_to_breakpoint_picks_first_in_arena_order() {
    let arena = two_frame_arena();
    let mut bps = Breakpoints::new();
    bps.insert('x', addr(0xa), 2);
    bps.insert('y', addr(0xb), 0);
    assert_eq!(bps.run_to_next_breakpoint(&arena, 0), (2, true));
    assert_eq!(bps.run_to_next_breakpoint(&arena, 2), (4, true));
}

#[test]
fn run_without_breakpoints_parks_on_last_step() {
    let arena = two_frame_arena();
    let bps = Breakpoints::new();
    assert_eq!(bps.run_to_next_breakpoint(&arena, 1), (4, false));
}

#[test]
fn breakpoint_resolves_to_all_matching_steps() {
    let arena = TraceArena {
        frames: vec![
            Frame { address: addr(7), is_create: false, parent: None },
            Frame { address: addr(7), is_create: false, parent: Some(0) },
        ],
        steps: vec![step(0, 5), step(1, 5), step(1, 6), step(0, 5)],
    };
    let b = Breakpoint { marker: 'q', address: addr(7), pc: 5 };
    assert_eq!(b.resolve(&arena), vec![0, 1, 3]);
    let none = Breakpoint { marker: 'r', address: addr(8), pc: 5 };
    assert_eq!(none.resolve(&arena), Vec::<usize>::new());
}

#[test]
fn breakpoint_insert_replaces_marker() {
    let mut bps = Breakpoints::new();
    bps.insert('a', addr(1), 10);
    bps.insert('b', addr(2), 20);
    bps.insert('a', addr(3), 30);
    assert_eq!(bps.len(), 2);
    assert_eq!(bps.get('a'), Some(Breakpoint { marker: 'a', address: addr(3), pc: 30 }));
    assert_eq!(bps.get('b'), Some(Breakpoint { marker: 'b', address: addr(2), pc: 20 }));
    assert_eq!(bps.get('c'), None);
}
