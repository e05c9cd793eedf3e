//! The recorded trace: frames, steps in execution order, and navigation over them.

use vstd::prelude::*;

verus! {

/// A 160-bit account address, as three big-endian words.
#[derive(Debug, Clone, Copy, PartialEq, Eq, Structural)]
pub struct Address {
    pub high: u32,
    pub middle: u64,
    pub low: u64,
}

/// One call context of the trace.
pub struct Frame {
    /// The address of the contract that executes in this frame.
    pub address: Address,
    /// Whether this frame creates a contract (runs creation bytecode).
    pub is_create: bool,
    /// The index of the frame that invoked this one; `None` for a root frame.
    pub parent: Option<usize>,
}

/// One recorded machine instruction.
pub struct Step {
    /// The index of the frame this step belongs to.
    pub frame: usize,
    /// The program counter: the raw offset of the instruction in its bytecode.
    pub pc: usize,
    /// The opcode executed.
    pub op: u8,
}

/// All frames of one session and all their steps, in execution order: the
/// steps of a child frame stand between the step of its parent that invoked
/// it and the parent's next step.
pub struct TraceArena {
    pub frames: Vec<Frame>,
    pub steps: Vec<Step>,
}

impl TraceArena {
    pub open spec fn len(&self) -> int {
        self.steps@.len() as int
    }

    /// The frame of step `i`.
    pub open spec fn frame_of(&self, i: int) -> int {
        self.steps@[i].frame as int
    }

    /// The frame that invoked frame `f`, if `f` is a known frame with a parent.
    pub open spec fn parent_of(&self, f: int) -> Option<usize> {
        if 0 <= f < self.frames@.len() {
            self.frames@[f].parent
        } else {
            None
        }
    }

    /// Every step names a frame of the arena; a parent frame comes before its
    /// children; once a frame resumes after a step of one of its children,
    /// that child runs no more.
    pub open spec fn wf(&self) -> bool {
        &&& forall|i: int| 0 <= i < self.len() ==> #[trigger] self.frame_of(i) < self.frames@.len()
        &&& forall|f: int|
            0 <= f < self.frames@.len() ==> match #[trigger] self.frames@[f].parent {
                Some(p) => p < f,
                None => true,
            }
        &&& forall|a: int, b: int, c: int|
            0 <= a < b < c < self.len() && #[trigger] self.parent_of(self.frame_of(a)) == Some(
                #[trigger] self.frame_of(b) as usize,
            ) ==> #[trigger] self.frame_of(c) != self.frame_of(a)
    }

    /// Step `i` invokes a child frame: the next step belongs to a frame whose
    /// parent is the frame of step `i`.
    pub open spec fn invokes_child(&self, i: int) -> bool {
        i + 1 < self.len() && self.parent_of(self.frame_of(i + 1)) == Some(
            self.frame_of(i) as usize,
        )
    }

    /// Step `j` is the first step of frame `f`.
    pub open spec fn first_step_of(&self, f: int, j: int) -> bool {
        &&& 0 <= j < self.len()
        &&& self.frame_of(j) == f
        &&& forall|k: int| 0 <= k < j ==> self.frame_of(k) != f
    }

    /// Step `j` is the first step after step `i` that belongs to frame `f`.
    pub open spec fn next_in_frame(&self, i: int, f: int, j: int) -> bool {
        &&& i < j < self.len()
        &&& self.frame_of(j) == f
        &&& forall|k: int| i < k < j ==> self.frame_of(k) != f
    }

    /// No step after step `i` belongs to frame `f`.
    pub open spec fn frame_done(&self, i: int, f: int) -> bool {
        forall|k: int| i < k < self.len() ==> self.frame_of(k) != f
    }

    /// The position one step later in execution order, clamped at the last step.
    pub open spec fn forward(&self, at: int) -> int {
        if at + 1 < self.len() {
            at + 1
        } else {
            at
        }
    }

    /// The position one step earlier in execution order, clamped at the first step.
    pub open spec fn backward(&self, at: int) -> int {
        if at > 0 {
            at - 1
        } else {
            at
        }
    }

    /// The position that stepping into a call from `at` reaches.
    pub open spec fn into_call(&self, at: int) -> int {
        if self.invokes_child(at) {
            at + 1
        } else {
            at
        }
    }

    /// `r` is the position that stepping out of the current frame from `at`
    /// reaches: the parent's next step, or `at` itself for a root frame or a
    /// parent that runs no more.
    pub open spec fn out_of_call(&self, at: int, r: int) -> bool {
        match self.parent_of(self.frame_of(at)) {
            None => r == at,
            Some(p) => if self.frame_done(at, p as int) {
                r == at
            } else {
                self.next_in_frame(at, p as int, r)
            },
        }
    }

    /// The number of recorded steps.
    pub fn step_count(&self) -> (r: usize)
        ensures
            r == self.len(),
    {
        self.steps.len()
    }

    /// Whether the trace holds no step.
    pub fn is_empty(&self) -> (r: bool)
        ensures
            r == (self.len() == 0),
    {
        self.steps.len() == 0
    }

    /// The step at position `at`.
    pub fn current(&self, at: usize) -> (r: &Step)
        requires
            at < self.len(),
        ensures
            *r == self.steps@[at as int],
    {
        &self.steps[at]
    }

    /// Moves one step forward in execution order; stays at the last step.
    pub fn step_forward(&self, at: usize) -> (r: usize)
        requires
            at < self.len(),
        ensures
            r == self.forward(at as int),
    {
        let n = self.steps.len();
        if at + 1 < n {
            at + 1
        } else {
            at
        }
    }

    /// Moves one step backward in execution order; stays at the first step.
    pub fn step_backward(&self, at: usize) -> (r: usize)
        ensures
            r == self.backward(at as int),
    {
        if at > 0 {
            at - 1
        } else {
            at
        }
    }

    fn parent(&self, f: usize) -> (r: Option<usize>)
        ensures
            r == self.parent_of(f as int),
    {
        if f < self.frames.len() {
            self.frames[f].parent
        } else {
            None
        }
    }

    /// Moves to the first step of the child frame that the current step
    /// invokes; stays where it is when the step invokes none.
    pub fn step_into_call(&self, at: usize) -> (r: usize)
        requires
            at < self.len(),
        ensures
            r == self.into_call(at as int),
    {
        let n = self.steps.len();
        if at + 1 < n && self.parent(self.steps[at + 1].frame) == Some(
            self.steps[at].frame,
        ) {
            at + 1
        } else {
            at
        }
    }

    /// Moves to the step that follows the return of the current frame, in its
    /// parent; stays where it is in a root frame.
    pub fn step_out_of_call(&self, at: usize) -> (r: usize)
        requires
            at < self.len(),
        ensures
            r < self.len(),
            self.out_of_call(at as int, r as int),
    {
        let n = self.steps.len();
        match self.parent(self.steps[at].frame) {
            None => at,
            Some(p) => {
                let mut j: usize = at + 1;
                while j < self.steps.len()
                    invariant
                        at < j <= self.len(),
                        self.parent_of(self.frame_of(at as int)) == Some(p),
                        forall|k: int| at < k < j ==> self.frame_of(k) != p,
                    decreases self.len() - j,
                {
                    if self.steps[j].frame == p {
                        assert(self.frame_of(j as int) == p);
                        return j;
                    }
                    j += 1;
                }
                at
            },
        }
    }
}

/// The position after stepping forward `n` times from `at`.
pub open spec fn forward_times(arena: &TraceArena, at: int, n: nat) -> int
    decreases n,
{
    if n == 0 {
        at
    } else {
        arena.forward(forward_times(arena, at, (n - 1) as nat))
    }
}

/// The position after stepping backward `n` times from `at`.
pub open spec fn backward_times(arena: &TraceArena, at: int, n: nat) -> int
    decreases n,
{
    if n == 0 {
        at
    } else {
        arena.backward(backward_times(arena, at, (n - 1) as nat))
    }
}

/// Stepping forward from the last step, or backward from the first, leaves
/// the position unchanged, however often it is repeated.
pub proof fn lemma_stepping_clamps(arena: &TraceArena, n: nat)
    requires
        arena.len() > 0,
    ensures
        forward_times(arena, arena.len() - 1, n) == arena.len() - 1,
        backward_times(arena, 0, n) == 0,
    decreases n,
{
    if n > 0 {
        lemma_stepping_clamps(arena, (n - 1) as nat);
    }
}

/// In a well-formed trace, stepping into the call that step `i` makes lands
/// on the first step of the invoked frame, and stepping out of that frame
/// from any of its later steps lands on the parent's first step after the
/// call site, or stays put where the parent runs no more.
pub proof fn lemma_call_nesting(arena: &TraceArena, i: int, k: int)
    requires
        arena.wf(),
        0 <= i,
        arena.invokes_child(i),
        i < k < arena.len(),
        arena.frame_of(k) == arena.frame_of(i + 1),
    ensures
        arena.first_step_of(arena.frame_of(i + 1), arena.into_call(i)),
        forall|r: int|
            arena.out_of_call(k, r) <==> (if arena.frame_done(i, arena.frame_of(i)) {
                r == k
            } else {
                arena.next_in_frame(i, arena.frame_of(i), r)
            }),
{
    let c = arena.frame_of(i + 1);
    let p = arena.frame_of(i);
    assert(arena.frame_of(i) < arena.frames@.len());
    assert(arena.frame_of(i + 1) < arena.frames@.len());
    assert(c != p) by {
        let f = arena.frames@[c].parent;
        assert(f == Some(p as usize));
    }
    assert forall|m: int| 0 <= m < i + 1 implies arena.frame_of(m) != c by {
        if m < i && arena.frame_of(m) == c {
            assert(arena.parent_of(arena.frame_of(m)) == Some(arena.frame_of(i) as usize));
            assert(arena.frame_of(i + 1) != arena.frame_of(m));
        }
    }
    // The parent does not run between the call and step k.
    assert forall|m: int| i < m <= k implies arena.frame_of(m) != p by {
        if m < k && arena.frame_of(m) == p && m > i + 1 {
            assert(arena.parent_of(arena.frame_of(i + 1)) == Some(arena.frame_of(m) as usize));
            assert(arena.frame_of(k) != arena.frame_of(i + 1));
        }
    }
    assert(arena.parent_of(arena.frame_of(k)) == Some(p as usize));
    assert(arena.frame_done(i, p) <==> arena.frame_done(k, p));
    assert forall|r: int| arena.next_in_frame(k, p, r) <==> arena.next_in_frame(i, p, r) by {
        if arena.next_in_frame(i, p, r) {
            assert(r > k);
        }
    }
}

} // verus!
