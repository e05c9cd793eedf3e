//! Breakpoints and their resolution against the trace.

use vstd::prelude::*;

use crate::arena::{Address, TraceArena};

verus! {

/// A location to halt at: the instruction at raw offset `pc` of the contract
/// at `address`, named by an operator-chosen marker character.
#[derive(Debug, Clone, Copy, PartialEq, Eq, Structural)]
pub struct Breakpoint {
    pub marker: char,
    pub address: Address,
    pub pc: usize,
}

/// The address of the contract that executes step `i`, if its frame is known.
pub open spec fn step_address(arena: &TraceArena, i: int) -> Option<Address> {
    let f = arena.frame_of(i);
    if 0 <= f < arena.frames@.len() {
        Some(arena.frames@[f].address)
    } else {
        None
    }
}

/// Step `i` is at the location of breakpoint `b`.
pub open spec fn step_matches(arena: &TraceArena, i: int, b: Breakpoint) -> bool {
    &&& 0 <= i < arena.len()
    &&& step_address(arena, i) == Some(b.address)
    &&& arena.steps@[i].pc == b.pc
}

/// Step `i` is at the location of some breakpoint of `bps`.
pub open spec fn step_hits(arena: &TraceArena, bps: Seq<Breakpoint>, i: int) -> bool {
    exists|k: int| 0 <= k < bps.len() && #[trigger] step_matches(arena, i, bps[k])
}

/// `r` is where running from `at` to the next breakpoint stops, and `hit`
/// whether it stopped at one: the first later step at a breakpoint, else the
/// last step without a hit.
pub open spec fn next_breakpoint(
    arena: &TraceArena,
    bps: Seq<Breakpoint>,
    at: int,
    r: int,
    hit: bool,
) -> bool {
    if hit {
        &&& at < r < arena.len()
        &&& step_hits(arena, bps, r)
        &&& forall|k: int| at < k < r ==> !#[trigger] step_hits(arena, bps, k)
    } else {
        &&& r == arena.len() - 1
        &&& forall|k: int| at < k < arena.len() ==> !#[trigger] step_hits(arena, bps, k)
    }
}

fn matches_at(arena: &TraceArena, i: usize, b: &Breakpoint) -> (r: bool)
    requires
        i < arena.len(),
    ensures
        r == step_matches(arena, i as int, *b),
{
    let f = arena.steps[i].frame;
    if f < arena.frames.len() {
        arena.frames[f].address == b.address && arena.steps[i].pc == b.pc
    } else {
        false
    }
}

impl Breakpoint {
    /// All steps of the trace at this breakpoint's location, in execution order.
    pub fn resolve(&self, arena: &TraceArena) -> (r: Vec<usize>)
        ensures
            forall|k: int| 0 <= k < r@.len() ==> step_matches(arena, #[trigger] r@[k] as int, *self),
            forall|k: int, m: int| 0 <= k < m < r@.len() ==> r@[k] < r@[m],
            forall|i: int| step_matches(arena, i, *self) ==> r@.contains(i as usize),
    {
        let mut r: Vec<usize> = Vec::new();
        let n = arena.steps.len();
        let mut i: usize = 0;
        while i < n
            invariant
                n == arena.len(),
                i <= n,
                forall|k: int| 0 <= k < r@.len() ==> step_matches(arena, #[trigger] r@[k] as int, *self),
                forall|k: int| 0 <= k < r@.len() ==> #[trigger] r@[k] < i,
                forall|k: int, m: int| 0 <= k < m < r@.len() ==> r@[k] < r@[m],
                forall|j: int| 0 <= j < i && step_matches(arena, j, *self) ==> r@.contains(j as usize),
            decreases n - i,
        {
            if matches_at(arena, i, self) {
                let ghost before = r@;
                r.push(i);
                assert forall|j: int| 0 <= j < i + 1 && step_matches(arena, j, *self) implies r@.contains(j as usize) by {
                    if j < i {
                        let k = choose|k: int| 0 <= k < before.len() && before[k] == j as usize;
                        assert(r@[k] == j as usize);
                    } else {
                        assert(r@[r@.len() - 1] == j as usize);
                    }
                }
            }
            i += 1;
        }
        r
    }
}

/// The breakpoints of a session, at most one per marker.
pub struct Breakpoints {
    entries: Vec<Breakpoint>,
}

impl View for Breakpoints {
    type V = Seq<Breakpoint>;

    closed spec fn view(&self) -> Seq<Breakpoint> {
        self.entries@
    }
}

/// No two breakpoints share a marker.
pub open spec fn markers_unique(bps: Seq<Breakpoint>) -> bool {
    forall|k: int, m: int| 0 <= k < m < bps.len() ==> bps[k].marker != bps[m].marker
}

impl Breakpoints {
    /// An empty set.
    pub fn new() -> (r: Breakpoints)
        ensures
            r@.len() == 0,
    {
        Breakpoints { entries: Vec::new() }
    }

    /// The number of breakpoints.
    pub fn len(&self) -> (r: usize)
        ensures
            r == self@.len(),
    {
        self.entries.len()
    }

    /// Sets the breakpoint of `marker` to the given location, replacing the
    /// marker's earlier one.
    pub fn insert(&mut self, marker: char, address: Address, pc: usize)
        requires
            markers_unique(old(self)@),
        ensures
            markers_unique(final(self)@),
            final(self)@.contains(Breakpoint { marker, address, pc }),
            forall|b: Breakpoint|
                b.marker != marker ==> (final(self)@.contains(b) <==> old(self)@.contains(b)),
    {
        let ghost pre = self@;
        let b = Breakpoint { marker, address, pc };
        let n = self.entries.len();
        let mut i: usize = 0;
        while i < n && self.entries[i].marker != marker
            invariant
                n == pre.len(),
                i <= n,
                pre == self.entries@,
                forall|k: int| 0 <= k < i ==> (#[trigger] pre[k]).marker != marker,
            decreases n - i,
        {
            i += 1;
        }
        if i < n {
            self.entries.set(i, b);
        } else {
            self.entries.push(b);
        }
        proof {
            let post = self.entries@;
            assert(post[i as int] == b);
            assert(forall|k: int| 0 <= k < post.len() && k != i ==> post[k] == pre[k]);
            assert(forall|k: int| 0 <= k < post.len() ==> #[trigger] post[k].marker == if k == i {
                marker
            } else {
                pre[k].marker
            });
            assert forall|k: int, m: int| 0 <= k < m < post.len() implies post[k].marker
                != post[m].marker by {
                if m != i && k != i {
                    assert(pre[k].marker != pre[m].marker);
                }
            }
            assert forall|c: Breakpoint| c.marker != marker implies (post.contains(c)
                <==> pre.contains(c)) by {
                if pre.contains(c) {
                    let k = choose|k: int| 0 <= k < pre.len() && pre[k] == c;
                    assert(post[k] == c);
                }
                if post.contains(c) {
                    let k = choose|k: int| 0 <= k < post.len() && post[k] == c;
                    assert(k != i);
                    assert(pre[k] == c);
                }
            }
            assert(post.contains(b));
        }
    }

    /// The breakpoint of `marker`, if one is set.
    pub fn get(&self, marker: char) -> (r: Option<Breakpoint>)
        ensures
            match r {
                Some(b) => b.marker == marker && self@.contains(b),
                None => forall|k: int| 0 <= k < self@.len() ==> (#[trigger] self@[k]).marker != marker,
            },
    {
        let mut i: usize = 0;
        while i < self.entries.len()
            invariant
                i <= self@.len(),
                self@ == self.entries@,
                forall|k: int| 0 <= k < i ==> (#[trigger] self@[k]).marker != marker,
            decreases self@.len() - i,
        {
            if self.entries[i].marker == marker {
                assert(self@[i as int] == self.entries@[i as int]);
                return Some(self.entries[i]);
            }
            i += 1;
        }
        None
    }

    fn hits_at(&self, arena: &TraceArena, i: usize) -> (r: bool)
        requires
            i < arena.len(),
        ensures
            r == step_hits(arena, self@, i as int),
    {
        let mut k: usize = 0;
        while k < self.entries.len()
            invariant
                i < arena.len(),
                k <= self@.len(),
                self@ == self.entries@,
                forall|m: int| 0 <= m < k ==> !#[trigger] step_matches(arena, i as int, self@[m]),
            decreases self@.len() - k,
        {
            if matches_at(arena, i, &self.entries[k]) {
                assert(step_matches(arena, i as int, self@[k as int]));
                return true;
            }
            k += 1;
        }
        false
    }

    /// Runs forward from step `at` to the first later step at a breakpoint.
    /// Returns that step and `true`, or the last step and `false` when no
    /// later step is at a breakpoint.
    pub fn run_to_next_breakpoint(&self, arena: &TraceArena, at: usize) -> (r: (usize, bool))
        requires
            at < arena.len(),
        ensures
            next_breakpoint(arena, self@, at as int, r.0 as int, r.1),
    {
        let n = arena.steps.len();
        let mut i: usize = at + 1;
        while i < n
            invariant
                n == arena.len(),
                at < i <= n,
                forall|k: int| at < k < i ==> !#[trigger] step_hits(arena, self@, k),
            decreases n - i,
        {
            if self.hits_at(arena, i) {
                return (i, true);
            }
            i += 1;
        }
        (n - 1, false)
    }
}

/// Where running to the next breakpoint stops is determined by the trace, the
/// breakpoints and the starting step alone.
pub proof fn lemma_next_breakpoint_unique(
    arena: &TraceArena,
    bps: Seq<Breakpoint>,
    at: int,
    r1: int,
    hit1: bool,
    r2: int,
    hit2: bool,
)
    requires
        next_breakpoint(arena, bps, at, r1, hit1),
        next_breakpoint(arena, bps, at, r2, hit2),
    ensures
        r1 == r2,
        hit1 == hit2,
{
    if hit1 && hit2 {
        if r1 < r2 {
            assert(!step_hits(arena, bps, r1));
        } else if r2 < r1 {
            assert(!step_hits(arena, bps, r2));
        }
    } else if hit1 {
        assert(!step_hits(arena, bps, r1));
    } else if hit2 {
        assert(!step_hits(arena, bps, r2));
    }
}

} // verus!
