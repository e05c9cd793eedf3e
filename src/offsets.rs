//! Correlation between raw bytecode offsets and sequential instruction indices.

use vstd::prelude::*;

use crate::error::DebugError;

verus! {

/// Number of immediate bytes that follow opcode `op` under the latest
/// instruction-set semantics.
pub open spec fn immediate_len(op: u8) -> nat {
    if 0x60 <= op && op <= 0x7f {
        (op - 0x5f) as nat
    } else if 0xe6 <= op && op <= 0xe8 {
        1
    } else {
        0
    }
}

/// Relies on revm's opcode table (`OpCode::new_or_unknown`, `OpCode::info`,
/// `OpCodeInfo::immediate_size`): PUSH1..PUSH32 carry 1..32 immediate bytes,
/// DUPN, SWAPN and EXCHANGE carry one, and every other byte, known or not, none.
#[verifier::external_body]
fn opcode_immediate_size(op: u8) -> (r: u8)
    ensures
        r as nat == immediate_len(op),
{
    revm::bytecode::OpCode::new_or_unknown(op).info().immediate_size()
}

/// The instruction starts of `code` at or after raw offset `pc`, when decoding
/// with `table`, which gives the number of immediate bytes of each opcode.
pub open spec fn starts_from(code: Seq<u8>, table: Seq<u8>, pc: int) -> Seq<int>
    decreases (if pc <= code.len() { code.len() - pc } else { 0 }),
{
    if pc < 0 || pc >= code.len() {
        seq![]
    } else {
        let next: int = pc + 1 + width_of(table, code[pc]);
        seq![pc] + starts_from(code, table, next)
    }
}

/// The immediate size that `table` gives opcode `op`.
pub open spec fn width_of(table: Seq<u8>, op: u8) -> nat {
    if (op as int) < table.len() {
        table[op as int] as nat
    } else {
        0
    }
}

/// The raw offsets of all instruction starts of `code`, in order: the
/// instruction with index `i` starts at `decode(code, table)[i]`.
pub open spec fn decode(code: Seq<u8>, table: Seq<u8>) -> Seq<int> {
    starts_from(code, table, 0)
}

/// The decoding table of the latest instruction-set semantics.
pub open spec fn latest_table() -> Seq<u8> {
    Seq::new(256, |op: int| immediate_len(op as u8) as u8)
}

/// A decoding table holds one immediate size per opcode byte.
pub open spec fn table_ok(table: Seq<u8>) -> bool {
    table.len() == 256
}

/// The offsets of `v` as mathematical integers.
pub open spec fn as_ints(v: Seq<usize>) -> Seq<int> {
    v.map_values(|x: usize| x as int)
}

/// Instruction starts lie inside the bytecode and strictly increase.
proof fn lemma_starts_from_shape(code: Seq<u8>, table: Seq<u8>, pc: int)
    requires
        table_ok(table),
        pc >= 0,
    ensures
        forall|i: int|
            0 <= i < starts_from(code, table, pc).len() ==> pc <= #[trigger] starts_from(
                code,
                table,
                pc,
            )[i] < code.len(),
        forall|i: int, j: int|
            0 <= i < j < starts_from(code, table, pc).len() ==> starts_from(code, table, pc)[i]
                < starts_from(code, table, pc)[j],
    decreases (if pc <= code.len() { code.len() - pc } else { 0 }),
{
    if pc < code.len() {
        let next = pc + 1 + width_of(table, code[pc]);
        lemma_starts_from_shape(code, table, next);
        let s = starts_from(code, table, pc);
        let t = starts_from(code, table, next);
        assert(s =~= seq![pc] + t);
        assert forall|i: int, j: int| 0 <= i < j < s.len() implies s[i] < s[j] by {
            if i > 0 {
                assert(s[i] == t[i - 1]);
            }
            assert(s[j] == t[j - 1]);
        }
        assert forall|i: int| 0 <= i < s.len() implies pc <= #[trigger] s[i] < code.len() by {
            if i > 0 {
                assert(s[i] == t[i - 1]);
            }
        }
    }
}

/// Decoding gives every instruction start exactly one index, and every index
/// one instruction start inside the bytecode: offsets and indices determine
/// each other.
pub proof fn lemma_decode_bijective(code: Seq<u8>, table: Seq<u8>, i: int, j: int)
    requires
        table_ok(table),
        0 <= i < decode(code, table).len(),
        0 <= j < decode(code, table).len(),
    ensures
        decode(code, table)[i] == decode(code, table)[j] <==> i == j,
        0 <= decode(code, table)[i] < code.len(),
{
    lemma_starts_from_shape(code, table, 0);
    let s = decode(code, table);
    assert(0 <= s[i] < code.len());
    if i < j {
        assert(s[i] < s[j]);
    } else if j < i {
        assert(s[j] < s[i]);
    }
}

/// The decoding table of the latest instruction-set semantics: entry `op` is
/// the number of immediate bytes that follow opcode `op`.
pub fn build_decode_table() -> (r: Vec<u8>)
    ensures
        table_ok(r@),
        forall|op: u8| r@[op as int] as nat == #[trigger] immediate_len(op),
{
    let mut r: Vec<u8> = Vec::new();
    let mut op: usize = 0;
    while op < 256
        invariant
            op <= 256,
            r@.len() == op,
            forall|k: u8| (k as int) < op ==> r@[k as int] as nat == #[trigger] immediate_len(k),
        decreases 256 - op,
    {
        r.push(opcode_immediate_size(op as u8));
        op += 1;
    }
    r
}

/// A bidirectional mapping between raw offsets of instruction starts and
/// instruction indices, for one bytecode.
pub struct OffsetIndex {
    starts: Vec<usize>,
}

impl View for OffsetIndex {
    type V = Seq<int>;

    closed spec fn view(&self) -> Seq<int> {
        as_ints(self.starts@)
    }
}

impl OffsetIndex {
    /// Decodes `code` with the decoding table `table`.
    pub fn with_table(code: &[u8], table: &[u8]) -> (r: OffsetIndex)
        requires
            table_ok(table@),
        ensures
            r@ == decode(code@, table@),
    {
        let mut starts: Vec<usize> = Vec::new();
        let mut pc: usize = 0;
        while pc < code.len()
            invariant
                table_ok(table@),
                pc <= code@.len(),
                as_ints(starts@) + starts_from(code@, table@, pc as int) == decode(code@, table@),
            decreases code@.len() - pc,
        {
            let ghost before = starts@;
            starts.push(pc);
            let step: usize = 1 + table[code[pc] as usize] as usize;
            let ghost next = pc + 1 + width_of(table@, code@[pc as int]);
            assert(starts_from(code@, table@, pc as int) =~= seq![pc as int] + starts_from(
                code@,
                table@,
                next,
            ));
            assert(as_ints(starts@) =~= as_ints(before) + seq![pc as int]);
            if step > code.len() - pc {
                assert(starts_from(code@, table@, next) =~= seq![]);
                assert(starts_from(code@, table@, code@.len() as int) =~= seq![]);
                pc = code.len();
            } else {
                pc = pc + step;
            }
            assert(as_ints(starts@) + starts_from(code@, table@, pc as int) =~= as_ints(before)
                + (seq![next - step] + starts_from(code@, table@, pc as int)));
        }
        assert(starts_from(code@, table@, pc as int) =~= seq![]);
        assert(as_ints(starts@) + seq![] =~= as_ints(starts@));
        OffsetIndex { starts }
    }

    /// Decodes `code` under the latest instruction-set semantics.
    pub fn new(code: &[u8]) -> (r: OffsetIndex)
        ensures
            r@ == decode(code@, latest_table()),
    {
        let table = build_decode_table();
        assert(table@ =~= latest_table()) by {
            assert forall|k: int| 0 <= k < 256 implies table@[k] == immediate_len(k as u8) as u8 by {
                assert(table@[(k as u8) as int] as nat == immediate_len(k as u8));
            }
        }
        OffsetIndex::with_table(code, table.as_slice())
    }

    /// The number of instructions.
    pub fn len(&self) -> (r: usize)
        ensures
            r == self@.len(),
    {
        self.starts.len()
    }

    /// The instruction index of the instruction that starts at raw offset `pc`.
    pub fn instruction_index(&self, pc: usize) -> (r: Result<usize, DebugError>)
        ensures
            match r {
                Ok(i) => i < self@.len() && self@[i as int] == pc,
                Err(e) => e == DebugError::NotInstructionStart && !self@.contains(pc as int),
            },
    {
        let mut i: usize = 0;
        while i < self.starts.len()
            invariant
                i <= self@.len(),
                self@.len() == self.starts@.len(),
                forall|k: int| 0 <= k < i ==> self@[k] != pc,
            decreases self.starts@.len() - i,
        {
            if self.starts[i] == pc {
                return Ok(i);
            }
            i += 1;
        }
        Err(DebugError::NotInstructionStart)
    }

    /// The raw offset at which the instruction with index `ic` starts.
    pub fn raw_offset(&self, ic: usize) -> (r: Result<usize, DebugError>)
        ensures
            match r {
                Ok(pc) => ic < self@.len() && pc as int == self@[ic as int],
                Err(e) => e == DebugError::InstructionOutOfRange && ic >= self@.len(),
            },
    {
        if ic < self.starts.len() {
            Ok(self.starts[ic])
        } else {
            Err(DebugError::InstructionOutOfRange)
        }
    }
}

} // verus!
