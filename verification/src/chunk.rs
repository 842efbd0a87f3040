//! Bytecode: the instruction set, and the chunk that holds a function's code.

use vstd::prelude::*;
use crate::value::Value;
use crate::value::ValueView;
use crate::value::views;

verus! {

/// The instructions of the machine. Each is one byte in the code, followed by
/// its operand bytes.
#[derive(Debug, Clone, Copy, PartialEq, Eq, Structural)]
pub enum OpCode {
    OpConstant,
    OpNil,
    OpTrue,
    OpFalse,
    OpPop,
    OpGetLocal,
    OpSetLocal,
    OpSetConstLocal,
    OpGetGlobal,
    OpDefineGlobal,
    OpSetGlobal,
    OpDefineConstGlobal,
    OpEqual,
    OpGreater,
    OpLess,
    OpAdd,
    OpSubtract,
    OpMultiply,
    OpDivide,
    OpExponent,
    OpModulus,
    OpNot,
    OpNegate,
    OpPrint,
    OpJump,
    OpJumpIfFalse,
    OpLoop,
    OpCall,
    OpReturn,
}

impl OpCode {
    /// The byte that stands for an instruction in the code.
    pub open spec fn spec_byte(self) -> u8 {
        match self {
            OpCode::OpConstant => 0,
            OpCode::OpNil => 1,
            OpCode::OpTrue => 2,
            OpCode::OpFalse => 3,
            OpCode::OpPop => 4,
            OpCode::OpGetLocal => 5,
            OpCode::OpSetLocal => 6,
            OpCode::OpSetConstLocal => 7,
            OpCode::OpGetGlobal => 8,
            OpCode::OpDefineGlobal => 9,
            OpCode::OpSetGlobal => 10,
            OpCode::OpDefineConstGlobal => 11,
            OpCode::OpEqual => 12,
            OpCode::OpGreater => 13,
            OpCode::OpLess => 14,
            OpCode::OpAdd => 15,
            OpCode::OpSubtract => 16,
            OpCode::OpMultiply => 17,
            OpCode::OpDivide => 18,
            OpCode::OpExponent => 19,
            OpCode::OpModulus => 20,
            OpCode::OpNot => 21,
            OpCode::OpNegate => 22,
            OpCode::OpPrint => 23,
            OpCode::OpJump => 24,
            OpCode::OpJumpIfFalse => 25,
            OpCode::OpLoop => 26,
            OpCode::OpCall => 27,
            OpCode::OpReturn => 28,
        }
    }

    /// The instruction that a byte stands for, if any.
    pub open spec fn spec_from_byte(byte: u8) -> Option<OpCode> {
        if byte == 0 {
            Some(OpCode::OpConstant)
        } else if byte == 1 {
            Some(OpCode::OpNil)
        } else if byte == 2 {
            Some(OpCode::OpTrue)
        } else if byte == 3 {
            Some(OpCode::OpFalse)
        } else if byte == 4 {
            Some(OpCode::OpPop)
        } else if byte == 5 {
            Some(OpCode::OpGetLocal)
        } else if byte == 6 {
            Some(OpCode::OpSetLocal)
        } else if byte == 7 {
            Some(OpCode::OpSetConstLocal)
        } else if byte == 8 {
            Some(OpCode::OpGetGlobal)
        } else if byte == 9 {
            Some(OpCode::OpDefineGlobal)
        } else if byte == 10 {
            Some(OpCode::OpSetGlobal)
        } else if byte == 11 {
            Some(OpCode::OpDefineConstGlobal)
        } else if byte == 12 {
            Some(OpCode::OpEqual)
        } else if byte == 13 {
            Some(OpCode::OpGreater)
        } else if byte == 14 {
            Some(OpCode::OpLess)
        } else if byte == 15 {
            Some(OpCode::OpAdd)
        } else if byte == 16 {
            Some(OpCode::OpSubtract)
        } else if byte == 17 {
            Some(OpCode::OpMultiply)
        } else if byte == 18 {
            Some(OpCode::OpDivide)
        } else if byte == 19 {
            Some(OpCode::OpExponent)
        } else if byte == 20 {
            Some(OpCode::OpModulus)
        } else if byte == 21 {
            Some(OpCode::OpNot)
        } else if byte == 22 {
            Some(OpCode::OpNegate)
        } else if byte == 23 {
            Some(OpCode::OpPrint)
        } else if byte == 24 {
            Some(OpCode::OpJump)
        } else if byte == 25 {
            Some(OpCode::OpJumpIfFalse)
        } else if byte == 26 {
            Some(OpCode::OpLoop)
        } else if byte == 27 {
            Some(OpCode::OpCall)
        } else if byte == 28 {
            Some(OpCode::OpReturn)
        } else {
            None
        }
    }

    /// How many operand bytes follow the instruction: two for a jump, one for
    /// an instruction that names a constant, a stack slot or an argument
    /// count, none otherwise.
    pub open spec fn operand_width(self) -> int {
        match self {
            OpCode::OpJump | OpCode::OpJumpIfFalse | OpCode::OpLoop => 2,
            OpCode::OpConstant
            | OpCode::OpGetLocal
            | OpCode::OpSetLocal
            | OpCode::OpSetConstLocal
            | OpCode::OpGetGlobal
            | OpCode::OpDefineGlobal
            | OpCode::OpSetGlobal
            | OpCode::OpDefineConstGlobal
            | OpCode::OpCall => 1,
            _ => 0,
        }
    }

    /// Whether the operand of the instruction is an index into the constants.
    pub open spec fn names_constant(self) -> bool {
        match self {
            OpCode::OpConstant
            | OpCode::OpGetGlobal
            | OpCode::OpDefineGlobal
            | OpCode::OpSetGlobal
            | OpCode::OpDefineConstGlobal => true,
            _ => false,
        }
    }

    /// The byte that stands for the instruction in the code.
    #[verifier::when_used_as_spec(spec_byte)]
    pub fn byte(self) -> (r: u8)
        ensures
            r == self.spec_byte(),
            r <= 28,
    {
        match self {
            OpCode::OpConstant => 0,
            OpCode::OpNil => 1,
            OpCode::OpTrue => 2,
            OpCode::OpFalse => 3,
            OpCode::OpPop => 4,
            OpCode::OpGetLocal => 5,
            OpCode::OpSetLocal => 6,
            OpCode::OpSetConstLocal => 7,
            OpCode::OpGetGlobal => 8,
            OpCode::OpDefineGlobal => 9,
            OpCode::OpSetGlobal => 10,
            OpCode::OpDefineConstGlobal => 11,
            OpCode::OpEqual => 12,
            OpCode::OpGreater => 13,
            OpCode::OpLess => 14,
            OpCode::OpAdd => 15,
            OpCode::OpSubtract => 16,
            OpCode::OpMultiply => 17,
            OpCode::OpDivide => 18,
            OpCode::OpExponent => 19,
            OpCode::OpModulus => 20,
            OpCode::OpNot => 21,
            OpCode::OpNegate => 22,
            OpCode::OpPrint => 23,
            OpCode::OpJump => 24,
            OpCode::OpJumpIfFalse => 25,
            OpCode::OpLoop => 26,
            OpCode::OpCall => 27,
            OpCode::OpReturn => 28,
        }
    }

    /// The instruction that a byte stands for; `None` for a byte that stands
    /// for none.
    #[verifier::when_used_as_spec(spec_from_byte)]
    pub fn from_byte(byte: u8) -> (r: Option<OpCode>)
        ensures
            r == OpCode::spec_from_byte(byte),
            r is Some <==> byte <= 28,
    {
        match byte {
            0 => Some(OpCode::OpConstant),
            1 => Some(OpCode::OpNil),
            2 => Some(OpCode::OpTrue),
            3 => Some(OpCode::OpFalse),
            4 => Some(OpCode::OpPop),
            5 => Some(OpCode::OpGetLocal),
            6 => Some(OpCode::OpSetLocal),
            7 => Some(OpCode::OpSetConstLocal),
            8 => Some(OpCode::OpGetGlobal),
            9 => Some(OpCode::OpDefineGlobal),
            10 => Some(OpCode::OpSetGlobal),
            11 => Some(OpCode::OpDefineConstGlobal),
            12 => Some(OpCode::OpEqual),
            13 => Some(OpCode::OpGreater),
            14 => Some(OpCode::OpLess),
            15 => Some(OpCode::OpAdd),
            16 => Some(OpCode::OpSubtract),
            17 => Some(OpCode::OpMultiply),
            18 => Some(OpCode::OpDivide),
            19 => Some(OpCode::OpExponent),
            20 => Some(OpCode::OpModulus),
            21 => Some(OpCode::OpNot),
            22 => Some(OpCode::OpNegate),
            23 => Some(OpCode::OpPrint),
            24 => Some(OpCode::OpJump),
            25 => Some(OpCode::OpJumpIfFalse),
            26 => Some(OpCode::OpLoop),
            27 => Some(OpCode::OpCall),
            28 => Some(OpCode::OpReturn),
            _ => None,
        }
    }

    /// How many operand bytes follow the instruction.
    pub fn operands(self) -> (width: usize)
        ensures
            width == self.operand_width(),
    {
        match self {
            OpCode::OpJump | OpCode::OpJumpIfFalse | OpCode::OpLoop => 2,
            OpCode::OpConstant
            | OpCode::OpGetLocal
            | OpCode::OpSetLocal
            | OpCode::OpSetConstLocal
            | OpCode::OpGetGlobal
            | OpCode::OpDefineGlobal
            | OpCode::OpSetGlobal
            | OpCode::OpDefineConstGlobal
            | OpCode::OpCall => 1,
            _ => 0,
        }
    }

    /// Every instruction is read back from its byte, and a byte that stands
    /// for an instruction is the byte of that instruction.
    pub proof fn byte_round_trip(op: OpCode, byte: u8)
        ensures
            OpCode::spec_from_byte(op.spec_byte()) == Some(op),
            OpCode::spec_from_byte(byte) matches Some(found) ==> found.spec_byte() == byte,
    {
    }
}

/// A function's bytecode: the code bytes, the constants that the code names by
/// index, and for each code byte the source line it came from.
#[derive(Debug)]
pub struct Chunk {
    pub code: Vec<u8>,
    pub constants: Vec<Value>,
    pub lines: Vec<usize>,
}

/// What a [`Chunk`] stands for.
pub ghost struct ChunkView {
    pub code: Seq<u8>,
    pub constants: Seq<ValueView>,
    pub lines: Seq<usize>,
}

impl View for Chunk {
    type V = ChunkView;

    open spec fn view(&self) -> ChunkView {
        ChunkView { code: self.code@, constants: views(self.constants@), lines: self.lines@ }
    }
}

impl Clone for Chunk {
    fn clone(&self) -> (r: Chunk)
        ensures
            r@ == self@,
    {
        let r = Chunk {
            code: self.code.clone(),
            constants: self.constants.clone(),
            lines: self.lines.clone(),
        };
        assert(r.code@ =~= self.code@);
        assert(r.lines@ =~= self.lines@);
        assert(r@.constants =~= self@.constants);
        r
    }
}

impl Chunk {
    /// An empty chunk.
    pub fn new() -> (r: Chunk)
        ensures
            r@ == (ChunkView { code: seq![], constants: seq![], lines: seq![] }),
    {
        let r = Chunk { code: Vec::new(), constants: Vec::new(), lines: Vec::new() };
        assert(r@.constants =~= seq![]);
        r
    }

    /// Appends one byte of code, with the source line it belongs to.
    pub fn write_chunk(&mut self, byte: u8, line: usize)
        ensures
            final(self)@ == (ChunkView {
                code: old(self)@.code.push(byte),
                lines: old(self)@.lines.push(line),
                ..old(self)@
            }),
    {
        self.code.push(byte);
        self.lines.push(line);
    }

    /// Empties the chunk.
    pub fn free_chunk(&mut self)
        ensures
            final(self)@ == (ChunkView { code: seq![], constants: seq![], lines: seq![] }),
    {
        self.code = Vec::new();
        self.lines = Vec::new();
        self.constants = Vec::new();
        assert(self@.constants =~= seq![]);
    }

    /// Appends a constant and returns its index. An index is one byte, so a
    /// chunk holds at most 256 constants.
    pub fn add_constant(&mut self, value: Value) -> (r: u8)
        requires
            old(self).constants.len() < 256,
        ensures
            r == old(self)@.constants.len(),
            final(self)@ == (ChunkView {
                constants: old(self)@.constants.push(value@),
                ..old(self)@
            }),
    {
        let index = self.constants.len();
        self.constants.push(value);
        assert(self@.constants =~= old(self)@.constants.push(value@));
        index as u8
    }
}

/// How many bytes the instruction that starts with `byte` takes: itself and
/// its operands. A byte that stands for no instruction takes one.
pub open spec fn width_of(byte: u8) -> int {
    match OpCode::spec_from_byte(byte) {
        Some(op) => 1 + op.operand_width(),
        None => 1,
    }
}

/// Whether the instruction that starts with `byte` has an index into the
/// constants as its operand.
pub open spec fn byte_names_constant(byte: u8) -> bool {
    match OpCode::spec_from_byte(byte) {
        Some(op) => op.names_constant(),
        None => false,
    }
}

/// An instruction takes one to three bytes.
pub proof fn lemma_width_bounds(byte: u8)
    ensures
        1 <= width_of(byte) <= 3,
        byte_names_constant(byte) ==> width_of(byte) == 2,
        byte_is_jump(byte) ==> width_of(byte) == 3 && !byte_names_constant(byte),
{
}

/// Whether `byte` starts a forward jump.
pub open spec fn byte_is_jump(byte: u8) -> bool {
    byte == OpCode::OpJump.spec_byte() || byte == OpCode::OpJumpIfFalse.spec_byte()
}

/// Whether stepping through the code instruction by instruction from `from`
/// arrives at `to`.
pub open spec fn reaches(code: Seq<u8>, from: int, to: int) -> bool
    decreases to - from,
{
    if from >= to {
        from == to
    } else if 0 <= from < code.len() {
        proof {
            lemma_width_bounds(code[from]);
        }
        from + width_of(code[from]) <= to && reaches(code, from + width_of(code[from]), to)
    } else {
        false
    }
}

/// Whether an instruction starts at `at`: stepping from the start of the code
/// arrives there.
pub open spec fn is_instruction_start(code: Seq<u8>, at: int) -> bool {
    0 <= at < code.len() && reaches(code, 0, at)
}

/// Whether the code from `at` on is a sequence of whole instructions, each
/// operand that names a constant below `constants`.
pub open spec fn valid_from(code: Seq<u8>, constants: int, at: int) -> bool
    decreases code.len() - at,
{
    if at >= code.len() {
        at == code.len()
    } else if at < 0 {
        false
    } else {
        proof {
            lemma_width_bounds(code[at]);
        }
        &&& at + width_of(code[at]) <= code.len()
        &&& byte_names_constant(code[at]) ==> code[at + 1] < constants
        &&& valid_from(code, constants, at + width_of(code[at]))
    }
}

/// Whether `site` is where the two operand bytes of a forward jump stand.
#[verifier::opaque]
pub open spec fn is_jump_site(code: Seq<u8>, site: int) -> bool {
    &&& 1 <= site
    &&& site + 2 <= code.len()
    &&& reaches(code, 0, site - 1)
    &&& byte_is_jump(code[site - 1])
}

/// Whether the sequence `longer` starts with the sequence `start`.
#[verifier::opaque]
pub open spec fn is_prefix<T>(start: Seq<T>, longer: Seq<T>) -> bool {
    &&& start.len() <= longer.len()
    &&& forall|k: int| 0 <= k < start.len() ==> start[k] == longer[k]
}

/// The code with the two bytes at `site` replaced.
pub open spec fn patched(code: Seq<u8>, site: int, high: u8, low: u8) -> Seq<u8> {
    code.update(site, high).update(site + 1, low)
}

impl ChunkView {
    /// A chunk is well formed when each code byte has its line, there are at
    /// most 256 constants, and the code is a sequence of whole instructions
    /// whose constant operands name constants of the chunk.
    pub open spec fn well_formed(self) -> bool {
        &&& self.code.len() == self.lines.len()
        &&& self.constants.len() <= 256
        &&& valid_from(self.code, self.constants.len() as int, 0)
    }
}

/// In a well-formed chunk, every code byte has its line, every instruction
/// is whole, and every instruction that names a constant names one that the
/// chunk has.
pub proof fn instructions_are_whole(chunk: ChunkView, at: int)
    requires
        chunk.well_formed(),
        is_instruction_start(chunk.code, at),
    ensures
        chunk.code.len() == chunk.lines.len(),
        at + width_of(chunk.code[at]) <= chunk.code.len(),
        byte_names_constant(chunk.code[at]) ==> chunk.code[at + 1] < chunk.constants.len(),
        reaches(chunk.code, 0, at + width_of(chunk.code[at])),
{
    lemma_valid_at(chunk.code, chunk.constants.len() as int, 0, at);
    lemma_reaches_step(chunk.code, 0, at);
}

/// Code that is valid from `from` on is valid from every instruction on
/// that stepping from `from` arrives at.
pub proof fn lemma_valid_at(code: Seq<u8>, constants: int, from: int, at: int)
    requires
        0 <= from <= at < code.len(),
        valid_from(code, constants, from),
        reaches(code, from, at),
    ensures
        valid_from(code, constants, at),
    decreases at - from,
{
    lemma_width_bounds(code[from]);
    if from < at {
        lemma_valid_at(code, constants, from + width_of(code[from]), at);
    }
}

/// Stepping arrives behind every instruction that it arrives at.
pub proof fn lemma_reaches_step(code: Seq<u8>, from: int, at: int)
    requires
        0 <= from <= at < code.len(),
        reaches(code, from, at),
    ensures
        reaches(code, from, at + width_of(code[at])),
    decreases at - from,
{
    lemma_width_bounds(code[from]);
    lemma_width_bounds(code[at]);
    if from < at {
        lemma_reaches_step(code, from + width_of(code[from]), at);
    } else {
        assert(reaches(code, at + width_of(code[at]), at + width_of(code[at])));
    }
}

/// Valid code can be stepped through to its end.
pub proof fn lemma_valid_reaches_end(code: Seq<u8>, constants: int, at: int)
    requires
        0 <= at <= code.len(),
        valid_from(code, constants, at),
    ensures
        reaches(code, at, code.len() as int),
    decreases code.len() - at,
{
    if at < code.len() {
        lemma_width_bounds(code[at]);
        lemma_valid_reaches_end(code, constants, at + width_of(code[at]));
    }
}

/// Stepping from `from` to `to` reads only the bytes between them.
pub proof fn lemma_reaches_agree(a: Seq<u8>, b: Seq<u8>, from: int, to: int)
    requires
        reaches(a, from, to),
        to <= a.len(),
        to <= b.len(),
        forall|k: int| from <= k < to ==> a[k] == b[k],
    ensures
        reaches(b, from, to),
    decreases to - from,
{
    if from < to {
        lemma_width_bounds(a[from]);
        lemma_reaches_agree(a, b, from + width_of(a[from]), to);
    }
}

/// Two goals of stepping from one place lie on one path.
pub proof fn lemma_reaches_chain(code: Seq<u8>, from: int, a: int, b: int)
    requires
        reaches(code, from, a),
        reaches(code, from, b),
        a < b,
    ensures
        0 <= a < code.len(),
        a + width_of(code[a]) <= b,
        reaches(code, a + width_of(code[a]), b),
    decreases a - from,
{
    lemma_width_bounds(code[from]);
    if from < a {
        lemma_reaches_chain(code, from + width_of(code[from]), a, b);
    } else {
        assert(reaches(code, a + width_of(code[a]), b));
    }
}

/// Valid code stays valid when one whole instruction is appended.
pub proof fn lemma_valid_append(code: Seq<u8>, constants: int, at: int, more: Seq<u8>)
    requires
        0 <= at <= code.len(),
        valid_from(code, constants, at),
        more.len() >= 1,
        more.len() == width_of(more[0]),
        byte_names_constant(more[0]) ==> more[1] < constants,
    ensures
        valid_from(code + more, constants, at),
    decreases code.len() - at,
{
    let all = code + more;
    lemma_width_bounds(more[0]);
    if at < code.len() {
        lemma_width_bounds(code[at]);
        assert(all[at] == code[at]);
        if byte_names_constant(code[at]) {
            assert(all[at + 1] == code[at + 1]);
        }
        lemma_valid_append(code, constants, at + width_of(code[at]), more);
    } else {
        assert(all[at] == more[0]);
        if byte_names_constant(more[0]) {
            assert(all[at + 1] == more[1]);
        }
        assert(valid_from(all, constants, at + width_of(all[at])));
    }
}

/// Valid code stays valid when the chunk gets more constants.
pub proof fn lemma_valid_more_constants(code: Seq<u8>, constants: int, more: int, at: int)
    requires
        0 <= at <= code.len(),
        valid_from(code, constants, at),
        constants <= more,
    ensures
        valid_from(code, more, at),
    decreases code.len() - at,
{
    if at < code.len() {
        lemma_width_bounds(code[at]);
        lemma_valid_more_constants(code, constants, more, at + width_of(code[at]));
    }
}

/// Validity from `at` on depends only on the bytes from `at` on.
pub proof fn lemma_valid_agree(a: Seq<u8>, b: Seq<u8>, constants: int, at: int)
    requires
        0 <= at <= a.len(),
        a.len() == b.len(),
        valid_from(a, constants, at),
        forall|k: int| at <= k < a.len() ==> a[k] == b[k],
    ensures
        valid_from(b, constants, at),
    decreases a.len() - at,
{
    if at < a.len() {
        lemma_width_bounds(a[at]);
        lemma_valid_agree(a, b, constants, at + width_of(a[at]));
    }
}

/// Valid code stays valid when the operand of a forward jump is replaced.
pub proof fn lemma_valid_patch(
    code: Seq<u8>,
    constants: int,
    at: int,
    site: int,
    high: u8,
    low: u8,
)
    requires
        0 <= at < site,
        site + 2 <= code.len(),
        valid_from(code, constants, at),
        reaches(code, at, site - 1),
        byte_is_jump(code[site - 1]),
    ensures
        valid_from(patched(code, site, high, low), constants, at),
    decreases site - at,
{
    let new = patched(code, site, high, low);
    lemma_width_bounds(code[at]);
    if at == site - 1 {
        lemma_valid_agree(code, new, constants, at + 3);
    } else {
        lemma_reaches_chain(code, at, at, site - 1);
        lemma_valid_patch(code, constants, at + width_of(code[at]), site, high, low);
    }
}

/// Replacing the operand of a forward jump moves no instruction: what was
/// reached by stepping is still reached.
pub proof fn lemma_reaches_patch(
    code: Seq<u8>,
    from: int,
    to: int,
    site: int,
    high: u8,
    low: u8,
)
    requires
        0 <= from < site,
        site + 2 <= code.len(),
        to <= code.len(),
        reaches(code, from, site - 1),
        byte_is_jump(code[site - 1]),
        reaches(code, from, to),
    ensures
        reaches(patched(code, site, high, low), from, to),
    decreases site - from,
{
    let new = patched(code, site, high, low);
    lemma_width_bounds(code[from]);
    if to <= site - 1 {
        lemma_reaches_agree(code, new, from, to);
    } else if from == site - 1 {
        if from < to {
            lemma_reaches_agree(code, new, from + 3, to);
        }
    } else {
        lemma_reaches_chain(code, from, from, site - 1);
        lemma_reaches_chain(code, from, from, to);
        lemma_reaches_patch(code, from + width_of(code[from]), to, site, high, low);
    }
}

/// A jump site stays one when the code grows at its end.
pub proof fn lemma_jump_site_extends(code: Seq<u8>, longer: Seq<u8>, site: int)
    requires
        is_jump_site(code, site),
        code.len() <= longer.len(),
        forall|k: int| 0 <= k < code.len() ==> code[k] == longer[k],
    ensures
        is_jump_site(longer, site),
{
    reveal(is_jump_site);
    lemma_reaches_agree(code, longer, 0, site - 1);
}

/// A jump site stays one when the operand at another site is replaced.
pub proof fn lemma_jump_site_patch(code: Seq<u8>, site: int, other: int, high: u8, low: u8)
    requires
        is_jump_site(code, site),
        is_jump_site(code, other),
        site != other,
    ensures
        is_jump_site(patched(code, other, high, low), site),
{
    reveal(is_jump_site);
    if site < other {
        lemma_reaches_chain(code, 0, site - 1, other - 1);
    } else {
        lemma_reaches_chain(code, 0, other - 1, site - 1);
    }
    lemma_reaches_patch(code, 0, site - 1, other, high, low);
}

/// Every sequence starts with itself.
pub broadcast proof fn lemma_prefix_reflexive<T>(a: Seq<T>)
    ensures
        #[trigger] is_prefix(a, a),
{
    reveal(is_prefix);
}

/// What starts a sequence still starts it when the sequence gets one more
/// element.
pub broadcast proof fn lemma_prefix_push<T>(a: Seq<T>, b: Seq<T>, last: T)
    requires
        is_prefix(a, b),
    ensures
        #[trigger] is_prefix(a, b.push(last)),
{
    reveal(is_prefix);
}

/// What starts a sequence starts every sequence that the sequence starts.
pub broadcast proof fn lemma_prefix_transitive<T>(a: Seq<T>, b: Seq<T>, c: Seq<T>)
    requires
        #[trigger] is_prefix(a, b),
        #[trigger] is_prefix(b, c),
    ensures
        is_prefix(a, c),
{
    reveal(is_prefix);
}

/// A jump site of a code is one of every code that starts with the code.
pub broadcast proof fn lemma_jump_site_prefix(code: Seq<u8>, longer: Seq<u8>, site: int)
    requires
        #[trigger] is_jump_site(code, site),
        #[trigger] is_prefix(code, longer),
    ensures
        is_jump_site(longer, site),
{
    reveal(is_prefix);
    lemma_jump_site_extends(code, longer, site);
}

/// What starts a code still starts it when bytes behind that start are
/// replaced.
pub broadcast proof fn lemma_prefix_patch(a: Seq<u8>, b: Seq<u8>, site: int, high: u8, low: u8)
    requires
        #[trigger] is_prefix(a, b),
        a.len() <= site,
        site + 2 <= b.len(),
    ensures
        is_prefix(a, #[trigger] patched(b, site, high, low)),
{
    reveal(is_prefix);
}

pub broadcast group group_code_prefix {
    lemma_prefix_reflexive,
    lemma_prefix_push,
    lemma_prefix_transitive,
    lemma_jump_site_prefix,
    lemma_prefix_patch,
}

} // verus!
