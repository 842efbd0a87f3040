//! The disassembler: what stands in a chunk, instruction by instruction.
//!
//! The library takes the code apart; to print what it finds is left to the
//! embedding program.

use vstd::prelude::*;
use crate::chunk::Chunk;
use crate::chunk::ChunkView;
use crate::chunk::OpCode;
use crate::chunk::width_of;

verus! {

/// The operand of an instruction.
#[derive(Debug, PartialEq, Eq, Clone, Copy, Structural)]
pub enum Operand {
    /// The instruction has no operand, or the code ends before it.
    Nothing,
    /// The index of a constant.
    Constant(u8),
    /// A stack slot or a number of arguments.
    Byte(u8),
    /// The distance of a jump, and the offset that the jump leads to; `None`
    /// for a jump back beyond the start of the code.
    Jump(usize, Option<usize>),
}

/// An instruction as it stands in a chunk.
#[derive(Debug, PartialEq, Eq, Clone, Copy, Structural)]
pub struct Instruction {
    /// Where the instruction starts.
    pub offset: usize,
    /// The source line of the instruction; 0 if the chunk records none.
    pub line: usize,
    /// Whether the instruction before this one is from the same line.
    pub same_line: bool,
    /// The byte that the instruction starts with.
    pub byte: u8,
    /// The instruction that the byte stands for, if any.
    pub op: Option<OpCode>,
    pub operand: Operand,
    /// Where the next instruction starts.
    pub next: usize,
}

/// The operand of the instruction `op` at `offset`.
pub open spec fn operand_at(code: Seq<u8>, offset: int, op: OpCode) -> Operand {
    if offset + 1 + op.operand_width() > code.len() {
        Operand::Nothing
    } else if op.operand_width() == 2 {
        let distance = code[offset + 1] * 256 + code[offset + 2];
        Operand::Jump(
            distance as usize,
            if op != OpCode::OpLoop {
                if offset + 3 + distance <= usize::MAX {
                    Some((offset + 3 + distance) as usize)
                } else {
                    None
                }
            } else if distance <= offset + 3 {
                Some((offset + 3 - distance) as usize)
            } else {
                None
            },
        )
    } else if op.operand_width() == 1 {
        if op.names_constant() {
            Operand::Constant(code[offset + 1])
        } else {
            Operand::Byte(code[offset + 1])
        }
    } else {
        Operand::Nothing
    }
}

/// The instruction at `offset` of a chunk. A byte that stands for no
/// instruction counts as an instruction of one byte. An instruction whose
/// operand the code ends before has no operand, and the code ends with it.
pub open spec fn instruction_at(chunk: ChunkView, offset: int) -> Instruction {
    let byte = chunk.code[offset];
    let op = OpCode::spec_from_byte(byte);
    let line = |at: int|
        if 0 <= at < chunk.lines.len() {
            chunk.lines[at]
        } else {
            0
        };
    Instruction {
        offset: offset as usize,
        line: line(offset),
        same_line: offset > 0 && line(offset) == line(offset - 1),
        byte,
        op,
        operand: match op {
            Some(op) => operand_at(chunk.code, offset, op),
            None => Operand::Nothing,
        },
        next: if offset + width_of(byte) <= chunk.code.len() {
            (offset + width_of(byte)) as usize
        } else {
            chunk.code.len() as usize
        },
    }
}

/// The instructions of a chunk from `offset` on.
pub open spec fn instructions_from(chunk: ChunkView, offset: int) -> Seq<Instruction>
    decreases chunk.code.len() - offset,
{
    if 0 <= offset < chunk.code.len() {
        let first = instruction_at(chunk, offset);
        if offset < first.next <= chunk.code.len() {
            seq![first] + instructions_from(chunk, first.next as int)
        } else {
            seq![first]
        }
    } else {
        seq![]
    }
}

/// Takes the instruction at `offset` apart.
pub fn disassemble_instruction(chunk: &Chunk, offset: usize) -> (instruction: Instruction)
    requires
        offset < chunk.code.len(),
    ensures
        instruction == instruction_at(chunk@, offset as int),
        offset < instruction.next <= chunk.code.len(),
{
    let length = chunk.code.len();
    let byte = chunk.code[offset];
    let op = OpCode::from_byte(byte);
    let line = if offset < chunk.lines.len() {
        chunk.lines[offset]
    } else {
        0
    };
    let before = if offset > 0 && offset - 1 < chunk.lines.len() {
        chunk.lines[offset - 1]
    } else {
        0
    };
    let mut next = if length - offset >= 1 {
        offset + 1
    } else {
        length
    };
    let operand = match op {
        Some(op) => {
            let width = op.operands();
            if length - offset > width {
                next = offset + 1 + width;
                operand(chunk, offset, op)
            } else {
                next = length;
                Operand::Nothing
            }
        },
        None => Operand::Nothing,
    };
    Instruction { offset, line, same_line: offset > 0 && line == before, byte, op, operand, next }
}

/// Reads the operand of the instruction `op` at `offset`.
fn operand(chunk: &Chunk, offset: usize, op: OpCode) -> (operand: Operand)
    requires
        offset + 1 + op.operand_width() <= chunk.code.len(),
    ensures
        operand == operand_at(chunk@.code, offset as int, op),
{
    let width = op.operands();
    if width == 2 {
        let distance = (chunk.code[offset + 1] as usize) * 256 + chunk.code[offset + 2] as usize;
        let target = match op {
            OpCode::OpLoop => {
                if distance <= offset + 3 {
                    Some(offset + 3 - distance)
                } else {
                    None
                }
            },
            _ => {
                if distance <= usize::MAX - (offset + 3) {
                    Some(offset + 3 + distance)
                } else {
                    None
                }
            },
        };
        Operand::Jump(distance, target)
    } else if width == 1 {
        match op {
            OpCode::OpConstant
            | OpCode::OpGetGlobal
            | OpCode::OpDefineGlobal
            | OpCode::OpSetGlobal
            | OpCode::OpDefineConstGlobal => Operand::Constant(chunk.code[offset + 1]),
            _ => Operand::Byte(chunk.code[offset + 1]),
        }
    } else {
        Operand::Nothing
    }
}

/// Takes a chunk apart into its instructions.
pub fn disassemble_chunk(chunk: &Chunk) -> (instructions: Vec<Instruction>)
    ensures
        instructions@ == instructions_from(chunk@, 0),
{
    let mut instructions: Vec<Instruction> = Vec::new();
    let mut offset: usize = 0;
    while offset < chunk.code.len()
        invariant
            offset <= chunk.code.len(),
            instructions@ + instructions_from(chunk@, offset as int) == instructions_from(
                chunk@,
                0,
            ),
        decreases chunk.code.len() - offset,
    {
        let instruction = disassemble_instruction(chunk, offset);
        let ghost before = instructions@;
        instructions.push(instruction);
        proof {
            assert(before.push(instruction) + instructions_from(chunk@, instruction.next as int)
                =~= before + instructions_from(chunk@, offset as int));
        }
        offset = instruction.next;
    }
    instructions
}

} // verus!
