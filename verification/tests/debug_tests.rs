use loxvm::chunk::Chunk;
use loxvm::chunk::OpCode;
use loxvm::debug::disassemble_chunk;
use loxvm::debug::disassemble_instruction;
use loxvm::debug::Instruction;
use loxvm::debug::Operand;
use loxvm::value::Value;

fn chunk_of(code: Vec<u8>, lines: Vec<usize>) -> Chunk {
    Chunk { code, constants: vec![Value::Nil], lines }
}

#[test]
fn disassembles_each_operand_kind() {
    // Constant 0; Nil; GetLocal 3; Jump +2; Pop; Pop; Loop -9; Call 2; 200
    let chunk = chunk_of(
        vec![0, 0, 1, 5, 3, 24, 0, 2, 4, 4, 26, 0, 9, 27, 2, 200],
        vec![1, 1, 1, 2, 2, 2, 2, 2, 3, 3, 3, 3, 3, 4, 4, 5],
    );
    let found = disassemble_chunk(&chunk);
    let offsets: Vec<usize> = found.iter().map(|i| i.offset).collect();
    assert_eq!(offsets, vec![0, 2, 3, 5, 8, 9, 10, 13, 15]);
    assert_eq!(
        found[0],
        Instruction {
            offset: 0,
            line: 1,
            same_line: false,
            byte: 0,
            op: Some(OpCode::OpConstant),
            operand: Operand::Constant(0),
            next: 2
        }
    );
    assert_eq!(found[1].operand, Operand::Nothing);
    assert!(found[1].same_line);
    assert_eq!(found[2].operand, Operand::Byte(3));
    assert!(!found[2].same_line);
    assert_eq!(found[2].line, 2);
    assert_eq!(found[3].operand, Operand::Jump(2, Some(10)));
    assert_eq!(found[6].op, Some(OpCode::OpLoop));
    assert_eq!(found[6].operand, Operand::Jump(9, Some(4)));
    assert_eq!(found[7].operand, Operand::Byte(2));
    assert_eq!(found[8].op, None);
    assert_eq!(found[8].byte, 200);
    assert_eq!(found[8].next, 16);
}

#[test]
fn instruction_cut_short_ends_the_code() {
    let chunk = chunk_of(vec![1, 24, 0], vec![1, 1, 1]);
    let cut = disassemble_instruction(&chunk, 1);
    assert_eq!(cut.op, Some(OpCode::OpJump));
    assert_eq!(cut.operand, Operand::Nothing);
    assert_eq!(cut.next, 3);
    assert_eq!(disassemble_chunk(&chunk).len(), 2);
    assert_eq!(disassemble_chunk(&Chunk::new()).len(), 0);
}

#[test]
fn loop_beyond_the_start_has_no_target() {
    let chunk = chunk_of(vec![26, 0, 4], vec![]);
    let found = disassemble_instruction(&chunk, 0);
    assert_eq!(found.operand, Operand::Jump(4, None));
    assert_eq!(found.line, 0);
}
