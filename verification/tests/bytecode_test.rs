use v8_rs::{BytecodeChunk, Instruction, Value};

#[test]
fn bytecode_test_bytecode_chunk_creation() {
    let chunk = BytecodeChunk::new();
    assert_eq!(chunk.instructions.len(), 0);
    assert_eq!(chunk.constants.len(), 0);
    assert_eq!(chunk.local_count, 0);
}

#[test]
fn test_emit_instruction() {
    let mut chunk = BytecodeChunk::new();
    chunk.emit(Instruction::Add);
    chunk.emit(Instruction::Return);

    assert_eq!(chunk.instructions.len(), 2);
    assert_eq!(chunk.instructions[0], Instruction::Add);
    assert_eq!(chunk.instructions[1], Instruction::Return);
}

#[test]
fn bytecode_test_add_constant() {
    let mut chunk = BytecodeChunk::new();
    let idx1 = chunk.add_constant(Value::Number(42.0f64.to_bits()));
    let idx2 = chunk.add_constant(Value::Number(3.14f64.to_bits()));

    assert_eq!(idx1, 0);
    assert_eq!(idx2, 1);
    assert_eq!(chunk.constants.len(), 2);
}

#[test]
fn test_set_local_count() {
    let mut chunk = BytecodeChunk::new();
    chunk.set_local_count(5);
    assert_eq!(chunk.local_count, 5);
}

#[test]
fn test_instruction_types() {
    let instructions = vec![
        Instruction::LoadConst(0),
        Instruction::LoadLocal(1),
        Instruction::StoreLocal(2),
        Instruction::Add,
        Instruction::Sub,
        Instruction::Mul,
        Instruction::Div,
        Instruction::Call(3),
        Instruction::Return,
        Instruction::Jump(10),
        Instruction::JumpIfFalse(-5),
    ];

    assert_eq!(instructions.len(), 11);
}

#[test]
fn test_duplicate_chunk_is_equal_and_independent() {
    let mut chunk = BytecodeChunk::new();
    chunk.add_constant(Value::Number(1.5f64.to_bits()));
    chunk.emit(Instruction::LoadConst(0));
    chunk.emit(Instruction::Print);
    chunk.set_local_count(3);
    let copy = chunk.duplicate();
    chunk.emit(Instruction::Return);
    assert_eq!(copy.instructions, vec![Instruction::LoadConst(0), Instruction::Print]);
    assert_eq!(copy.constants, vec![Value::Number(1.5f64.to_bits())]);
    assert_eq!(copy.local_count, 3);
    assert_eq!(chunk.instructions.len(), 3);
    let empty = BytecodeChunk::default();
    assert_eq!(empty.instructions.len(), 0);
}
