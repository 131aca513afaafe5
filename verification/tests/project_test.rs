use v8_rs::{
    BinOp, BytecodeChunk, CompileError, Error, Instruction, ParseError, RuntimeError, Scope,
    ScopeType, Span, Value,
};

#[test]
fn test_scope_creation() {
    let global_scope = Scope::global();
    drop(global_scope);

    let global = Scope::global();
    let function_scope = global.function_scope();
    drop(function_scope);

    let global2 = Scope::global();
    let block_scope = global2.block_scope();
    drop(block_scope);

    assert!(true);
}

#[test]
fn project_init_test_test_bytecode_chunk_creation() {
    let chunk = BytecodeChunk { instructions: vec![], constants: vec![], local_count: 0 };
    drop(chunk);
    assert!(true);
}

#[test]
fn test_instruction_variants() {
    let instructions = vec![
        Instruction::LoadConst(0),
        Instruction::LoadLocal(0),
        Instruction::StoreLocal(0),
        Instruction::Add,
        Instruction::Sub,
        Instruction::Mul,
        Instruction::Div,
        Instruction::Call(0),
        Instruction::Return,
        Instruction::Jump(0),
        Instruction::JumpIfFalse(0),
    ];

    assert_eq!(instructions.len(), 11);
}

#[test]
fn test_value_variants() {
    let num = Value::Number(42.0f64.to_bits());
    let func = Value::Function(0);
    let undef = Value::Undefined;

    assert!(matches!(num, Value::Number(_)));
    assert!(matches!(func, Value::Function(_)));
    assert!(matches!(undef, Value::Undefined));
}

#[test]
fn test_error_variants() {
    let parse_err = Error::ParseError(ParseError::UnexpectedEOF);
    let runtime_err = Error::RuntimeError(RuntimeError::DivisionByZero);
    let compile_err =
        Error::CompileError(CompileError::UnsupportedFeature { feature: "test".to_string() });

    assert!(matches!(parse_err, Error::ParseError(_)));
    assert!(matches!(runtime_err, Error::RuntimeError(_)));
    assert!(matches!(compile_err, Error::CompileError(_)));
}

#[test]
fn test_binop_variants() {
    let ops = vec![BinOp::Add, BinOp::Sub, BinOp::Mul, BinOp::Div];
    assert_eq!(ops.len(), 4);
}

#[test]
fn test_scope_type_variants() {
    let _global = ScopeType::Global;
    let _function = ScopeType::Function;
    let _block = ScopeType::Block;
    assert!(true);
}

#[test]
fn test_span_utilities() {
    let span1 = Span::new(0, 5);
    let span2 = Span::single(10);
    let merged = span1.merge(span2);

    assert_eq!(span1.start, 0);
    assert_eq!(span1.end, 5);
    assert_eq!(span2.start, 10);
    assert_eq!(span2.end, 10);
    assert_eq!(merged.start, 0);
    assert_eq!(merged.end, 10);
}

#[test]
fn test_project_compilation() {
    assert!(true);
}
