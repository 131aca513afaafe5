use v8_rs::{
    BytecodeChunk, DeoptInfo, DeoptReason, Engine, Error, Instruction, RuntimeError, Value,
};

fn number(n: f64) -> Value {
    Value::Number(n.to_bits())
}

fn sum_chunk() -> BytecodeChunk {
    let mut chunk = BytecodeChunk::new();
    chunk.add_constant(number(2.0));
    chunk.add_constant(number(3.0));
    chunk.emit(Instruction::LoadConst(0));
    chunk.emit(Instruction::LoadConst(1));
    chunk.emit(Instruction::Add);
    chunk
}

fn other(func_id: usize) -> DeoptInfo {
    DeoptInfo::new(func_id, DeoptReason::Other { message: "test".to_string() })
}

#[test]
fn test_engine_creation() {
    let _engine = Engine::new();
    assert!(true);
}

#[test]
fn test_engine_instantiation() {
    let engine = Engine::new();
    drop(engine);
    assert!(true);
}

#[test]
fn test_engine_default() {
    let engine = Engine::default();
    drop(engine);
    assert!(true);
}

#[test]
fn test_execute_number() {
    let mut engine = Engine::new();
    let result = engine.execute("42").unwrap();
    assert_eq!(result, number(42.0));
}

#[test]
fn test_execute_addition() {
    let mut engine = Engine::new();
    let result = engine.execute("10 + 20").unwrap();
    assert_eq!(result, number(30.0));
}

#[test]
fn test_execute_complex_expression() {
    let mut engine = Engine::new();
    let result = engine.execute("(5 + 3) * 2").unwrap();
    assert_eq!(result, number(16.0));
}

#[test]
fn test_execute_let_declaration() {
    let mut engine = Engine::new();
    let result = engine.execute("let x = 42;").unwrap();
    assert!(matches!(result, Value::Number(_) | Value::Undefined));
}

#[test]
fn test_execute_parse_error() {
    let mut engine = Engine::new();
    let result = engine.execute("let = 10");
    assert!(result.is_err());
}

#[test]
fn engine_test_execute_division_by_zero() {
    let mut engine = Engine::new();
    let result = engine.execute("10 / 0");
    assert!(result.is_err());
}

#[test]
fn test_scenarios_from_source() {
    let mut engine = Engine::new();
    assert_eq!(engine.execute("10 + 20 * 2"), Ok(number(50.0)));
    assert_eq!(engine.execute("let x = 15;"), Ok(Value::Undefined));
    assert_eq!(engine.execute("let x = 15; x"), Ok(number(15.0)));
    assert_eq!(
        engine.execute("10 / 0"),
        Err(Error::RuntimeError(RuntimeError::DivisionByZero))
    );
    assert_eq!(engine.execute("((5 + 3) * 2) - 6"), Ok(number(10.0)));
    assert_eq!(engine.execute("3.14 * 2.0"), Ok(number(6.28)));
    assert_eq!(engine.execute("x"), Ok(Value::Undefined));
    assert_eq!(engine.execute(""), Ok(Value::Undefined));
    assert_eq!(engine.profiler().get_count(0), 8);
}

#[test]
fn test_parse_error_runs_nothing() {
    let mut engine = Engine::with_threshold(1);
    assert!(matches!(engine.execute("let = 10"), Err(Error::ParseError(_))));
    assert_eq!(engine.profiler().get_count(0), 0);
    assert!(!engine.is_compiled(0));
}

#[test]
fn test_loops_prints_and_calls_from_source() {
    let mut engine = Engine::new();
    assert_eq!(engine.execute("for (let i = 0; i; i) { print(i) }"), Ok(number(0.0)));
    assert_eq!(engine.take_printed(), vec![]);
    assert_eq!(engine.execute("print(1 + 1); print(5)"), Ok(number(5.0)));
    assert_eq!(engine.take_printed(), vec![number(2.0), number(5.0)]);
    assert_eq!(
        engine.execute("let f = 1; f(2)"),
        Err(Error::RuntimeError(RuntimeError::UnsupportedCall))
    );
    assert_eq!(engine.execute("if (0) { 1 } else { 2 }"), Ok(number(2.0)));
    assert_eq!(engine.execute("if (5) { 1 } else { 2 }"), Ok(number(1.0)));
}

#[test]
fn test_optimize_stores_code_and_registers_bytecode() {
    let mut engine = Engine::new();
    assert!(!engine.is_compiled(4));
    assert!(!engine.has_bytecode(4));
    let compiled = engine.optimize(4, &sum_chunk()).unwrap();
    assert_eq!(compiled.func_id, 4);
    assert_eq!(compiled.entry_point, 0);
    let mut expected: Vec<u8> = vec![0x01];
    expected.extend_from_slice(&2.0f64.to_le_bytes());
    expected.push(0x01);
    expected.extend_from_slice(&3.0f64.to_le_bytes());
    expected.push(0x01);
    expected.extend_from_slice(&5.0f64.to_le_bytes());
    assert_eq!(compiled.code, expected);
    assert!(engine.is_compiled(4));
    assert!(engine.has_bytecode(4));
    assert_eq!(engine.compiled_function(4).unwrap().code, expected);
    assert!(engine.compiled_function(5).is_none());
}

#[test]
fn test_deoptimize_after_optimize_evicts_and_cools() {
    let mut engine = Engine::new();
    engine.optimize(7, &sum_chunk()).unwrap();
    engine.deoptimize(other(7)).unwrap();
    assert!(!engine.is_compiled(7));
    assert!(!engine.should_optimize(7));
    assert!(engine.has_bytecode(7));
}

#[test]
fn test_deoptimize_without_bytecode_fails_and_changes_nothing() {
    let mut engine = Engine::new();
    engine.optimize(1, &sum_chunk()).unwrap();
    assert_eq!(
        engine.deoptimize(other(2)),
        Err("No bytecode found for function 2".to_string())
    );
    assert!(engine.is_compiled(1));
}

#[test]
fn test_branching_bytecode_stays_interpreted() {
    let mut engine = Engine::new();
    let mut chunk = sum_chunk();
    chunk.emit(Instruction::Jump(0));
    assert!(engine.optimize(3, &chunk).is_none());
    assert!(!engine.is_compiled(3));
    assert!(!engine.has_bytecode(3));
    assert_eq!(engine.execute_bytecode_with_id(chunk, 3), Ok(number(5.0)));
}

#[test]
fn test_hot_function_is_compiled_after_its_run() {
    let mut engine = Engine::with_threshold(3);
    for _ in 0..2 {
        assert_eq!(engine.execute_bytecode_with_id(sum_chunk(), 9), Ok(number(5.0)));
        assert!(!engine.should_optimize(9));
        assert!(!engine.is_compiled(9));
    }
    assert_eq!(engine.execute_bytecode_with_id(sum_chunk(), 9), Ok(number(5.0)));
    assert!(engine.should_optimize(9));
    assert!(engine.is_compiled(9));
    assert!(engine.has_bytecode(9));
    assert_eq!(engine.profiler().get_count(9), 3);

    engine.deoptimize(other(9)).unwrap();
    assert!(!engine.is_compiled(9));
    assert!(!engine.should_optimize(9));
    assert_eq!(engine.profiler().get_count(9), 0);
    for _ in 0..2 {
        assert_eq!(engine.execute_bytecode_with_id(sum_chunk(), 9), Ok(number(5.0)));
        assert!(!engine.should_optimize(9));
        assert!(!engine.is_compiled(9));
        assert!(engine.has_bytecode(9));
    }
    assert_eq!(engine.execute_bytecode_with_id(sum_chunk(), 9), Ok(number(5.0)));
    assert!(engine.should_optimize(9));
    assert!(engine.is_compiled(9));
}

#[test]
fn test_profiler_of_an_engine_can_be_changed() {
    let mut engine = Engine::with_threshold(2);
    engine.profiler_mut().record_execution(4);
    engine.profiler_mut().record_execution(4);
    assert!(engine.should_optimize(4));
    assert_eq!(engine.profiler().get_count(4), 2);
    engine.profiler_mut().unmark_hot(4);
    assert!(!engine.should_optimize(4));
    assert_eq!(engine.profiler().get_count(4), 2);
    engine.profiler_mut().mark_hot(5);
    assert!(engine.should_optimize(5));
    engine.profiler_mut().reset();
    assert!(!engine.should_optimize(5));
    assert_eq!(engine.profiler().get_count(4), 0);
    assert_eq!(engine.execute_bytecode_with_id(sum_chunk(), 4), Ok(number(5.0)));
    assert_eq!(engine.execute_bytecode_with_id(sum_chunk(), 4), Ok(number(5.0)));
    assert!(engine.is_compiled(4));
}

#[test]
fn test_default_engine_warms_up_in_one_hundred_runs() {
    let mut engine = Engine::new();
    for _ in 0..99 {
        engine.execute_bytecode(sum_chunk()).unwrap();
    }
    assert!(!engine.should_optimize(0));
    assert!(!engine.is_compiled(0));
    engine.execute_bytecode(sum_chunk()).unwrap();
    assert!(engine.should_optimize(0));
    assert!(engine.is_compiled(0));
}

#[test]
fn test_failed_run_is_recorded_but_not_compiled() {
    let mut engine = Engine::with_threshold(1);
    let mut chunk = BytecodeChunk::new();
    chunk.add_constant(number(10.0));
    chunk.add_constant(number(0.0));
    chunk.emit(Instruction::LoadConst(0));
    chunk.emit(Instruction::LoadConst(1));
    chunk.emit(Instruction::Div);
    assert_eq!(
        engine.execute_bytecode(chunk),
        Err(Error::RuntimeError(RuntimeError::DivisionByZero))
    );
    assert!(engine.should_optimize(0));
    assert!(!engine.is_compiled(0));
}

#[test]
fn test_engines_do_not_share_state() {
    let mut first = Engine::with_threshold(1);
    let second = Engine::with_threshold(1);
    first.execute_bytecode(sum_chunk()).unwrap();
    assert!(first.is_compiled(0));
    assert!(!second.is_compiled(0));
    assert_eq!(second.profiler().get_count(0), 0);
}

#[test]
fn test_engine_keeps_what_was_printed() {
    let mut engine = Engine::new();
    let mut chunk = sum_chunk();
    chunk.emit(Instruction::Print);
    assert_eq!(engine.execute_bytecode(chunk), Ok(number(5.0)));
    assert_eq!(engine.printed(), &vec![number(5.0)]);
    assert_eq!(engine.take_printed(), vec![number(5.0)]);
    assert_eq!(engine.printed().len(), 0);
}
