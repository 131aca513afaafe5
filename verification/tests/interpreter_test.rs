use v8_rs::{BytecodeChunk, CallFrame, HotspotProfiler, Ignition, Instruction, RuntimeError, Value};

fn number(n: f64) -> Value {
    Value::Number(n.to_bits())
}

fn chunk_of(constants: &[f64], instructions: &[Instruction], locals: usize) -> BytecodeChunk {
    let mut chunk = BytecodeChunk::new();
    for c in constants {
        chunk.add_constant(number(*c));
    }
    for i in instructions {
        chunk.emit(*i);
    }
    chunk.set_local_count(locals);
    chunk
}

#[test]
fn test_call_frame_creation() {
    let chunk = BytecodeChunk::new();
    let frame = CallFrame::new(chunk, 0);

    assert_eq!(frame.ip, 0);
    assert_eq!(frame.stack.len(), 0);
    assert_eq!(frame.func_id, 0);
}

#[test]
fn test_call_frame_push_pop() {
    let chunk = BytecodeChunk::new();
    let mut frame = CallFrame::new(chunk, 0);

    frame.push(number(42.0));
    assert_eq!(frame.stack.len(), 1);

    let value = frame.pop().unwrap();
    assert_eq!(value, number(42.0));
    assert_eq!(frame.stack.len(), 0);
}

#[test]
fn test_execute_load_const() {
    let mut chunk = BytecodeChunk::new();
    let idx = chunk.add_constant(number(42.0));
    chunk.emit(Instruction::LoadConst(idx));

    let mut interpreter = Ignition::new();
    let result = interpreter.execute(chunk).unwrap();

    assert_eq!(result, number(42.0));
}

#[test]
fn test_execute_add() {
    let mut chunk = BytecodeChunk::new();
    let idx1 = chunk.add_constant(number(10.0));
    let idx2 = chunk.add_constant(number(20.0));
    chunk.emit(Instruction::LoadConst(idx1));
    chunk.emit(Instruction::LoadConst(idx2));
    chunk.emit(Instruction::Add);

    let mut interpreter = Ignition::new();
    let result = interpreter.execute(chunk).unwrap();

    assert_eq!(result, number(30.0));
}

#[test]
fn test_execute_arithmetic() {
    let mut chunk = BytecodeChunk::new();
    let idx1 = chunk.add_constant(number(10.0));
    let idx2 = chunk.add_constant(number(5.0));
    let idx3 = chunk.add_constant(number(2.0));

    chunk.emit(Instruction::LoadConst(idx1));
    chunk.emit(Instruction::LoadConst(idx2));
    chunk.emit(Instruction::Add);
    chunk.emit(Instruction::LoadConst(idx3));
    chunk.emit(Instruction::Mul);

    let mut interpreter = Ignition::new();
    let result = interpreter.execute(chunk).unwrap();

    assert_eq!(result, number(30.0));
}

#[test]
fn interpreter_test_execute_division_by_zero() {
    let mut chunk = BytecodeChunk::new();
    let idx1 = chunk.add_constant(number(10.0));
    let idx2 = chunk.add_constant(number(0.0));

    chunk.emit(Instruction::LoadConst(idx1));
    chunk.emit(Instruction::LoadConst(idx2));
    chunk.emit(Instruction::Div);

    let mut interpreter = Ignition::new();
    let result = interpreter.execute(chunk);

    assert!(result.is_err());
    assert!(matches!(result.unwrap_err(), RuntimeError::DivisionByZero));
}

#[test]
fn test_interpreter_instantiation() {
    let interpreter = Ignition::new();
    drop(interpreter);
    assert!(true);
}

#[test]
fn test_frame_locals_start_undefined_and_peek() {
    let mut chunk = BytecodeChunk::new();
    chunk.set_local_count(3);
    let mut frame = CallFrame::new(chunk, 9);
    assert_eq!(frame.locals, vec![Value::Undefined, Value::Undefined, Value::Undefined]);
    assert_eq!(frame.func_id, 9);
    assert!(frame.peek().is_none());
    assert!(frame.halted());
    assert_eq!(frame.top(), Value::Undefined);
    assert!(matches!(frame.pop(), Err(RuntimeError::StackUnderflow)));
    frame.push(number(1.0));
    frame.push(number(2.0));
    assert_eq!(frame.peek(), Some(&number(2.0)));
    assert_eq!(frame.top(), number(2.0));
    assert_eq!(frame.stack.len(), 2);
}

#[test]
fn test_expression_ten_plus_twenty_times_two() {
    let chunk = chunk_of(
        &[10.0, 20.0, 2.0],
        &[
            Instruction::LoadConst(0),
            Instruction::LoadConst(1),
            Instruction::LoadConst(2),
            Instruction::Mul,
            Instruction::Add,
        ],
        0,
    );
    let mut interpreter = Ignition::new();
    assert_eq!(interpreter.execute(chunk), Ok(number(50.0)));
}

#[test]
fn test_let_stores_fifteen_in_slot_zero() {
    let chunk = chunk_of(
        &[15.0],
        &[Instruction::LoadConst(0), Instruction::StoreLocal(0), Instruction::LoadLocal(0)],
        1,
    );
    let mut interpreter = Ignition::new();
    assert_eq!(interpreter.execute(chunk), Ok(number(15.0)));

    let chunk = chunk_of(&[15.0], &[Instruction::LoadConst(0), Instruction::StoreLocal(0)], 1);
    assert_eq!(interpreter.execute(chunk), Ok(Value::Undefined));
}

#[test]
fn test_sub_and_div_take_the_left_operand_first() {
    let chunk = chunk_of(
        &[50.0, 15.0],
        &[Instruction::LoadConst(0), Instruction::LoadConst(1), Instruction::Sub],
        0,
    );
    assert_eq!(Ignition::new().execute(chunk), Ok(number(35.0)));
    let chunk = chunk_of(
        &[100.0, 4.0],
        &[Instruction::LoadConst(0), Instruction::LoadConst(1), Instruction::Div],
        0,
    );
    assert_eq!(Ignition::new().execute(chunk), Ok(number(25.0)));
}

#[test]
fn test_division_by_negative_zero_is_an_error() {
    let chunk = chunk_of(
        &[1.0, -0.0],
        &[Instruction::LoadConst(0), Instruction::LoadConst(1), Instruction::Div],
        0,
    );
    assert_eq!(Ignition::new().execute(chunk), Err(RuntimeError::DivisionByZero));
}

#[test]
fn test_type_error_on_non_numbers() {
    let mut chunk = BytecodeChunk::new();
    chunk.add_constant(number(1.0));
    chunk.add_constant(Value::Function(2));
    chunk.emit(Instruction::LoadConst(0));
    chunk.emit(Instruction::LoadConst(1));
    chunk.emit(Instruction::Add);
    assert_eq!(
        Ignition::new().execute(chunk),
        Err(RuntimeError::TypeError { expected: "number".to_string(), found: "other".to_string() })
    );
}

#[test]
fn test_underflow_overflow_and_missing_local() {
    let chunk = chunk_of(&[1.0], &[Instruction::LoadConst(0), Instruction::Add], 0);
    assert_eq!(Ignition::new().execute(chunk), Err(RuntimeError::StackUnderflow));
    let chunk = chunk_of(&[], &[Instruction::StoreLocal(0)], 1);
    assert_eq!(Ignition::new().execute(chunk), Err(RuntimeError::StackUnderflow));
    let chunk = chunk_of(&[1.0], &[Instruction::LoadConst(1)], 0);
    assert_eq!(Ignition::new().execute(chunk), Err(RuntimeError::StackOverflow));
    let chunk = chunk_of(&[], &[Instruction::LoadLocal(12)], 2);
    assert_eq!(
        Ignition::new().execute(chunk),
        Err(RuntimeError::UndefinedVariable { name: "local_12".to_string() })
    );
}

#[test]
fn test_store_outside_the_slots_is_dropped() {
    let chunk = chunk_of(
        &[5.0, 6.0],
        &[Instruction::LoadConst(0), Instruction::LoadConst(1), Instruction::StoreLocal(4)],
        1,
    );
    assert_eq!(Ignition::new().execute(chunk), Ok(number(5.0)));
}

#[test]
fn test_call_is_rejected() {
    let chunk = chunk_of(&[1.0], &[Instruction::LoadConst(0), Instruction::Call(0)], 0);
    assert_eq!(Ignition::new().execute(chunk), Err(RuntimeError::UnsupportedCall));
}

#[test]
fn test_return_ends_the_run_with_the_top() {
    let chunk = chunk_of(
        &[1.0, 2.0],
        &[Instruction::LoadConst(0), Instruction::Return, Instruction::LoadConst(1)],
        0,
    );
    assert_eq!(Ignition::new().execute(chunk), Ok(number(1.0)));
    let chunk = chunk_of(&[], &[Instruction::Return], 0);
    assert_eq!(Ignition::new().execute(chunk), Ok(Value::Undefined));
    assert_eq!(Ignition::new().execute(BytecodeChunk::new()), Ok(Value::Undefined));
}

#[test]
fn test_jump_counts_from_the_next_instruction() {
    let chunk = chunk_of(
        &[1.0, 2.0, 3.0],
        &[
            Instruction::LoadConst(0),
            Instruction::Jump(1),
            Instruction::LoadConst(1),
            Instruction::LoadConst(2),
            Instruction::Add,
        ],
        0,
    );
    assert_eq!(Ignition::new().execute(chunk), Ok(number(4.0)));
}

#[test]
fn test_jump_if_false_keeps_the_condition() {
    let taken = chunk_of(
        &[0.0, 7.0],
        &[Instruction::LoadConst(0), Instruction::JumpIfFalse(1), Instruction::LoadConst(1)],
        0,
    );
    assert_eq!(Ignition::new().execute(taken), Ok(number(0.0)));
    let not_taken = chunk_of(
        &[3.0, 7.0],
        &[Instruction::LoadConst(0), Instruction::JumpIfFalse(1), Instruction::LoadConst(1)],
        0,
    );
    assert_eq!(Ignition::new().execute(not_taken), Ok(number(7.0)));
    let on_empty = chunk_of(&[7.0], &[Instruction::JumpIfFalse(1), Instruction::LoadConst(0)], 0);
    assert_eq!(Ignition::new().execute(on_empty), Ok(Value::Undefined));
}

#[test]
fn test_jump_outside_the_chunk_ends_the_run() {
    let back = chunk_of(&[1.0], &[Instruction::LoadConst(0), Instruction::Jump(-5)], 0);
    assert_eq!(Ignition::new().execute(back), Ok(number(1.0)));
    let far = chunk_of(
        &[1.0, 2.0],
        &[Instruction::LoadConst(0), Instruction::Jump(100), Instruction::LoadConst(1)],
        0,
    );
    assert_eq!(Ignition::new().execute(far), Ok(number(1.0)));
    let least = chunk_of(&[1.0], &[Instruction::LoadConst(0), Instruction::Jump(isize::MIN)], 0);
    assert_eq!(Ignition::new().execute(least), Ok(number(1.0)));
    let most = chunk_of(&[1.0], &[Instruction::LoadConst(0), Instruction::Jump(isize::MAX)], 0);
    assert_eq!(Ignition::new().execute(most), Ok(number(1.0)));
}

#[test]
fn test_counting_loop_runs_to_its_end() {
    // slot 0 counts down from 3; the loop ends when it is zero.
    let chunk = chunk_of(
        &[3.0, 1.0],
        &[
            Instruction::LoadConst(0),
            Instruction::StoreLocal(0),
            Instruction::LoadLocal(0),
            Instruction::JumpIfFalse(5),
            Instruction::LoadConst(1),
            Instruction::Sub,
            Instruction::StoreLocal(0),
            Instruction::LoadLocal(0),
            Instruction::Jump(-6),
        ],
        1,
    );
    assert_eq!(Ignition::new().execute(chunk), Ok(number(0.0)));
}

#[test]
fn test_endless_loop_stops_at_the_budget() {
    let chunk = chunk_of(&[], &[Instruction::Jump(-1)], 0);
    let mut interpreter = Ignition::new();
    assert_eq!(
        interpreter.execute_with_budget(chunk, 5, 1000),
        Err(RuntimeError::StepLimitExceeded)
    );
    assert_eq!(interpreter.profiler().get_count(5), 1);
}

#[test]
fn test_budget_counts_instructions() {
    let instructions = [Instruction::LoadConst(0), Instruction::LoadConst(0), Instruction::Add];
    let mut interpreter = Ignition::new();
    assert_eq!(
        interpreter.execute_with_budget(chunk_of(&[2.0], &instructions, 0), 0, 3),
        Ok(number(4.0))
    );
    assert_eq!(
        interpreter.execute_with_budget(chunk_of(&[2.0], &instructions, 0), 0, 2),
        Err(RuntimeError::StepLimitExceeded)
    );
    assert_eq!(
        interpreter.execute_with_budget(BytecodeChunk::new(), 0, 0),
        Ok(Value::Undefined)
    );
}

#[test]
fn test_print_records_the_top_and_keeps_it() {
    let chunk = chunk_of(
        &[1.0, 2.0],
        &[
            Instruction::LoadConst(0),
            Instruction::Print,
            Instruction::LoadConst(1),
            Instruction::Print,
            Instruction::Add,
        ],
        0,
    );
    let mut interpreter = Ignition::new();
    assert_eq!(interpreter.execute(chunk), Ok(number(3.0)));
    assert_eq!(interpreter.printed(), &vec![number(1.0), number(2.0)]);
    assert_eq!(interpreter.take_printed(), vec![number(1.0), number(2.0)]);
    assert_eq!(interpreter.printed().len(), 0);
    let empty = chunk_of(&[], &[Instruction::Print], 0);
    assert_eq!(interpreter.execute(empty), Err(RuntimeError::StackUnderflow));
}

#[test]
fn test_print_before_a_fault_stays_printed() {
    let chunk = chunk_of(
        &[1.0, 0.0],
        &[
            Instruction::LoadConst(0),
            Instruction::Print,
            Instruction::LoadConst(1),
            Instruction::Div,
        ],
        0,
    );
    let mut interpreter = Ignition::new();
    assert_eq!(interpreter.execute(chunk), Err(RuntimeError::DivisionByZero));
    assert_eq!(interpreter.printed(), &vec![number(1.0)]);
}

#[test]
fn test_executions_are_recorded_per_function() {
    let mut interpreter = Ignition::with_profiler(HotspotProfiler::new(2));
    let one = [Instruction::LoadConst(0)];
    interpreter.execute_with_id(chunk_of(&[1.0], &one, 0), 3).unwrap();
    interpreter.execute(chunk_of(&[1.0], &one, 0)).unwrap();
    assert_eq!(interpreter.profiler().get_count(3), 1);
    assert_eq!(interpreter.profiler().get_count(0), 1);
    assert!(!interpreter.profiler().is_hot(3));
    interpreter.execute_with_id(chunk_of(&[1.0], &one, 0), 3).unwrap();
    assert!(interpreter.profiler().is_hot(3));
    interpreter.profiler_mut().unmark_hot(3);
    assert!(!interpreter.profiler().is_hot(3));
    assert_eq!(Ignition::default().profiler().threshold(), 100);
}

#[test]
fn test_a_failed_run_leaves_no_frame_behind() {
    let mut interpreter = Ignition::new();
    let failing = chunk_of(
        &[1.0, 0.0],
        &[Instruction::LoadConst(0), Instruction::LoadConst(1), Instruction::Div],
        0,
    );
    assert!(interpreter.execute(failing).is_err());
    let fine = chunk_of(&[8.0], &[Instruction::LoadConst(0)], 0);
    assert_eq!(interpreter.execute(fine), Ok(number(8.0)));
}

#[test]
fn test_postfix_chunk_with_shared_and_reordered_constants() {
    // (7 - 2) / (2 * 7), with the pool in another order than the literals.
    let chunk = chunk_of(
        &[2.0, 7.0],
        &[
            Instruction::LoadConst(1),
            Instruction::LoadConst(0),
            Instruction::Sub,
            Instruction::LoadConst(0),
            Instruction::LoadConst(1),
            Instruction::Mul,
            Instruction::Div,
        ],
        0,
    );
    let mut interpreter = Ignition::new();
    assert_eq!(interpreter.execute_with_budget(chunk, 0, 7), Ok(number((7.0 - 2.0) / (2.0 * 7.0))));
    assert_eq!(interpreter.printed().len(), 0);
    let zero = chunk_of(
        &[2.0, 7.0],
        &[
            Instruction::LoadConst(1),
            Instruction::LoadConst(0),
            Instruction::LoadConst(0),
            Instruction::Sub,
            Instruction::Div,
        ],
        0,
    );
    assert_eq!(interpreter.execute(zero), Err(RuntimeError::DivisionByZero));
}
