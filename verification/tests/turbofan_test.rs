use v8_rs::turbofan::Specialization;
use v8_rs::{BytecodeChunk, CompileError, IRNode, IRType, Instruction, TurboFan, Value, IR};

fn number(n: f64) -> Value {
    Value::Number(n.to_bits())
}

fn is_constant(node: &IRNode, expected: f64) -> bool {
    match node {
        IRNode::Constant { value, .. } => f64::from_bits(*value) == expected,
        _ => false,
    }
}

#[test]
fn test_turbofan_creation() {
    let tf = TurboFan::new();
    assert_eq!(tf.stack_depth(), 0);
}

#[test]
fn test_lower_constants() {
    let mut tf = TurboFan::new();
    let mut chunk = BytecodeChunk::new();

    let idx = chunk.add_constant(number(42.0));
    chunk.emit(Instruction::LoadConst(idx));

    let ir = tf.lower_to_ir(&chunk).unwrap();

    assert!(ir.nodes.len() > 0);
    assert!(is_constant(&ir.nodes[0], 42.0));
}

#[test]
fn test_lower_arithmetic() {
    let mut tf = TurboFan::new();
    let mut chunk = BytecodeChunk::new();

    let idx1 = chunk.add_constant(number(10.0));
    let idx2 = chunk.add_constant(number(20.0));
    chunk.emit(Instruction::LoadConst(idx1));
    chunk.emit(Instruction::LoadConst(idx2));
    chunk.emit(Instruction::Add);

    let ir = tf.lower_to_ir(&chunk).unwrap();

    assert!(ir.nodes.len() >= 3);
    assert!(ir.nodes.iter().any(|n| matches!(n, IRNode::Add { .. })));
}

#[test]
fn test_constant_folding() {
    let mut tf = TurboFan::new();
    let mut chunk = BytecodeChunk::new();

    let idx1 = chunk.add_constant(number(2.0));
    let idx2 = chunk.add_constant(number(3.0));
    chunk.emit(Instruction::LoadConst(idx1));
    chunk.emit(Instruction::LoadConst(idx2));
    chunk.emit(Instruction::Add);

    let ir = tf.compile(&chunk, 0).unwrap();

    let has_folded = ir.nodes.iter().any(|n| is_constant(n, 5.0));

    assert!(has_folded, "Constant folding should produce 5.0");
}

#[test]
fn test_type_guard_insertion() {
    let mut tf = TurboFan::new();
    let mut chunk = BytecodeChunk::new();

    chunk.set_local_count(1);
    chunk.emit(Instruction::LoadLocal(0));

    let ir = tf.lower_to_ir(&chunk).unwrap();

    assert!(ir.nodes.iter().any(|n| matches!(n, IRNode::LoadLocal { .. })));
    assert!(ir.nodes.iter().any(|n| matches!(n, IRNode::TypeGuard { .. })));
}

#[test]
fn turbofan_test_complex_expression() {
    let mut tf = TurboFan::new();
    let mut chunk = BytecodeChunk::new();

    let idx1 = chunk.add_constant(number(2.0));
    let idx2 = chunk.add_constant(number(3.0));
    let idx3 = chunk.add_constant(number(4.0));

    chunk.emit(Instruction::LoadConst(idx1));
    chunk.emit(Instruction::LoadConst(idx2));
    chunk.emit(Instruction::Add);
    chunk.emit(Instruction::LoadConst(idx3));
    chunk.emit(Instruction::Mul);

    let ir = tf.compile(&chunk, 0).unwrap();

    let has_result = ir.nodes.iter().any(|n| is_constant(n, 20.0));

    assert!(has_result, "Should fold to 20.0");
}

#[test]
fn test_redundant_load_elimination() {
    let mut tf = TurboFan::new();
    let mut chunk = BytecodeChunk::new();

    chunk.set_local_count(1);
    chunk.emit(Instruction::LoadLocal(0));
    chunk.emit(Instruction::LoadLocal(0));

    let ir = tf.compile(&chunk, 0).unwrap();

    let load_count = ir.nodes.iter().filter(|n| matches!(n, IRNode::LoadLocal { .. })).count();

    assert!(load_count >= 1, "Should have at least one LoadLocal");
}

#[test]
fn test_type_specialization() {
    let mut tf = TurboFan::new();
    let mut chunk = BytecodeChunk::new();

    chunk.set_local_count(2);
    chunk.emit(Instruction::LoadLocal(0));
    chunk.emit(Instruction::LoadLocal(1));
    chunk.emit(Instruction::Add);

    let ir = tf.compile(&chunk, 0).unwrap();

    let guard_count = ir.nodes.iter().filter(|n| matches!(n, IRNode::TypeGuard { .. })).count();

    assert!(guard_count >= 2, "Should have type guards for both loads");
}

#[test]
fn test_function_inlining_candidates() {
    let mut tf = TurboFan::new();
    let mut chunk = BytecodeChunk::new();

    let idx1 = chunk.add_constant(Value::Function(1));
    let idx2 = chunk.add_constant(number(42.0));

    chunk.emit(Instruction::LoadConst(idx1));
    chunk.emit(Instruction::LoadConst(idx2));
    chunk.emit(Instruction::Call(1));

    let _ir = tf.lower_to_ir(&chunk).unwrap();

    assert!(true);
}

#[test]
fn test_folding_rewrites_every_node_in_place() {
    let mut tf = TurboFan::default();
    let mut chunk = BytecodeChunk::new();
    for c in [10.0, 20.0, 2.0] {
        chunk.add_constant(number(c));
    }
    for i in [
        Instruction::LoadConst(0),
        Instruction::LoadConst(1),
        Instruction::LoadConst(2),
        Instruction::Mul,
        Instruction::Add,
    ] {
        chunk.emit(i);
    }
    let lowered = tf.lower_to_ir(&chunk).unwrap();
    assert_eq!(
        lowered.nodes,
        vec![
            IRNode::Constant { value: 10.0f64.to_bits(), id: 0 },
            IRNode::Constant { value: 20.0f64.to_bits(), id: 1 },
            IRNode::Constant { value: 2.0f64.to_bits(), id: 2 },
            IRNode::Mul { left: 1, right: 2, id: 3 },
            IRNode::Add { left: 0, right: 3, id: 4 },
        ]
    );
    assert_eq!(tf.stack_depth(), 1);
    let ir = tf.compile(&chunk, 0).unwrap();
    assert_eq!(
        ir.nodes,
        vec![
            IRNode::Constant { value: 10.0f64.to_bits(), id: 0 },
            IRNode::Constant { value: 20.0f64.to_bits(), id: 1 },
            IRNode::Constant { value: 2.0f64.to_bits(), id: 2 },
            IRNode::Constant { value: 40.0f64.to_bits(), id: 3 },
            IRNode::Constant { value: 50.0f64.to_bits(), id: 4 },
        ]
    );
}

#[test]
fn test_division_by_zero_is_not_folded() {
    let mut tf = TurboFan::new();
    let mut chunk = BytecodeChunk::new();
    for c in [10.0, 0.0, 1.0] {
        chunk.add_constant(number(c));
    }
    for i in [
        Instruction::LoadConst(0),
        Instruction::LoadConst(1),
        Instruction::Div,
        Instruction::LoadConst(2),
        Instruction::Add,
    ] {
        chunk.emit(i);
    }
    let ir = tf.compile(&chunk, 0).unwrap();
    assert_eq!(ir.nodes[2], IRNode::Div { left: 0, right: 1, id: 2 });
    assert_eq!(ir.nodes[4], IRNode::Add { left: 2, right: 3, id: 4 });
}

#[test]
fn test_folding_goes_on_to_a_fixpoint() {
    let tf = TurboFan::new();
    let mut ir = IR::new();
    let a = ir.add_constant(1.0f64.to_bits());
    let b = ir.add_constant(2.0f64.to_bits());
    let c = ir.add_add(a, b);
    let d = ir.add_mul(c, c);
    let e = ir.add_sub(d, a);
    let load = ir.add_load_local(0);
    let f = ir.add_div(e, load);
    tf.constant_folding(&mut ir);
    assert!(is_constant(&ir.nodes[c], 3.0));
    assert!(is_constant(&ir.nodes[d], 9.0));
    assert!(is_constant(&ir.nodes[e], 8.0));
    assert_eq!(ir.nodes[f], IRNode::Div { left: e, right: load, id: f });
    assert_eq!(ir.nodes[e].id(), e);
    let again = ir.nodes.clone();
    tf.constant_folding(&mut ir);
    assert_eq!(ir.nodes, again);
}

#[test]
fn test_jumps_and_prints_are_refused() {
    let mut tf = TurboFan::new();
    let mut chunk = BytecodeChunk::new();
    chunk.add_constant(number(1.0));
    chunk.emit(Instruction::LoadConst(0));
    chunk.emit(Instruction::Jump(0));
    assert_eq!(
        tf.lower_to_ir(&chunk).err(),
        Some(CompileError::UnsupportedFeature { feature: "jump".to_string() })
    );
    assert!(tf.compile(&chunk, 1).is_err());
    let mut chunk = BytecodeChunk::new();
    chunk.emit(Instruction::Print);
    chunk.emit(Instruction::JumpIfFalse(2));
    assert_eq!(
        tf.lower_to_ir(&chunk).err(),
        Some(CompileError::UnsupportedFeature { feature: "print".to_string() })
    );
    let mut chunk = BytecodeChunk::new();
    chunk.emit(Instruction::JumpIfFalse(2));
    assert_eq!(
        tf.compile(&chunk, 0).err(),
        Some(CompileError::UnsupportedFeature { feature: "jump".to_string() })
    );
}

#[test]
fn test_lowering_of_locals_calls_and_returns() {
    let mut tf = TurboFan::new();
    let mut chunk = BytecodeChunk::new();
    chunk.add_constant(number(1.0));
    chunk.add_constant(Value::Function(3));
    chunk.set_local_count(1);
    for i in [
        Instruction::LoadLocal(0),
        Instruction::LoadConst(0),
        Instruction::LoadConst(1),
        Instruction::LoadConst(7),
        Instruction::LoadConst(0),
        Instruction::Call(2),
        Instruction::StoreLocal(0),
        Instruction::Return,
        Instruction::Return,
        Instruction::Add,
    ] {
        chunk.emit(i);
    }
    let ir = tf.lower_to_ir(&chunk).unwrap();
    assert_eq!(
        ir.nodes,
        vec![
            IRNode::LoadLocal { index: 0, id: 0 },
            IRNode::TypeGuard { value: 0, expected_type: IRType::Number, id: 1 },
            IRNode::Constant { value: 1.0f64.to_bits(), id: 2 },
            IRNode::Constant { value: 1.0f64.to_bits(), id: 3 },
            IRNode::Call { callee: 1, args: vec![2, 3], id: 4 },
            IRNode::StoreLocal { index: 0, value: 4, id: 5 },
            IRNode::Return { value: 4, id: 6 },
        ]
    );
    assert_eq!(tf.stack_depth(), 0);
}

#[test]
fn test_store_pushes_back_the_id_it_popped() {
    let mut tf = TurboFan::new();
    let mut chunk = BytecodeChunk::new();
    chunk.add_constant(number(5.0));
    chunk.set_local_count(1);
    chunk.emit(Instruction::LoadConst(0));
    chunk.emit(Instruction::StoreLocal(0));
    chunk.emit(Instruction::Return);
    let ir = tf.lower_to_ir(&chunk).unwrap();
    assert_eq!(
        ir.nodes,
        vec![
            IRNode::Constant { value: 5.0f64.to_bits(), id: 0 },
            IRNode::StoreLocal { index: 0, value: 0, id: 1 },
            IRNode::Return { value: 0, id: 2 },
        ]
    );
    assert_eq!(tf.stack_depth(), 0);
    let mut chunk = BytecodeChunk::new();
    chunk.emit(Instruction::StoreLocal(0));
    let ir = tf.lower_to_ir(&chunk).unwrap();
    assert_eq!(ir.nodes.len(), 0);
}

#[test]
fn test_guards_are_followed_through_chains() {
    let tf = TurboFan::new();
    let mut ir = IR::new();
    let load = ir.add_load_local(0);
    let loose = ir.add_type_guard(load, IRType::Unknown);
    let strict = ir.add_type_guard(loose, IRType::Number);
    let other = ir.add_load_local(1);
    let loose_only = ir.add_type_guard(other, IRType::Unknown);
    let looser = ir.add_type_guard(loose_only, IRType::Unknown);
    assert!(tf.has_number_guard(&ir, strict));
    assert!(tf.has_number_guard(&ir, loose));
    assert!(tf.has_number_guard(&ir, load));
    assert!(!tf.has_number_guard(&ir, other));
    assert!(!tf.has_number_guard(&ir, loose_only));
    assert!(!tf.has_number_guard(&ir, looser));
    assert!(!tf.has_number_guard(&ir, 100));
    ir.add_add(load, other);
    ir.add_type_guard(100, IRType::Number);
    assert!(tf.has_number_guard(&ir, 100));
    assert_eq!(
        tf.type_specialization(&ir),
        vec![Specialization { position: 6, left_is_number: true, right_is_number: false }]
    );
    assert_eq!(ir.len(), 8);
}

#[test]
fn test_folding_a_chunk_that_shares_a_constant() {
    let mut tf = TurboFan::new();
    let mut chunk = BytecodeChunk::new();
    chunk.add_constant(number(3.0));
    for i in [
        Instruction::LoadConst(0),
        Instruction::LoadConst(0),
        Instruction::LoadConst(0),
        Instruction::Mul,
        Instruction::Sub,
    ] {
        chunk.emit(i);
    }
    let ir = tf.compile(&chunk, 0).unwrap();
    assert!(is_constant(&ir.nodes[3], 9.0));
    assert!(is_constant(&ir.nodes[4], -6.0));
    assert_eq!(ir.nodes[4].id(), 4);
}

#[test]
fn test_call_with_too_few_values_builds_nothing() {
    let mut tf = TurboFan::new();
    let mut chunk = BytecodeChunk::new();
    chunk.add_constant(number(1.0));
    chunk.emit(Instruction::LoadConst(0));
    chunk.emit(Instruction::Call(4));
    let ir = tf.lower_to_ir(&chunk).unwrap();
    assert_eq!(ir.nodes.len(), 1);
    assert_eq!(tf.stack_depth(), 0);
    let mut chunk = BytecodeChunk::new();
    chunk.add_constant(number(1.0));
    chunk.emit(Instruction::LoadConst(0));
    chunk.emit(Instruction::Mul);
    let ir = tf.lower_to_ir(&chunk).unwrap();
    assert_eq!(ir.nodes.len(), 1);
    assert_eq!(tf.stack_depth(), 0);
}

#[test]
fn test_redundant_loads_are_found_not_removed() {
    let tf = TurboFan::new();
    let mut ir = IR::new();
    let first = ir.add_load_local(0);
    ir.add_load_local(0);
    ir.add_load_local(1);
    let c = ir.add_constant(1.0f64.to_bits());
    ir.add_store_local(0, c);
    ir.add_load_local(0);
    ir.add_load_local(1);
    let found = tf.eliminate_redundant_loads(&ir);
    assert_eq!(found, vec![(1, first), (5, c), (6, 2)]);
    assert_eq!(ir.nodes.len(), 7);
    assert_eq!(ir.nodes[1], IRNode::LoadLocal { index: 0, id: 1 });
}

#[test]
fn test_inline_candidates_have_at_most_two_arguments() {
    let tf = TurboFan::new();
    let mut ir = IR::new();
    let f = ir.add_constant(1.0f64.to_bits());
    ir.add_call(f, vec![]);
    ir.add_call(f, vec![f, f]);
    ir.add_call(f, vec![f, f, f]);
    ir.add_call(f, vec![f]);
    assert_eq!(tf.inline_small_functions(&ir), vec![1, 2, 4]);
}

#[test]
fn test_number_guards_and_specialization() {
    let tf = TurboFan::new();
    let mut ir = IR::new();
    let load = ir.add_load_local(0);
    let guard = ir.add_type_guard(load, IRType::Number);
    let other = ir.add_load_local(1);
    let loose = ir.add_type_guard(other, IRType::Unknown);
    let c = ir.add_constant(1.0f64.to_bits());
    ir.add_add(guard, c);
    ir.add_mul(load, other);
    ir.add_sub(loose, guard);
    assert!(tf.has_number_guard(&ir, guard));
    assert!(tf.has_number_guard(&ir, load));
    assert!(!tf.has_number_guard(&ir, other));
    assert!(!tf.has_number_guard(&ir, loose));
    assert!(!tf.has_number_guard(&ir, c));
    assert!(!tf.has_number_guard(&ir, 99));
    assert_eq!(
        tf.type_specialization(&ir),
        vec![
            Specialization { position: 5, left_is_number: true, right_is_number: false },
            Specialization { position: 6, left_is_number: true, right_is_number: false },
            Specialization { position: 7, left_is_number: false, right_is_number: true },
        ]
    );
}

#[test]
fn test_optimize_reports_on_the_folded_ir() {
    let tf = TurboFan::new();
    let mut ir = IR::new();
    let a = ir.add_constant(4.0f64.to_bits());
    let b = ir.add_constant(2.0f64.to_bits());
    let q = ir.add_div(a, b);
    let l = ir.add_load_local(0);
    let g = ir.add_type_guard(l, IRType::Number);
    ir.add_add(q, g);
    ir.add_load_local(0);
    ir.add_call(q, vec![g]);
    let report = tf.optimize(&mut ir);
    assert!(is_constant(&ir.nodes[q], 2.0));
    assert_eq!(report.redundant_loads, vec![(6, l)]);
    assert_eq!(report.inline_candidates, vec![7]);
    assert_eq!(
        report.specializations,
        vec![Specialization { position: 5, left_is_number: false, right_is_number: true }]
    );
}
