use v8_rs::{CodeGenerator, CodegenBackend, CompiledFunction, IRType, IR};

#[test]
fn test_codegen_creation() {
    let codegen = CodeGenerator::mock();
    assert!(matches!(codegen.backend(), CodegenBackend::Mock));
}

#[test]
fn test_generate_empty_ir() {
    let codegen = CodeGenerator::mock();
    let ir = IR::new();
    let compiled = codegen.generate(&ir, 0);

    assert_eq!(compiled.func_id, 0);
    assert_eq!(compiled.code.len(), 0);
}

#[test]
fn test_generate_constant() {
    let codegen = CodeGenerator::mock();
    let mut ir = IR::new();
    ir.add_constant(42.0f64.to_bits());

    let compiled = codegen.generate(&ir, 0);

    assert!(compiled.code.len() > 0);
    assert_eq!(compiled.code[0], 0x01);
}

#[test]
fn test_generate_arithmetic() {
    let codegen = CodeGenerator::mock();
    let mut ir = IR::new();

    let left = ir.add_constant(10.0f64.to_bits());
    let right = ir.add_constant(20.0f64.to_bits());
    ir.add_add(left, right);

    let compiled = codegen.generate(&ir, 0);

    assert!(compiled.code.len() > 0);
    assert!(compiled.code.contains(&0x10));
}

#[test]
fn test_generate_type_guard() {
    let codegen = CodeGenerator::mock();
    let mut ir = IR::new();

    let value = ir.add_constant(42.0f64.to_bits());
    ir.add_type_guard(value, IRType::Number);

    let compiled = codegen.generate(&ir, 0);

    assert!(compiled.code.contains(&0x50));
}

#[test]
fn test_compiled_function() {
    let func = CompiledFunction::new(5);
    assert_eq!(func.func_id, 5);
    assert_eq!(func.entry_point, 0);
    assert_eq!(func.code.len(), 0);
}

#[test]
fn test_each_node_kind_has_its_code() {
    let mut ir = IR::new();
    let c = ir.add_constant(42.0f64.to_bits());
    ir.add_add(c, c);
    ir.add_sub(c, c);
    ir.add_mul(c, c);
    ir.add_div(c, c);
    ir.add_load_local(3);
    ir.add_store_local(258, c);
    ir.add_call(c, vec![c, c, c]);
    ir.add_return(c);
    ir.add_type_guard(c, IRType::Number);
    ir.add_type_guard(c, IRType::Unknown);
    let mut expected: Vec<u8> = vec![0x01];
    expected.extend_from_slice(&42.0f64.to_le_bytes());
    expected.extend_from_slice(&[
        0x10, 0x11, 0x12, 0x13, 0x20, 3, 0x21, 2, 0x30, 3, 0x40, 0x50, 1, 0x50, 0,
    ]);
    for backend in [CodegenBackend::Mock, CodegenBackend::Cranelift, CodegenBackend::Dynasm] {
        let compiled = CodeGenerator::new(backend).generate(&ir, 7);
        assert_eq!(compiled.code, expected);
        assert_eq!(compiled.func_id, 7);
        assert_eq!(compiled.entry_point, 0);
    }
    assert_eq!(CodeGenerator::default().backend(), CodegenBackend::Mock);
}

#[test]
fn test_constant_bytes_are_little_endian() {
    let mut ir = IR::new();
    ir.add_constant(0x0102_0304_0506_0708);
    ir.add_constant((-3.14f64).to_bits());
    let compiled = CodeGenerator::mock().generate(&ir, 0);
    let mut expected: Vec<u8> = vec![0x01, 8, 7, 6, 5, 4, 3, 2, 1, 0x01];
    expected.extend_from_slice(&(-3.14f64).to_le_bytes());
    assert_eq!(compiled.code, expected);
}
