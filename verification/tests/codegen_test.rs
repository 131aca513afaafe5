use v8_rs::{BytecodeGenerator, Instruction, Parser, Scope, Value};

fn compile(source: &str) -> v8_rs::BytecodeChunk {
    let mut parser = Parser::new(source.to_string());
    let ast = parser.parse().unwrap();
    let mut generator = BytecodeGenerator::new(Scope::global());
    generator.generate(&ast.root)
}

#[test]
fn test_compile_number() {
    let mut parser = Parser::new("42".to_string());
    let ast = parser.parse().unwrap();

    let mut gen = BytecodeGenerator::new(Scope::global());
    let chunk = gen.generate(&ast.root);

    assert_eq!(chunk.instructions.len(), 1);
    assert_eq!(chunk.instructions[0], Instruction::LoadConst(0));
    assert_eq!(chunk.constants[0], Value::Number(42.0f64.to_bits()));
}

#[test]
fn test_compile_binary_expr() {
    let mut parser = Parser::new("1 + 2".to_string());
    let ast = parser.parse().unwrap();

    let mut gen = BytecodeGenerator::new(Scope::global());
    let chunk = gen.generate(&ast.root);

    assert!(chunk.instructions.len() >= 3);
    assert_eq!(chunk.instructions[chunk.instructions.len() - 1], Instruction::Add);
}

#[test]
fn test_compile_let_decl() {
    let mut parser = Parser::new("let x = 10;".to_string());
    let ast = parser.parse().unwrap();

    let mut gen = BytecodeGenerator::new(Scope::global());
    let chunk = gen.generate(&ast.root);

    assert!(chunk.instructions.len() >= 2);
    assert!(matches!(
        chunk.instructions[chunk.instructions.len() - 1],
        Instruction::StoreLocal(0)
    ));
}

#[test]
fn test_compile_call_expr() {
    let mut parser = Parser::new("foo(1, 2)".to_string());
    let ast = parser.parse().unwrap();

    let mut gen = BytecodeGenerator::new(Scope::global());
    let chunk = gen.generate(&ast.root);

    assert!(matches!(chunk.instructions[chunk.instructions.len() - 1], Instruction::Call(2)));
}

#[test]
fn test_bytecode_generator_instantiation() {
    let scope = Scope::global();
    let generator = BytecodeGenerator::new(scope);
    drop(generator);
    assert!(true);
}

#[test]
fn test_expression_is_compiled_in_postfix_order() {
    let chunk = compile("10 + 20 * 2");
    assert_eq!(
        chunk.instructions,
        vec![
            Instruction::LoadConst(0),
            Instruction::LoadConst(1),
            Instruction::LoadConst(2),
            Instruction::Mul,
            Instruction::Add,
        ]
    );
    assert_eq!(
        chunk.constants,
        vec![
            Value::Number(10.0f64.to_bits()),
            Value::Number(20.0f64.to_bits()),
            Value::Number(2.0f64.to_bits())
        ]
    );
    assert_eq!(chunk.local_count, 0);
}

#[test]
fn test_names_resolve_to_slots() {
    let chunk = compile("let a = 1; let b = a - unknown; b / a;");
    assert_eq!(
        chunk.instructions,
        vec![
            Instruction::LoadConst(0),
            Instruction::StoreLocal(0),
            Instruction::LoadLocal(0),
            Instruction::Sub,
            Instruction::StoreLocal(1),
            Instruction::LoadLocal(1),
            Instruction::LoadLocal(0),
            Instruction::Div,
        ]
    );
    assert_eq!(chunk.local_count, 2);
}

#[test]
fn test_comparisons_have_no_instruction() {
    let span = v8_rs::Span::new(0, 1);
    let leaf = |n: f64| Box::new(v8_rs::ASTNode::NumberLiteral { value: n.to_bits(), span });
    for op in [v8_rs::BinOp::Equal, v8_rs::BinOp::Less, v8_rs::BinOp::Greater] {
        let node = v8_rs::ASTNode::BinaryExpr { op, left: leaf(1.0), right: leaf(2.0), span };
        let chunk = BytecodeGenerator::new(Scope::global()).generate(&node);
        assert_eq!(chunk.instructions, vec![Instruction::LoadConst(0), Instruction::LoadConst(1)]);
    }
}

#[test]
fn test_print_is_a_builtin_with_one_argument() {
    assert_eq!(
        compile("print(7)").instructions,
        vec![Instruction::LoadConst(0), Instruction::Print]
    );
    assert_eq!(
        compile("print(7, 8)").instructions,
        vec![Instruction::LoadConst(0), Instruction::LoadConst(1), Instruction::Call(2)]
    );
    assert_eq!(compile("print()").instructions, vec![Instruction::Call(0)]);
    assert_eq!(
        compile("let f = 1; f(2)").instructions,
        vec![
            Instruction::LoadConst(0),
            Instruction::StoreLocal(0),
            Instruction::LoadLocal(0),
            Instruction::LoadConst(1),
            Instruction::Call(1),
        ]
    );
}

#[test]
fn test_if_jumps_over_its_branches() {
    assert_eq!(
        compile("if (1) { 2 } else { 3; 4 }").instructions,
        vec![
            Instruction::LoadConst(0),
            Instruction::JumpIfFalse(2),
            Instruction::LoadConst(1),
            Instruction::Jump(2),
            Instruction::LoadConst(2),
            Instruction::LoadConst(3),
        ]
    );
    assert_eq!(
        compile("if (1) { 2 }").instructions,
        vec![
            Instruction::LoadConst(0),
            Instruction::JumpIfFalse(2),
            Instruction::LoadConst(1),
            Instruction::Jump(0),
        ]
    );
}

#[test]
fn test_for_jumps_back_to_its_condition() {
    assert_eq!(
        compile("for (let i = 3; i; i - 1) { 9 }").instructions,
        vec![
            Instruction::LoadConst(0),
            Instruction::StoreLocal(0),
            Instruction::LoadLocal(0),
            Instruction::JumpIfFalse(5),
            Instruction::LoadConst(1),
            Instruction::LoadLocal(0),
            Instruction::LoadConst(2),
            Instruction::Sub,
            Instruction::Jump(-7),
        ]
    );
}

#[test]
fn test_functions_compile_to_nothing_and_returns_return() {
    assert_eq!(compile("function f(a) { return a; }").instructions, vec![]);
    assert_eq!(
        compile("{ return 1; }").instructions,
        vec![Instruction::LoadConst(0), Instruction::Return]
    );
}

#[test]
fn test_generate_again_appends() {
    let mut parser = Parser::new("1".to_string());
    let ast = parser.parse().unwrap();
    let mut scope = Scope::global();
    scope.declare("x".to_string());
    let mut generator = BytecodeGenerator::new(scope);
    let first = generator.generate(&ast.root);
    assert_eq!(first.instructions, vec![Instruction::LoadConst(0)]);
    assert_eq!(first.local_count, 1);
    let second = generator.generate(&ast.root);
    assert_eq!(second.instructions, vec![Instruction::LoadConst(0), Instruction::LoadConst(1)]);
}
