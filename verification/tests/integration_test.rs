use v8_rs::{Engine, Value};

fn number(n: f64) -> Value {
    Value::Number(n.to_bits())
}

#[test]
fn test_simple_number() {
    let mut engine = Engine::new();
    let result = engine.execute("42").unwrap();
    assert_eq!(result, number(42.0));
}

#[test]
fn test_addition() {
    let mut engine = Engine::new();
    let result = engine.execute("10 + 20").unwrap();
    assert_eq!(result, number(30.0));
}

#[test]
fn test_subtraction() {
    let mut engine = Engine::new();
    let result = engine.execute("50 - 15").unwrap();
    assert_eq!(result, number(35.0));
}

#[test]
fn test_multiplication() {
    let mut engine = Engine::new();
    let result = engine.execute("6 * 7").unwrap();
    assert_eq!(result, number(42.0));
}

#[test]
fn test_division() {
    let mut engine = Engine::new();
    let result = engine.execute("100 / 4").unwrap();
    assert_eq!(result, number(25.0));
}

#[test]
fn integration_test_test_complex_expression() {
    let mut engine = Engine::new();
    let result = engine.execute("(5 + 3) * 2").unwrap();
    assert_eq!(result, number(16.0));
}

#[test]
fn test_nested_expression() {
    let mut engine = Engine::new();
    let result = engine.execute("((10 + 5) * 2) - 10").unwrap();
    assert_eq!(result, number(20.0));
}

#[test]
fn test_let_declaration() {
    let mut engine = Engine::new();
    let result = engine.execute("let x = 42;");
    assert!(result.is_ok());
}

#[test]
fn test_division_by_zero() {
    let mut engine = Engine::new();
    let result = engine.execute("10 / 0");
    assert!(result.is_err());
}

#[test]
fn test_parse_error() {
    let mut engine = Engine::new();
    let result = engine.execute("let = 10");
    assert!(result.is_err());
}

#[test]
fn test_multiple_operations() {
    let mut engine = Engine::new();

    let result1 = engine.execute("10 + 5").unwrap();
    assert_eq!(result1, number(15.0));

    let result2 = engine.execute("20 * 2").unwrap();
    assert_eq!(result2, number(40.0));

    let result3 = engine.execute("100 - 50").unwrap();
    assert_eq!(result3, number(50.0));
}

#[test]
fn test_floating_point() {
    let mut engine = Engine::new();
    let result = engine.execute("3.14 * 2").unwrap();
    assert_eq!(result, number(6.28));
}

#[test]
fn test_operator_precedence() {
    let mut engine = Engine::new();
    let result = engine.execute("2 + 3 * 4").unwrap();
    assert_eq!(result, number(14.0));
}

#[test]
fn test_parentheses_override_precedence() {
    let mut engine = Engine::new();
    let result = engine.execute("(2 + 3) * 4").unwrap();
    assert_eq!(result, number(20.0));
}

#[test]
fn test_module_structure() {
    let _value = number(42.0);
    let _span = v8_rs::Span::new(0, 10);

    let _parse_err = v8_rs::ParseError::UnexpectedEOF;
    let _runtime_err = v8_rs::RuntimeError::DivisionByZero;
    let _compile_err = v8_rs::CompileError::UnsupportedFeature { feature: "test".to_string() };

    let _err: v8_rs::Error = v8_rs::ParseError::UnexpectedEOF.into();

    assert!(true);
}

#[test]
fn test_minimal_execution() {
    let mut engine = Engine::new();
    let result = engine.execute("42");
    assert!(result.is_ok());
    assert_eq!(result.unwrap(), number(42.0));
}

#[test]
fn test_error_handling() {
    let mut engine = Engine::new();

    let parse_result = engine.execute("let = 10");
    assert!(parse_result.is_err());

    let runtime_result = engine.execute("10 / 0");
    assert!(runtime_result.is_err());
}

#[test]
fn test_multiple_engines() {
    let mut engine1 = Engine::new();
    let mut engine2 = Engine::new();

    let result1 = engine1.execute("10 + 20").unwrap();
    let result2 = engine2.execute("30 + 40").unwrap();

    assert_eq!(result1, number(30.0));
    assert_eq!(result2, number(70.0));
}

#[test]
fn test_source_arithmetic_matches_direct_evaluation() {
    let mut engine = Engine::new();
    assert_eq!(engine.execute("0.1 + 0.2"), Ok(number(0.1 + 0.2)));
    assert_eq!(engine.execute("1 / 3 * 3"), Ok(number(1.0 / 3.0 * 3.0)));
    assert_eq!(engine.execute("2 - 5 / 4 + 7 * 0.5"), Ok(number(2.0 - 5.0 / 4.0 + 7.0 * 0.5)));
    assert_eq!(
        engine.execute("123456789 * 987654321 / 0.000001"),
        Ok(number(123456789.0 * 987654321.0 / 0.000001))
    );
    assert_eq!(engine.execute("1 / (2 - 2)").is_err(), true);
    assert_eq!(engine.execute("0 / 5"), Ok(number(0.0)));
}
