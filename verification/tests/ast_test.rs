use v8_rs::{ASTNode, BinOp, Span, AST};

#[test]
fn test_number_literal() {
    let node = ASTNode::NumberLiteral { value: 42.0f64.to_bits(), span: Span::new(0, 2) };
    assert_eq!(node.span(), Span::new(0, 2));
}

#[test]
fn test_identifier() {
    let node = ASTNode::Identifier { name: "x".to_string(), span: Span::new(0, 1) };
    assert_eq!(node.span(), Span::new(0, 1));
}

#[test]
fn test_binary_expr() {
    let left = Box::new(ASTNode::NumberLiteral { value: 1.0f64.to_bits(), span: Span::new(0, 1) });
    let right = Box::new(ASTNode::NumberLiteral { value: 2.0f64.to_bits(), span: Span::new(4, 5) });

    let node = ASTNode::BinaryExpr { op: BinOp::Add, left, right, span: Span::new(0, 5) };

    assert_eq!(node.span(), Span::new(0, 5));
}

#[test]
fn test_let_decl() {
    let init = Box::new(ASTNode::NumberLiteral { value: 10.0f64.to_bits(), span: Span::new(8, 10) });

    let node = ASTNode::LetDecl { name: "x".to_string(), init, span: Span::new(0, 10) };

    assert_eq!(node.span(), Span::new(0, 10));
}

#[test]
fn test_function_decl() {
    let body = Box::new(ASTNode::BlockStmt { statements: vec![], span: Span::new(20, 22) });

    let node = ASTNode::FunctionDecl {
        name: "foo".to_string(),
        params: vec!["a".to_string(), "b".to_string()],
        body,
        span: Span::new(0, 22),
    };

    assert_eq!(node.span(), Span::new(0, 22));
}

#[test]
fn test_ast_creation() {
    let root = ASTNode::Program(vec![ASTNode::NumberLiteral {
        value: 42.0f64.to_bits(),
        span: Span::new(0, 2),
    }]);

    let ast = AST::new(root);
    assert!(matches!(ast.root, ASTNode::Program(_)));
}

#[test]
fn test_ast_node_variants() {
    let span = Span::new(0, 1);

    let _program = ASTNode::Program(vec![]);
    let _number = ASTNode::NumberLiteral { value: 42.0f64.to_bits(), span };
    let _identifier = ASTNode::Identifier { name: "x".to_string(), span };
    let _binary = ASTNode::BinaryExpr {
        op: BinOp::Add,
        left: Box::new(ASTNode::NumberLiteral { value: 1.0f64.to_bits(), span }),
        right: Box::new(ASTNode::NumberLiteral { value: 2.0f64.to_bits(), span }),
        span,
    };

    assert!(true);
}

#[test]
fn test_spans_of_the_other_nodes() {
    let span = Span::new(3, 9);
    let leaf = || Box::new(ASTNode::Identifier { name: "x".to_string(), span: Span::new(1, 2) });
    assert_eq!(ASTNode::Program(vec![*leaf()]).span(), Span::new(0, 0));
    assert_eq!(ASTNode::ReturnStmt { value: leaf(), span }.span(), span);
    assert_eq!(ASTNode::CallExpr { callee: leaf(), args: vec![], span }.span(), span);
    assert_eq!(
        ASTNode::IfStmt { cond: leaf(), then_branch: leaf(), else_branch: None, span }.span(),
        span
    );
    assert_eq!(
        ASTNode::ForStmt { init: leaf(), cond: leaf(), update: leaf(), body: leaf(), span }.span(),
        span
    );
}

#[test]
fn test_clone_copies_the_whole_tree() {
    let tree = ASTNode::Program(vec![
        ASTNode::FunctionDecl {
            name: "f".to_string(),
            params: vec!["a".to_string(), "b".to_string()],
            body: Box::new(ASTNode::BlockStmt {
                statements: vec![ASTNode::ReturnStmt {
                    value: Box::new(ASTNode::BinaryExpr {
                        op: BinOp::Mul,
                        left: Box::new(ASTNode::Identifier {
                            name: "a".to_string(),
                            span: Span::new(1, 2),
                        }),
                        right: Box::new(ASTNode::NumberLiteral {
                            value: 2.5f64.to_bits(),
                            span: Span::new(3, 6),
                        }),
                        span: Span::new(1, 6),
                    }),
                    span: Span::new(0, 7),
                }],
                span: Span::new(0, 9),
            }),
            span: Span::new(0, 9),
        },
        ASTNode::IfStmt {
            cond: Box::new(ASTNode::CallExpr {
                callee: Box::new(ASTNode::Identifier { name: "g".to_string(), span: Span::new(0, 1) }),
                args: vec![ASTNode::NumberLiteral { value: 1.0f64.to_bits(), span: Span::new(2, 3) }],
                span: Span::new(0, 4),
            }),
            then_branch: Box::new(ASTNode::BlockStmt { statements: vec![], span: Span::new(5, 7) }),
            else_branch: Some(Box::new(ASTNode::LetDecl {
                name: "x".to_string(),
                init: Box::new(ASTNode::NumberLiteral { value: 0, span: Span::new(8, 9) }),
                span: Span::new(8, 9),
            })),
            span: Span::new(0, 9),
        },
    ]);
    assert_eq!(tree.clone(), tree);
    assert_eq!(tree.duplicate(), tree);
    let ast = AST::new(tree);
    assert_eq!(ast.clone(), ast);
}
