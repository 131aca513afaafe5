//! The parser: from tokens to a syntax tree, by recursive descent.

use vstd::prelude::*;
use vstd::string::StringExecFns;
use crate::ast::{node_models, text_views, ASTNode, ASTView, BinOp, AST};
use crate::error::{ParseError, ParseErrorView};
use crate::lexer::{token_views, tokens_from, Lexer, Token, TokenKind, TokenKindView, TokenView};
use crate::types::Span;

verus! {

/// The result of parsing from some position: what was parsed and the
/// position behind it, or the error.
pub struct Parsed<T> {
    pub result: Result<T, ParseErrorView>,
    pub position: int,
}

/// The token that stands for the end, where the tokens are used up.
pub open spec fn end_token() -> TokenView {
    TokenView { kind: TokenKindView::Eof, span: Span { start: 0, end: 0 } }
}

/// The token at `position`, or the end token behind the last one.
pub open spec fn token_at(tokens: Seq<TokenView>, position: int) -> TokenView {
    if 0 <= position < tokens.len() {
        tokens[position]
    } else {
        end_token()
    }
}

/// How many tokens stand at `position` and behind it; before the first
/// token, how far it is to the end.
pub open spec fn remaining(tokens: Seq<TokenView>, position: int) -> nat {
    if position < tokens.len() {
        (tokens.len() - position) as nat
    } else {
        0
    }
}

/// `reached` if it lies behind `position`, as the end of a parse that
/// consumed a token does; else the position behind `position`.
pub open spec fn later(reached: int, position: int) -> int {
    if reached > position {
        reached
    } else {
        position + 1
    }
}

/// `reached` if it does not lie before `position`, else `position`.
pub open spec fn no_earlier(reached: int, position: int) -> int {
    if reached >= position {
        reached
    } else {
        position
    }
}

/// The error for a token other than the expected one.
pub open spec fn unexpected(expected: Seq<char>, found: TokenView) -> ParseErrorView {
    ParseErrorView::UnexpectedToken {
        expected,
        found: found.kind.describe(),
        span: found.span,
    }
}

/// Whether the token at `position` is of the variant of `kind`; if not,
/// the error that names both.
pub open spec fn expect_at(tokens: Seq<TokenView>, position: int, kind: TokenKindView) -> Option<
    ParseErrorView,
> {
    if token_at(tokens, position).kind.same_variant(kind) {
        None
    } else {
        Some(unexpected(kind.describe(), token_at(tokens, position)))
    }
}

/// The position behind a semicolon at `position`, or `position` if none
/// stands there.
pub open spec fn skip_semicolon(tokens: Seq<TokenView>, position: int) -> int {
    if token_at(tokens, position).kind is Semicolon {
        position + 1
    } else {
        position
    }
}

/// The position behind a comma at `position`, or `position` if none
/// stands there.
pub open spec fn skip_comma(tokens: Seq<TokenView>, position: int) -> int {
    if token_at(tokens, position).kind is Comma {
        position + 1
    } else {
        position
    }
}

/// The end of the token before `position`, which ends a statement that was
/// parsed up to there; `fallback` if there is no such token.
pub open spec fn previous_end(tokens: Seq<TokenView>, position: int, fallback: usize) -> usize {
    let index = if position > 0 {
        position - 1
    } else {
        0
    };
    if 0 <= index < tokens.len() {
        tokens[index].span.end
    } else {
        fallback
    }
}

/// A primary expression: a number, a name, or an expression in
/// parentheses.
pub open spec fn parse_primary(tokens: Seq<TokenView>, position: int) -> Parsed<ASTView>
    decreases remaining(tokens, position), 0nat,
{
    let token = token_at(tokens, position);
    match token.kind {
        TokenKindView::Number(value) => Parsed {
            result: Ok(ASTView::NumberLiteral { value, span: token.span }),
            position: position + 1,
        },
        TokenKindView::Identifier(name) => Parsed {
            result: Ok(ASTView::Identifier { name, span: token.span }),
            position: position + 1,
        },
        TokenKindView::LeftParen => {
            let inner = parse_expression(tokens, position + 1);
            match inner.result {
                Ok(expression) => match expect_at(
                    tokens,
                    inner.position,
                    TokenKindView::RightParen,
                ) {
                    None => Parsed { result: Ok(expression), position: inner.position + 1 },
                    Some(error) => Parsed { result: Err(error), position: inner.position },
                },
                Err(error) => Parsed { result: Err(error), position: inner.position },
            }
        },
        _ => Parsed { result: Err(unexpected("expression"@, token)), position },
    }
}

/// The arguments of a call, up to the closing parenthesis: expressions,
/// each with a comma behind it or none.
pub open spec fn parse_arguments(
    tokens: Seq<TokenView>,
    position: int,
    parsed: Seq<ASTView>,
) -> Parsed<Seq<ASTView>>
    decreases remaining(tokens, position), 6nat,
{
    if token_at(tokens, position).kind is RightParen {
        Parsed { result: Ok(parsed), position }
    } else {
        let argument = parse_expression(tokens, position);
        match argument.result {
            Ok(expression) => {
                if 0 <= position < tokens.len() {
                    parse_arguments(
                        tokens,
                        later(skip_comma(tokens, argument.position), position),
                        parsed.push(expression),
                    )
                } else {
                    Parsed { result: Ok(parsed), position }
                }
            },
            Err(error) => Parsed { result: Err(error), position: argument.position },
        }
    }
}

/// The calls behind an expression: each pair of parentheses makes a call
/// of what stands before it.
pub open spec fn parse_call_rest(tokens: Seq<TokenView>, position: int, callee: ASTView) -> Parsed<
    ASTView,
>
    decreases remaining(tokens, position), 1nat,
{
    if token_at(tokens, position).kind is LeftParen {
        let arguments = parse_arguments(tokens, position + 1, Seq::empty());
        match arguments.result {
            Ok(args) => {
                let close = token_at(tokens, arguments.position);
                match expect_at(tokens, arguments.position, TokenKindView::RightParen) {
                    None => parse_call_rest(
                        tokens,
                        later(arguments.position + 1, position),
                        ASTView::CallExpr {
                            callee: Box::new(callee),
                            args,
                            span: callee.span().merge_spec(close.span),
                        },
                    ),
                    Some(error) => Parsed { result: Err(error), position: arguments.position },
                }
            },
            Err(error) => Parsed { result: Err(error), position: arguments.position },
        }
    } else {
        Parsed { result: Ok(callee), position }
    }
}

/// A call expression: a primary expression and the calls behind it.
pub open spec fn parse_call(tokens: Seq<TokenView>, position: int) -> Parsed<ASTView>
    decreases remaining(tokens, position), 2nat,
{
    let primary = parse_primary(tokens, position);
    match primary.result {
        Ok(expression) => parse_call_rest(
            tokens,
            no_earlier(primary.position, position),
            expression,
        ),
        Err(error) => Parsed { result: Err(error), position: primary.position },
    }
}

/// The factors behind a product: `*` or `/` and a call expression, again
/// and again; the operators associate to the left.
pub open spec fn parse_multiplicative_rest(
    tokens: Seq<TokenView>,
    position: int,
    left: ASTView,
) -> Parsed<ASTView>
    decreases remaining(tokens, position), 1nat,
{
    let kind = token_at(tokens, position).kind;
    if kind is Star || kind is Slash {
        let op = if kind is Star {
            BinOp::Mul
        } else {
            BinOp::Div
        };
        let right = parse_call(tokens, position + 1);
        match right.result {
            Ok(expression) => parse_multiplicative_rest(
                tokens,
                later(right.position, position),
                ASTView::BinaryExpr {
                    op,
                    left: Box::new(left),
                    right: Box::new(expression),
                    span: left.span().merge_spec(expression.span()),
                },
            ),
            Err(error) => Parsed { result: Err(error), position: right.position },
        }
    } else {
        Parsed { result: Ok(left), position }
    }
}

/// A product: call expressions with `*` or `/` between them.
pub open spec fn parse_multiplicative(tokens: Seq<TokenView>, position: int) -> Parsed<ASTView>
    decreases remaining(tokens, position), 3nat,
{
    let first = parse_call(tokens, position);
    match first.result {
        Ok(expression) => parse_multiplicative_rest(
            tokens,
            no_earlier(first.position, position),
            expression,
        ),
        Err(error) => Parsed { result: Err(error), position: first.position },
    }
}

/// The terms behind a sum: `+` or `-` and a product, again and again; the
/// operators associate to the left.
pub open spec fn parse_additive_rest(tokens: Seq<TokenView>, position: int, left: ASTView) -> Parsed<
    ASTView,
>
    decreases remaining(tokens, position), 1nat,
{
    let kind = token_at(tokens, position).kind;
    if kind is Plus || kind is Minus {
        let op = if kind is Plus {
            BinOp::Add
        } else {
            BinOp::Sub
        };
        let right = parse_multiplicative(tokens, position + 1);
        match right.result {
            Ok(expression) => parse_additive_rest(
                tokens,
                later(right.position, position),
                ASTView::BinaryExpr {
                    op,
                    left: Box::new(left),
                    right: Box::new(expression),
                    span: left.span().merge_spec(expression.span()),
                },
            ),
            Err(error) => Parsed { result: Err(error), position: right.position },
        }
    } else {
        Parsed { result: Ok(left), position }
    }
}

/// A sum: products with `+` or `-` between them.
pub open spec fn parse_additive(tokens: Seq<TokenView>, position: int) -> Parsed<ASTView>
    decreases remaining(tokens, position), 4nat,
{
    let first = parse_multiplicative(tokens, position);
    match first.result {
        Ok(expression) => parse_additive_rest(
            tokens,
            no_earlier(first.position, position),
            expression,
        ),
        Err(error) => Parsed { result: Err(error), position: first.position },
    }
}

/// An expression: a sum.
pub open spec fn parse_expression(tokens: Seq<TokenView>, position: int) -> Parsed<ASTView>
    decreases remaining(tokens, position), 5nat,
{
    parse_additive(tokens, position)
}


/// The parameters of a function, up to the closing parenthesis: names,
/// each with a comma behind it or none.
pub open spec fn parse_parameters(
    tokens: Seq<TokenView>,
    position: int,
    parsed: Seq<Seq<char>>,
) -> Parsed<Seq<Seq<char>>>
    decreases remaining(tokens, position), 0nat,
{
    let token = token_at(tokens, position);
    match token.kind {
        TokenKindView::RightParen => Parsed { result: Ok(parsed), position },
        TokenKindView::Identifier(name) => parse_parameters(
            tokens,
            skip_comma(tokens, position + 1),
            parsed.push(name),
        ),
        _ => Parsed { result: Err(unexpected("parameter"@, token)), position },
    }
}

/// A declaration: `let`, a name, `=`, an expression, and a semicolon or
/// none.
pub open spec fn parse_let_decl(tokens: Seq<TokenView>, position: int) -> Parsed<ASTView>
    decreases remaining(tokens, position), 10nat,
{
    let start = token_at(tokens, position).span.start;
    let name_token = token_at(tokens, position + 1);
    match expect_at(tokens, position, TokenKindView::Let) {
        Some(error) => Parsed { result: Err(error), position },
        None => match name_token.kind {
            TokenKindView::Identifier(name) => match expect_at(
                tokens,
                position + 2,
                TokenKindView::Equal,
            ) {
                Some(error) => Parsed { result: Err(error), position },
                None => {
                    let init = parse_expression(tokens, position + 3);
                    match init.result {
                        Ok(expression) => {
                            let end = skip_semicolon(tokens, init.position);
                            Parsed {
                                result: Ok(
                                    ASTView::LetDecl {
                                        name,
                                        init: Box::new(expression),
                                        span: Span {
                                            start,
                                            end: previous_end(tokens, end, start),
                                        },
                                    },
                                ),
                                position: end,
                            }
                        },
                        Err(error) => Parsed { result: Err(error), position },
                    }
                },
            },
            _ => Parsed { result: Err(unexpected("identifier"@, name_token)), position },
        },
    }
}

/// A return statement: `return`, an expression, and a semicolon or none.
pub open spec fn parse_return_stmt(tokens: Seq<TokenView>, position: int) -> Parsed<ASTView>
    decreases remaining(tokens, position), 14nat,
{
    let start = token_at(tokens, position).span.start;
    match expect_at(tokens, position, TokenKindView::Return) {
        Some(error) => Parsed { result: Err(error), position },
        None => {
            let value = parse_expression(tokens, position + 1);
            match value.result {
                Ok(expression) => {
                    let end = skip_semicolon(tokens, value.position);
                    Parsed {
                        result: Ok(
                            ASTView::ReturnStmt {
                                value: Box::new(expression),
                                span: Span { start, end: previous_end(tokens, end, start) },
                            },
                        ),
                        position: end,
                    }
                },
                Err(error) => Parsed { result: Err(error), position },
            }
        },
    }
}

/// The statements of a block, up to the closing brace or the end.
pub open spec fn parse_block_statements(
    tokens: Seq<TokenView>,
    position: int,
    parsed: Seq<ASTView>,
) -> Parsed<Seq<ASTView>>
    decreases remaining(tokens, position), 21nat,
{
    let kind = token_at(tokens, position).kind;
    if kind is RightBrace || kind is Eof {
        Parsed { result: Ok(parsed), position }
    } else {
        let statement = parse_statement(tokens, position);
        match statement.result {
            Ok(node) => parse_block_statements(
                tokens,
                later(statement.position, position),
                parsed.push(node),
            ),
            Err(error) => Parsed { result: Err(error), position },
        }
    }
}

/// A block: statements in braces.
pub open spec fn parse_block_stmt(tokens: Seq<TokenView>, position: int) -> Parsed<ASTView>
    decreases remaining(tokens, position), 15nat,
{
    let start = token_at(tokens, position).span.start;
    match expect_at(tokens, position, TokenKindView::LeftBrace) {
        Some(error) => Parsed { result: Err(error), position },
        None => {
            let inner = parse_block_statements(tokens, position + 1, Seq::empty());
            match inner.result {
                Ok(statements) => match expect_at(
                    tokens,
                    inner.position,
                    TokenKindView::RightBrace,
                ) {
                    Some(error) => Parsed { result: Err(error), position },
                    None => Parsed {
                        result: Ok(
                            ASTView::BlockStmt {
                                statements,
                                span: Span {
                                    start,
                                    end: previous_end(tokens, inner.position + 1, start),
                                },
                            },
                        ),
                        position: inner.position + 1,
                    },
                },
                Err(error) => Parsed { result: Err(error), position },
            }
        },
    }
}

/// A function declaration: `function`, a name, the parameters in
/// parentheses, and a block.
pub open spec fn parse_function_decl(tokens: Seq<TokenView>, position: int) -> Parsed<ASTView>
    decreases remaining(tokens, position), 11nat,
{
    let start = token_at(tokens, position).span.start;
    let name_token = token_at(tokens, position + 1);
    match expect_at(tokens, position, TokenKindView::Function) {
        Some(error) => Parsed { result: Err(error), position },
        None => match name_token.kind {
            TokenKindView::Identifier(name) => match expect_at(
                tokens,
                position + 2,
                TokenKindView::LeftParen,
            ) {
                Some(error) => Parsed { result: Err(error), position },
                None => {
                    let parameters = parse_parameters(tokens, position + 3, Seq::empty());
                    match parameters.result {
                        Ok(params) => match expect_at(
                            tokens,
                            parameters.position,
                            TokenKindView::RightParen,
                        ) {
                            Some(error) => Parsed { result: Err(error), position },
                            None => {
                                let body = parse_block_stmt(
                                    tokens,
                                    later(parameters.position + 1, position),
                                );
                                match body.result {
                                    Ok(block) => Parsed {
                                        result: Ok(
                                            ASTView::FunctionDecl {
                                                name,
                                                params,
                                                body: Box::new(block),
                                                span: Span {
                                                    start,
                                                    end: previous_end(tokens, body.position, start),
                                                },
                                            },
                                        ),
                                        position: body.position,
                                    },
                                    Err(error) => Parsed { result: Err(error), position },
                                }
                            },
                        },
                        Err(error) => Parsed { result: Err(error), position },
                    }
                },
            },
            _ => Parsed { result: Err(unexpected("identifier"@, name_token)), position },
        },
    }
}

/// The branch behind `else`, if `else` stands at `position`.
pub open spec fn parse_else(tokens: Seq<TokenView>, position: int) -> Parsed<Option<ASTView>>
    decreases remaining(tokens, position), 16nat,
{
    if token_at(tokens, position).kind is Else {
        let branch = parse_block_stmt(tokens, position + 1);
        match branch.result {
            Ok(block) => Parsed { result: Ok(Some(block)), position: branch.position },
            Err(error) => Parsed { result: Err(error), position },
        }
    } else {
        Parsed { result: Ok(None), position }
    }
}

/// An `if` statement: `if`, a condition in parentheses, a block, and
/// `else` with a block or none.
pub open spec fn parse_if_stmt(tokens: Seq<TokenView>, position: int) -> Parsed<ASTView>
    decreases remaining(tokens, position), 12nat,
{
    let start = token_at(tokens, position).span.start;
    match expect_at(tokens, position, TokenKindView::If) {
        Some(error) => Parsed { result: Err(error), position },
        None => match expect_at(tokens, position + 1, TokenKindView::LeftParen) {
            Some(error) => Parsed { result: Err(error), position },
            None => {
                let cond = parse_expression(tokens, position + 2);
                match cond.result {
                    Ok(condition) => match expect_at(
                        tokens,
                        cond.position,
                        TokenKindView::RightParen,
                    ) {
                        Some(error) => Parsed { result: Err(error), position },
                        None => {
                            let then = parse_block_stmt(tokens, later(cond.position + 1, position));
                            match then.result {
                                Ok(then_branch) => {
                                    let otherwise = parse_else(
                                        tokens,
                                        later(then.position, position),
                                    );
                                    match otherwise.result {
                                        Ok(else_branch) => Parsed {
                                            result: Ok(
                                                ASTView::IfStmt {
                                                    cond: Box::new(condition),
                                                    then_branch: Box::new(then_branch),
                                                    else_branch: match else_branch {
                                                        Some(branch) => Some(Box::new(branch)),
                                                        None => None,
                                                    },
                                                    span: Span {
                                                        start,
                                                        end: previous_end(
                                                            tokens,
                                                            otherwise.position,
                                                            start,
                                                        ),
                                                    },
                                                },
                                            ),
                                            position: otherwise.position,
                                        },
                                        Err(error) => Parsed { result: Err(error), position },
                                    }
                                },
                                Err(error) => Parsed { result: Err(error), position },
                            }
                        },
                    },
                    Err(error) => Parsed { result: Err(error), position },
                }
            },
        },
    }
}

/// What stands behind the first statement of a `for` loop: the condition,
/// a semicolon, the update, the closing parenthesis and the body.
pub open spec fn parse_for_rest(
    tokens: Seq<TokenView>,
    position: int,
    start: usize,
    init: ASTView,
) -> Parsed<ASTView>
    decreases remaining(tokens, position), 17nat,
{
    let cond = parse_expression(tokens, position);
    match cond.result {
        Ok(condition) => match expect_at(tokens, cond.position, TokenKindView::Semicolon) {
            Some(error) => Parsed { result: Err(error), position },
            None => {
                let update = parse_expression(tokens, no_earlier(cond.position + 1, position));
                match update.result {
                    Ok(updating) => match expect_at(
                        tokens,
                        update.position,
                        TokenKindView::RightParen,
                    ) {
                        Some(error) => Parsed { result: Err(error), position },
                        None => {
                            let body = parse_block_stmt(
                                tokens,
                                no_earlier(update.position + 1, position),
                            );
                            match body.result {
                                Ok(block) => Parsed {
                                    result: Ok(
                                        ASTView::ForStmt {
                                            init: Box::new(init),
                                            cond: Box::new(condition),
                                            update: Box::new(updating),
                                            body: Box::new(block),
                                            span: Span {
                                                start,
                                                end: previous_end(tokens, body.position, start),
                                            },
                                        },
                                    ),
                                    position: body.position,
                                },
                                Err(error) => Parsed { result: Err(error), position },
                            }
                        },
                    },
                    Err(error) => Parsed { result: Err(error), position },
                }
            },
        },
        Err(error) => Parsed { result: Err(error), position },
    }
}

/// A `for` loop: `for`, in parentheses a statement, a condition, a
/// semicolon and an update, and then a block.
pub open spec fn parse_for_stmt(tokens: Seq<TokenView>, position: int) -> Parsed<ASTView>
    decreases remaining(tokens, position), 13nat,
{
    let start = token_at(tokens, position).span.start;
    match expect_at(tokens, position, TokenKindView::For) {
        Some(error) => Parsed { result: Err(error), position },
        None => match expect_at(tokens, position + 1, TokenKindView::LeftParen) {
            Some(error) => Parsed { result: Err(error), position },
            None => {
                let init = parse_statement(tokens, position + 2);
                match init.result {
                    Ok(statement) => parse_for_rest(
                        tokens,
                        later(init.position, position),
                        start,
                        statement,
                    ),
                    Err(error) => Parsed { result: Err(error), position },
                }
            },
        },
    }
}

/// A statement: a declaration, a function, an `if`, a `for`, a `return`,
/// a block, or an expression with a semicolon behind it or none.
pub open spec fn parse_statement(tokens: Seq<TokenView>, position: int) -> Parsed<ASTView>
    decreases remaining(tokens, position), 20nat,
{
    match token_at(tokens, position).kind {
        TokenKindView::Let => parse_let_decl(tokens, position),
        TokenKindView::Function => parse_function_decl(tokens, position),
        TokenKindView::If => parse_if_stmt(tokens, position),
        TokenKindView::For => parse_for_stmt(tokens, position),
        TokenKindView::Return => parse_return_stmt(tokens, position),
        TokenKindView::LeftBrace => parse_block_stmt(tokens, position),
        _ => {
            let expression = parse_expression(tokens, position);
            match expression.result {
                Ok(node) => Parsed {
                    result: Ok(node),
                    position: skip_semicolon(tokens, expression.position),
                },
                Err(error) => Parsed { result: Err(error), position },
            }
        },
    }
}

/// The statements of a program, up to the end.
pub open spec fn parse_program_statements(
    tokens: Seq<TokenView>,
    position: int,
    parsed: Seq<ASTView>,
) -> Parsed<Seq<ASTView>>
    decreases remaining(tokens, position), 22nat,
{
    if token_at(tokens, position).kind is Eof {
        Parsed { result: Ok(parsed), position }
    } else {
        let statement = parse_statement(tokens, position);
        match statement.result {
            Ok(node) => parse_program_statements(
                tokens,
                later(statement.position, position),
                parsed.push(node),
            ),
            Err(error) => Parsed { result: Err(error), position },
        }
    }
}

/// A program: statements up to the end.
pub open spec fn parse_program(tokens: Seq<TokenView>, position: int) -> Result<
    ASTView,
    ParseErrorView,
> {
    match parse_program_statements(tokens, position, Seq::empty()).result {
        Ok(statements) => Ok(ASTView::Program(statements)),
        Err(error) => Err(error),
    }
}


/// Whether a result of the parser is what `expected` says: the same node
/// at the same position, which lies behind `start`, or the same error.
pub open spec fn agrees(
    result: Result<ASTNode, ParseError>,
    position: int,
    expected: Parsed<ASTView>,
    start: int,
) -> bool {
    match expected.result {
        Ok(node) => {
            &&& result matches Ok(parsed)
            &&& parsed@ == node
            &&& position == expected.position
            &&& position > start
        },
        Err(error) => result matches Err(e) && e@ == error,
    }
}

/// Whether a list that the parser returns is what `expected` says: the
/// same nodes at the same position, which does not lie before `start`, or
/// the same error.
pub open spec fn list_agrees(
    result: Result<Vec<ASTNode>, ParseError>,
    position: int,
    expected: Parsed<Seq<ASTView>>,
    start: int,
) -> bool {
    match expected.result {
        Ok(nodes) => {
            &&& result matches Ok(parsed)
            &&& node_models(parsed@, parsed@.len()) == nodes
            &&& position == expected.position
            &&& position >= start
        },
        Err(error) => result matches Err(e) && e@ == error,
    }
}

/// The models of a list with one more node.
pub proof fn lemma_node_models_push(nodes: Seq<ASTNode>, node: ASTNode)
    ensures
        node_models(nodes.push(node), nodes.len() + 1) == node_models(nodes, nodes.len()).push(
            node@,
        ),
{
    crate::codegen::lemma_node_models(nodes.push(node), nodes.len() + 1);
    crate::codegen::lemma_node_models(nodes, nodes.len());
    assert(node_models(nodes.push(node), nodes.len() + 1) =~= node_models(nodes, nodes.len()).push(
        node@,
    ));
}

/// Turns tokens into a syntax tree.
pub struct Parser {
    tokens: Vec<Token>,
    position: usize,
    eof_token: Token,
}

impl Parser {
    #[verifier::type_invariant]
    spec fn within_tokens(self) -> bool {
        &&& self.position <= self.tokens@.len()
        &&& self.eof_token@ == end_token()
    }

    /// The tokens to parse.
    pub closed spec fn tokens(&self) -> Seq<TokenView> {
        token_views(self.tokens@)
    }

    /// The position of the next token to parse.
    pub closed spec fn position(&self) -> int {
        self.position as int
    }

    /// A parser at the start of the tokens of `source`.
    pub fn new(source: String) -> (parser: Parser)
        ensures
            parser.tokens() == tokens_from(source@, 0),
            parser.position() == 0,
    {
        let mut lexer = Lexer::new(source);
        let tokens = lexer.tokenize();
        Parser { tokens, position: 0, eof_token: Token::new(TokenKind::Eof, Span::new(0, 0)) }
    }

    /// The current token; behind the last token, the end token.
    fn current(&self) -> (token: &Token)
        ensures
            token@ == token_at(self.tokens(), self.position()),
    {
        proof {
            use_type_invariant(self);
        }
        if self.position < self.tokens.len() {
            &self.tokens[self.position]
        } else {
            &self.eof_token
        }
    }

    /// Moves to the next token; behind the last token it stays.
    fn advance(&mut self)
        ensures
            final(self).tokens() == old(self).tokens(),
            final(self).position() == if old(self).position() < old(self).tokens().len() {
                old(self).position() + 1
            } else {
                old(self).position()
            },
    {
        proof {
            use_type_invariant(&*self);
        }
        if self.position < self.tokens.len() {
            self.position = self.position + 1;
        }
    }

    /// The error for the current token where `expected` was expected.
    fn unexpected(&self, expected: &str) -> (error: ParseError)
        ensures
            error@ == unexpected(expected@, token_at(self.tokens(), self.position())),
    {
        let token = self.current();
        ParseError::UnexpectedToken {
            expected: String::from_str(expected),
            found: token.kind.describe(),
            span: token.span,
        }
    }

    /// Whether the current token is of the variant of `kind`.
    fn check(&self, kind: &TokenKind) -> (same: bool)
        ensures
            same == token_at(self.tokens(), self.position()).kind.same_variant(kind@),
    {
        match (&self.current().kind, kind) {
            (TokenKind::Number(_), TokenKind::Number(_)) => true,
            (TokenKind::Identifier(_), TokenKind::Identifier(_)) => true,
            (TokenKind::Let, TokenKind::Let) => true,
            (TokenKind::Function, TokenKind::Function) => true,
            (TokenKind::If, TokenKind::If) => true,
            (TokenKind::Else, TokenKind::Else) => true,
            (TokenKind::For, TokenKind::For) => true,
            (TokenKind::Return, TokenKind::Return) => true,
            (TokenKind::Plus, TokenKind::Plus) => true,
            (TokenKind::Minus, TokenKind::Minus) => true,
            (TokenKind::Star, TokenKind::Star) => true,
            (TokenKind::Slash, TokenKind::Slash) => true,
            (TokenKind::Equal, TokenKind::Equal) => true,
            (TokenKind::EqualEqual, TokenKind::EqualEqual) => true,
            (TokenKind::Less, TokenKind::Less) => true,
            (TokenKind::Greater, TokenKind::Greater) => true,
            (TokenKind::LeftParen, TokenKind::LeftParen) => true,
            (TokenKind::RightParen, TokenKind::RightParen) => true,
            (TokenKind::LeftBrace, TokenKind::LeftBrace) => true,
            (TokenKind::RightBrace, TokenKind::RightBrace) => true,
            (TokenKind::Semicolon, TokenKind::Semicolon) => true,
            (TokenKind::Comma, TokenKind::Comma) => true,
            (TokenKind::Eof, TokenKind::Eof) => true,
            _ => false,
        }
    }

    /// Moves past the current token if it is of the variant of `kind`,
    /// which is not `Eof`; fails if it is not.
    fn expect(&mut self, kind: TokenKind) -> (result: Result<(), ParseError>)
        requires
            !(kind@ is Eof),
        ensures
            final(self).tokens() == old(self).tokens(),
            match expect_at(old(self).tokens(), old(self).position(), kind@) {
                None => result is Ok && final(self).position() == old(self).position() + 1
                    && old(self).position() < old(self).tokens().len(),
                Some(error) => result matches Err(e) && e@ == error && final(self).position()
                    == old(self).position(),
            },
    {
        if self.check(&kind) {
            self.advance();
            Ok(())
        } else {
            let token = self.current();
            Err(
                ParseError::UnexpectedToken {
                    expected: kind.describe(),
                    found: token.kind.describe(),
                    span: token.span,
                },
            )
        }
    }

    /// Moves past a semicolon, if one is the current token.
    fn skip_semicolon(&mut self)
        ensures
            final(self).tokens() == old(self).tokens(),
            final(self).position() == skip_semicolon(old(self).tokens(), old(self).position()),
    {
        if self.check(&TokenKind::Semicolon) {
            self.advance();
        }
    }

    /// Moves past a comma, if one is the current token.
    fn skip_comma(&mut self)
        ensures
            final(self).tokens() == old(self).tokens(),
            final(self).position() == skip_comma(old(self).tokens(), old(self).position()),
    {
        if self.check(&TokenKind::Comma) {
            self.advance();
        }
    }

    /// The end of the token before the current one, or `fallback`.
    fn previous_end(&self, fallback: usize) -> (end: usize)
        ensures
            end == previous_end(self.tokens(), self.position(), fallback),
    {
        let index = if self.position > 0 {
            self.position - 1
        } else {
            0
        };
        if index < self.tokens.len() {
            self.tokens[index].span.end
        } else {
            fallback
        }
    }

    /// Parses a primary expression.
    #[verifier::rlimit(80)]
    #[verifier::spinoff_prover]
    fn parse_primary(&mut self) -> (result: Result<ASTNode, ParseError>)
        ensures
            final(self).tokens() == old(self).tokens(),
            agrees(
                result,
                final(self).position(),
                parse_primary(old(self).tokens(), old(self).position()),
                old(self).position(),
            ),
        decreases remaining(old(self).tokens(), old(self).position()), 0nat,
    {
        let token = self.current();
        let span = token.span;
        match &token.kind {
            TokenKind::Number(value) => {
                let value = *value;
                self.advance();
                Ok(ASTNode::NumberLiteral { value, span })
            },
            TokenKind::Identifier(name) => {
                let name = name.clone();
                self.advance();
                Ok(ASTNode::Identifier { name, span })
            },
            TokenKind::LeftParen => {
                self.advance();
                let expression = self.parse_expression()?;
                self.expect(TokenKind::RightParen)?;
                Ok(expression)
            },
            _ => Err(self.unexpected("expression")),
        }
    }

    /// Parses the arguments of a call, up to the closing parenthesis.
    fn parse_arguments(&mut self) -> (result: Result<Vec<ASTNode>, ParseError>)
        ensures
            final(self).tokens() == old(self).tokens(),
            list_agrees(
                result,
                final(self).position(),
                parse_arguments(old(self).tokens(), old(self).position(), Seq::empty()),
                old(self).position(),
            ),
        decreases remaining(old(self).tokens(), old(self).position()), 7nat,
    {
        let mut args: Vec<ASTNode> = Vec::new();
        let ghost tokens = self.tokens();
        let ghost start = self.position();
        loop
            invariant
                self.tokens() == tokens,
                tokens == old(self).tokens(),
                start == old(self).position(),
                self.position() >= start,
                parse_arguments(tokens, start, Seq::empty()) == parse_arguments(
                    tokens,
                    self.position(),
                    node_models(args@, args@.len()),
                ),
            decreases remaining(tokens, self.position()),
        {
            if self.check(&TokenKind::RightParen) {
                return Ok(args);
            }
            let ghost before = args@;
            let argument = self.parse_expression()?;
            proof {
                lemma_node_models_push(before, argument);
                use_type_invariant(&*self);
            }
            args.push(argument);
            self.skip_comma();
        }
    }

    /// Parses the calls behind `callee`.
    #[verifier::rlimit(80)]
    #[verifier::spinoff_prover]
    fn parse_call_rest(&mut self, callee: ASTNode, Ghost(start): Ghost<int>) -> (result: Result<
        ASTNode,
        ParseError,
    >)
        requires
            start < old(self).position(),
        ensures
            final(self).tokens() == old(self).tokens(),
            agrees(
                result,
                final(self).position(),
                parse_call_rest(old(self).tokens(), old(self).position(), callee@),
                start,
            ),
        decreases remaining(old(self).tokens(), old(self).position()), 1nat,
    {
        if self.check(&TokenKind::LeftParen) {
            self.advance();
            let args = self.parse_arguments()?;
            let end_span = self.current().span;
            self.expect(TokenKind::RightParen)?;
            let span = callee.span().merge(end_span);
            self.parse_call_rest(
                ASTNode::CallExpr { callee: Box::new(callee), args, span },
                Ghost(start),
            )
        } else {
            Ok(callee)
        }
    }

    /// Parses a call expression.
    fn parse_call(&mut self) -> (result: Result<ASTNode, ParseError>)
        ensures
            final(self).tokens() == old(self).tokens(),
            agrees(
                result,
                final(self).position(),
                parse_call(old(self).tokens(), old(self).position()),
                old(self).position(),
            ),
        decreases remaining(old(self).tokens(), old(self).position()), 2nat,
    {
        let ghost start = self.position();
        let expression = self.parse_primary()?;
        self.parse_call_rest(expression, Ghost(start))
    }

    /// Parses the factors behind `left`.
    fn parse_multiplicative_rest(&mut self, left: ASTNode, Ghost(start): Ghost<int>) -> (result:
        Result<ASTNode, ParseError>)
        requires
            start < old(self).position(),
        ensures
            final(self).tokens() == old(self).tokens(),
            agrees(
                result,
                final(self).position(),
                parse_multiplicative_rest(old(self).tokens(), old(self).position(), left@),
                start,
            ),
        decreases remaining(old(self).tokens(), old(self).position()), 1nat,
    {
        let op = match self.current().kind {
            TokenKind::Star => BinOp::Mul,
            TokenKind::Slash => BinOp::Div,
            _ => {
                return Ok(left);
            },
        };
        self.advance();
        let right = self.parse_call()?;
        let span = left.span().merge(right.span());
        self.parse_multiplicative_rest(
            ASTNode::BinaryExpr { op, left: Box::new(left), right: Box::new(right), span },
            Ghost(start),
        )
    }

    /// Parses a product.
    fn parse_multiplicative(&mut self) -> (result: Result<ASTNode, ParseError>)
        ensures
            final(self).tokens() == old(self).tokens(),
            agrees(
                result,
                final(self).position(),
                parse_multiplicative(old(self).tokens(), old(self).position()),
                old(self).position(),
            ),
        decreases remaining(old(self).tokens(), old(self).position()), 3nat,
    {
        let ghost start = self.position();
        let expression = self.parse_call()?;
        self.parse_multiplicative_rest(expression, Ghost(start))
    }

    /// Parses the terms behind `left`.
    fn parse_additive_rest(&mut self, left: ASTNode, Ghost(start): Ghost<int>) -> (result: Result<
        ASTNode,
        ParseError,
    >)
        requires
            start < old(self).position(),
        ensures
            final(self).tokens() == old(self).tokens(),
            agrees(
                result,
                final(self).position(),
                parse_additive_rest(old(self).tokens(), old(self).position(), left@),
                start,
            ),
        decreases remaining(old(self).tokens(), old(self).position()), 1nat,
    {
        let op = match self.current().kind {
            TokenKind::Plus => BinOp::Add,
            TokenKind::Minus => BinOp::Sub,
            _ => {
                return Ok(left);
            },
        };
        self.advance();
        let right = self.parse_multiplicative()?;
        let span = left.span().merge(right.span());
        self.parse_additive_rest(
            ASTNode::BinaryExpr { op, left: Box::new(left), right: Box::new(right), span },
            Ghost(start),
        )
    }

    /// Parses a sum.
    fn parse_additive(&mut self) -> (result: Result<ASTNode, ParseError>)
        ensures
            final(self).tokens() == old(self).tokens(),
            agrees(
                result,
                final(self).position(),
                parse_additive(old(self).tokens(), old(self).position()),
                old(self).position(),
            ),
        decreases remaining(old(self).tokens(), old(self).position()), 4nat,
    {
        let ghost start = self.position();
        let expression = self.parse_multiplicative()?;
        self.parse_additive_rest(expression, Ghost(start))
    }

    /// Parses an expression.
    fn parse_expression(&mut self) -> (result: Result<ASTNode, ParseError>)
        ensures
            final(self).tokens() == old(self).tokens(),
            agrees(
                result,
                final(self).position(),
                parse_expression(old(self).tokens(), old(self).position()),
                old(self).position(),
            ),
        decreases remaining(old(self).tokens(), old(self).position()), 5nat,
    {
        self.parse_additive()
    }

    /// Parses the parameters of a function, up to the closing parenthesis.
    fn parse_parameters(&mut self) -> (result: Result<Vec<String>, ParseError>)
        ensures
            final(self).tokens() == old(self).tokens(),
            match parse_parameters(old(self).tokens(), old(self).position(), Seq::empty()).result {
                Ok(names) => {
                    &&& result matches Ok(params)
                    &&& text_views(params@) == names
                    &&& final(self).position() == parse_parameters(
                        old(self).tokens(),
                        old(self).position(),
                        Seq::empty(),
                    ).position
                    &&& final(self).position() >= old(self).position()
                },
                Err(error) => result matches Err(e) && e@ == error,
            },
    {
        let mut params: Vec<String> = Vec::new();
        let ghost tokens = self.tokens();
        let ghost start = self.position();
        assert(text_views(params@) =~= Seq::<Seq<char>>::empty());
        loop
            invariant
                self.tokens() == tokens,
                tokens == old(self).tokens(),
                start == old(self).position(),
                self.position() >= start,
                parse_parameters(tokens, start, Seq::empty()) == parse_parameters(
                    tokens,
                    self.position(),
                    text_views(params@),
                ),
            decreases remaining(tokens, self.position()),
        {
            let name = match &self.current().kind {
                TokenKind::RightParen => {
                    return Ok(params);
                },
                TokenKind::Identifier(name) => name.clone(),
                _ => {
                    return Err(self.unexpected("parameter"));
                },
            };
            proof {
                assert(text_views(params@.push(name)) =~= text_views(params@).push(name@));
                use_type_invariant(&*self);
            }
            params.push(name);
            self.advance();
            self.skip_comma();
        }
    }

    /// Parses a declaration.
    #[verifier::rlimit(80)]
    #[verifier::spinoff_prover]
    fn parse_let_decl(&mut self) -> (result: Result<ASTNode, ParseError>)
        ensures
            final(self).tokens() == old(self).tokens(),
            agrees(
                result,
                final(self).position(),
                parse_let_decl(old(self).tokens(), old(self).position()),
                old(self).position(),
            ),
        decreases remaining(old(self).tokens(), old(self).position()), 10nat,
    {
        let start = self.current().span.start;
        self.expect(TokenKind::Let)?;
        let name = match &self.current().kind {
            TokenKind::Identifier(name) => name.clone(),
            _ => {
                return Err(self.unexpected("identifier"));
            },
        };
        self.advance();
        self.expect(TokenKind::Equal)?;
        let init = self.parse_expression()?;
        self.skip_semicolon();
        let end = self.previous_end(start);
        Ok(ASTNode::LetDecl { name, init: Box::new(init), span: Span::new(start, end) })
    }

    /// Parses a return statement.
    #[verifier::rlimit(80)]
    #[verifier::spinoff_prover]
    fn parse_return_stmt(&mut self) -> (result: Result<ASTNode, ParseError>)
        ensures
            final(self).tokens() == old(self).tokens(),
            agrees(
                result,
                final(self).position(),
                parse_return_stmt(old(self).tokens(), old(self).position()),
                old(self).position(),
            ),
        decreases remaining(old(self).tokens(), old(self).position()), 14nat,
    {
        let start = self.current().span.start;
        self.expect(TokenKind::Return)?;
        let value = self.parse_expression()?;
        self.skip_semicolon();
        let end = self.previous_end(start);
        Ok(ASTNode::ReturnStmt { value: Box::new(value), span: Span::new(start, end) })
    }

    /// Parses the statements of a block, up to the closing brace or the
    /// end.
    fn parse_block_statements(&mut self) -> (result: Result<Vec<ASTNode>, ParseError>)
        ensures
            final(self).tokens() == old(self).tokens(),
            list_agrees(
                result,
                final(self).position(),
                parse_block_statements(old(self).tokens(), old(self).position(), Seq::empty()),
                old(self).position(),
            ),
        decreases remaining(old(self).tokens(), old(self).position()), 21nat,
    {
        let mut statements: Vec<ASTNode> = Vec::new();
        let ghost tokens = self.tokens();
        let ghost start = self.position();
        loop
            invariant
                self.tokens() == tokens,
                tokens == old(self).tokens(),
                start == old(self).position(),
                self.position() >= start,
                parse_block_statements(tokens, start, Seq::empty()) == parse_block_statements(
                    tokens,
                    self.position(),
                    node_models(statements@, statements@.len()),
                ),
            decreases remaining(tokens, self.position()),
        {
            match self.current().kind {
                TokenKind::RightBrace => {
                    return Ok(statements);
                },
                TokenKind::Eof => {
                    return Ok(statements);
                },
                _ => {},
            }
            let ghost before = statements@;
            let statement = self.parse_statement()?;
            proof {
                lemma_node_models_push(before, statement);
                use_type_invariant(&*self);
            }
            statements.push(statement);
        }
    }

    /// Parses a block.
    #[verifier::rlimit(80)]
    #[verifier::spinoff_prover]
    fn parse_block_stmt(&mut self) -> (result: Result<ASTNode, ParseError>)
        ensures
            final(self).tokens() == old(self).tokens(),
            agrees(
                result,
                final(self).position(),
                parse_block_stmt(old(self).tokens(), old(self).position()),
                old(self).position(),
            ),
        decreases remaining(old(self).tokens(), old(self).position()), 15nat,
    {
        let start = self.current().span.start;
        self.expect(TokenKind::LeftBrace)?;
        let statements = self.parse_block_statements()?;
        self.expect(TokenKind::RightBrace)?;
        let end = self.previous_end(start);
        Ok(ASTNode::BlockStmt { statements, span: Span::new(start, end) })
    }

    /// Parses a function declaration.
    #[verifier::rlimit(80)]
    #[verifier::spinoff_prover]
    fn parse_function_decl(&mut self) -> (result: Result<ASTNode, ParseError>)
        ensures
            final(self).tokens() == old(self).tokens(),
            agrees(
                result,
                final(self).position(),
                parse_function_decl(old(self).tokens(), old(self).position()),
                old(self).position(),
            ),
        decreases remaining(old(self).tokens(), old(self).position()), 11nat,
    {
        let start = self.current().span.start;
        self.expect(TokenKind::Function)?;
        let name = match &self.current().kind {
            TokenKind::Identifier(name) => name.clone(),
            _ => {
                return Err(self.unexpected("identifier"));
            },
        };
        self.advance();
        self.expect(TokenKind::LeftParen)?;
        let params = self.parse_parameters()?;
        self.expect(TokenKind::RightParen)?;
        let body = self.parse_block_stmt()?;
        let end = self.previous_end(start);
        Ok(
            ASTNode::FunctionDecl { name, params, body: Box::new(body), span: Span::new(start, end) },
        )
    }

    /// Parses the branch behind `else`, if `else` is the current token.
    #[verifier::rlimit(80)]
    #[verifier::spinoff_prover]
    fn parse_else(&mut self) -> (result: Result<Option<Box<ASTNode>>, ParseError>)
        ensures
            final(self).tokens() == old(self).tokens(),
            match parse_else(old(self).tokens(), old(self).position()).result {
                Ok(branch) => {
                    &&& result matches Ok(parsed)
                    &&& match branch {
                        Some(node) => parsed matches Some(boxed) && boxed@ == node,
                        None => parsed.is_none(),
                    }
                    &&& final(self).position() == parse_else(
                        old(self).tokens(),
                        old(self).position(),
                    ).position
                    &&& final(self).position() >= old(self).position()
                },
                Err(error) => result matches Err(e) && e@ == error,
            },
        decreases remaining(old(self).tokens(), old(self).position()), 16nat,
    {
        match self.current().kind {
            TokenKind::Else => {
                self.advance();
                let branch = self.parse_block_stmt()?;
                Ok(Some(Box::new(branch)))
            },
            _ => Ok(None),
        }
    }

    /// Parses an `if` statement.
    #[verifier::rlimit(80)]
    #[verifier::spinoff_prover]
    fn parse_if_stmt(&mut self) -> (result: Result<ASTNode, ParseError>)
        ensures
            final(self).tokens() == old(self).tokens(),
            agrees(
                result,
                final(self).position(),
                parse_if_stmt(old(self).tokens(), old(self).position()),
                old(self).position(),
            ),
        decreases remaining(old(self).tokens(), old(self).position()), 12nat,
    {
        let start = self.current().span.start;
        self.expect(TokenKind::If)?;
        self.expect(TokenKind::LeftParen)?;
        let cond = self.parse_expression()?;
        self.expect(TokenKind::RightParen)?;
        let then_branch = self.parse_block_stmt()?;
        let else_branch = self.parse_else()?;
        let end = self.previous_end(start);
        Ok(
            ASTNode::IfStmt {
                cond: Box::new(cond),
                then_branch: Box::new(then_branch),
                else_branch,
                span: Span::new(start, end),
            },
        )
    }

    /// Parses what stands behind the first statement of a `for` loop.
    #[verifier::rlimit(80)]
    #[verifier::spinoff_prover]
    fn parse_for_rest(&mut self, start: usize, init: ASTNode) -> (result: Result<
        ASTNode,
        ParseError,
    >)
        ensures
            final(self).tokens() == old(self).tokens(),
            agrees(
                result,
                final(self).position(),
                parse_for_rest(old(self).tokens(), old(self).position(), start, init@),
                old(self).position(),
            ),
        decreases remaining(old(self).tokens(), old(self).position()), 17nat,
    {
        let cond = self.parse_expression()?;
        self.expect(TokenKind::Semicolon)?;
        let update = self.parse_expression()?;
        self.expect(TokenKind::RightParen)?;
        let body = self.parse_block_stmt()?;
        let end = self.previous_end(start);
        Ok(
            ASTNode::ForStmt {
                init: Box::new(init),
                cond: Box::new(cond),
                update: Box::new(update),
                body: Box::new(body),
                span: Span::new(start, end),
            },
        )
    }

    /// Parses a `for` loop.
    #[verifier::rlimit(80)]
    #[verifier::spinoff_prover]
    fn parse_for_stmt(&mut self) -> (result: Result<ASTNode, ParseError>)
        ensures
            final(self).tokens() == old(self).tokens(),
            agrees(
                result,
                final(self).position(),
                parse_for_stmt(old(self).tokens(), old(self).position()),
                old(self).position(),
            ),
        decreases remaining(old(self).tokens(), old(self).position()), 13nat,
    {
        let start = self.current().span.start;
        self.expect(TokenKind::For)?;
        self.expect(TokenKind::LeftParen)?;
        let init = self.parse_statement()?;
        self.parse_for_rest(start, init)
    }

    /// Parses a statement.
    #[verifier::rlimit(80)]
    #[verifier::spinoff_prover]
    fn parse_statement(&mut self) -> (result: Result<ASTNode, ParseError>)
        ensures
            final(self).tokens() == old(self).tokens(),
            agrees(
                result,
                final(self).position(),
                parse_statement(old(self).tokens(), old(self).position()),
                old(self).position(),
            ),
        decreases remaining(old(self).tokens(), old(self).position()), 20nat,
    {
        match self.current().kind {
            TokenKind::Let => self.parse_let_decl(),
            TokenKind::Function => self.parse_function_decl(),
            TokenKind::If => self.parse_if_stmt(),
            TokenKind::For => self.parse_for_stmt(),
            TokenKind::Return => self.parse_return_stmt(),
            TokenKind::LeftBrace => self.parse_block_stmt(),
            _ => {
                let expression = self.parse_expression()?;
                self.skip_semicolon();
                Ok(expression)
            },
        }
    }

    /// Parses the rest of the tokens as a program: statements up to the
    /// end.
    pub fn parse(&mut self) -> (result: Result<AST, ParseError>)
        ensures
            final(self).tokens() == old(self).tokens(),
            match parse_program(old(self).tokens(), old(self).position()) {
                Ok(program) => result matches Ok(ast) && ast.root@ == program,
                Err(error) => result matches Err(e) && e@ == error,
            },
    {
        let mut statements: Vec<ASTNode> = Vec::new();
        let ghost tokens = self.tokens();
        let ghost start = self.position();
        loop
            invariant
                self.tokens() == tokens,
                tokens == old(self).tokens(),
                start == old(self).position(),
                parse_program_statements(tokens, start, Seq::empty()) == parse_program_statements(
                    tokens,
                    self.position(),
                    node_models(statements@, statements@.len()),
                ),
            decreases remaining(tokens, self.position()),
        {
            match self.current().kind {
                TokenKind::Eof => {
                    return Ok(AST::new(ASTNode::Program(statements)));
                },
                _ => {},
            }
            let ghost before = statements@;
            let statement = self.parse_statement()?;
            proof {
                lemma_node_models_push(before, statement);
                use_type_invariant(&*self);
            }
            statements.push(statement);
        }
    }
}

} // verus!
