use v8_rs::lexer::char_is_whitespace;
use v8_rs::{Lexer, Span, Token, TokenKind};

fn number(n: f64) -> TokenKind {
    TokenKind::Number(n.to_bits())
}

#[test]
fn test_tokenize_numbers() {
    let mut lexer = Lexer::new("42 3.14".to_string());
    let tokens = lexer.tokenize();

    assert_eq!(tokens.len(), 3);
    assert_eq!(tokens[0].kind, number(42.0));
    assert_eq!(tokens[1].kind, number(3.14));
}

#[test]
fn test_tokenize_identifiers() {
    let mut lexer = Lexer::new("foo bar_123".to_string());
    let tokens = lexer.tokenize();

    assert_eq!(tokens.len(), 3);
    assert_eq!(tokens[0].kind, TokenKind::Identifier("foo".to_string()));
    assert_eq!(tokens[1].kind, TokenKind::Identifier("bar_123".to_string()));
}

#[test]
fn test_tokenize_keywords() {
    let mut lexer = Lexer::new("let function if else for return".to_string());
    let tokens = lexer.tokenize();

    assert_eq!(tokens.len(), 7);
    assert_eq!(tokens[0].kind, TokenKind::Let);
    assert_eq!(tokens[1].kind, TokenKind::Function);
    assert_eq!(tokens[2].kind, TokenKind::If);
    assert_eq!(tokens[3].kind, TokenKind::Else);
    assert_eq!(tokens[4].kind, TokenKind::For);
    assert_eq!(tokens[5].kind, TokenKind::Return);
}

#[test]
fn test_tokenize_operators() {
    let mut lexer = Lexer::new("+ - * / = == < >".to_string());
    let tokens = lexer.tokenize();

    assert_eq!(tokens.len(), 9);
    assert_eq!(tokens[0].kind, TokenKind::Plus);
    assert_eq!(tokens[1].kind, TokenKind::Minus);
    assert_eq!(tokens[2].kind, TokenKind::Star);
    assert_eq!(tokens[3].kind, TokenKind::Slash);
    assert_eq!(tokens[4].kind, TokenKind::Equal);
    assert_eq!(tokens[5].kind, TokenKind::EqualEqual);
}

#[test]
fn test_tokenize_expression() {
    let mut lexer = Lexer::new("let x = 10 + 20;".to_string());
    let tokens = lexer.tokenize();

    assert_eq!(tokens.len(), 8);
    assert_eq!(tokens[0].kind, TokenKind::Let);
    assert_eq!(tokens[1].kind, TokenKind::Identifier("x".to_string()));
    assert_eq!(tokens[2].kind, TokenKind::Equal);
    assert_eq!(tokens[3].kind, number(10.0));
    assert_eq!(tokens[4].kind, TokenKind::Plus);
    assert_eq!(tokens[5].kind, number(20.0));
    assert_eq!(tokens[6].kind, TokenKind::Semicolon);
    assert_eq!(tokens[7].kind, TokenKind::Eof);
}

#[test]
fn test_lexer_instantiation() {
    let lexer = Lexer::new("42".to_string());
    drop(lexer);
    assert!(true);
}

#[test]
fn test_spans_count_characters() {
    let mut lexer = Lexer::new("  let \u{e9}t\u{e9}_1 = (12.5);".to_string());
    let tokens = lexer.tokenize();
    assert_eq!(
        tokens,
        vec![
            Token::new(TokenKind::Let, Span::new(2, 5)),
            Token::new(TokenKind::Identifier("\u{e9}t\u{e9}_1".to_string()), Span::new(6, 11)),
            Token::new(TokenKind::Equal, Span::new(12, 13)),
            Token::new(TokenKind::LeftParen, Span::new(14, 15)),
            Token::new(number(12.5), Span::new(15, 19)),
            Token::new(TokenKind::RightParen, Span::new(19, 20)),
            Token::new(TokenKind::Semicolon, Span::new(20, 21)),
            Token::new(TokenKind::Eof, Span::new(21, 21)),
        ]
    );
}

#[test]
fn test_delimiters_and_unknown_characters() {
    let mut lexer = Lexer::new("{},<>===#_a".to_string());
    let kinds: Vec<TokenKind> = lexer.tokenize().into_iter().map(|t| t.kind).collect();
    assert_eq!(
        kinds,
        vec![
            TokenKind::LeftBrace,
            TokenKind::RightBrace,
            TokenKind::Comma,
            TokenKind::Less,
            TokenKind::Greater,
            TokenKind::EqualEqual,
            TokenKind::Equal,
            TokenKind::Identifier("#".to_string()),
            TokenKind::Identifier("_a".to_string()),
            TokenKind::Eof,
        ]
    );
}

#[test]
fn test_number_with_two_dots_is_zero() {
    let mut lexer = Lexer::new("1.2.3 7. 1x".to_string());
    let tokens = lexer.tokenize();
    assert_eq!(tokens[0], Token::new(number(0.0), Span::new(0, 5)));
    assert_eq!(tokens[1], Token::new(number(7.0), Span::new(6, 8)));
    assert_eq!(tokens[2], Token::new(number(1.0), Span::new(9, 10)));
    assert_eq!(tokens[3], Token::new(TokenKind::Identifier("x".to_string()), Span::new(10, 11)));
}

#[test]
fn test_next_token_by_token() {
    let mut lexer = Lexer::new(" a\t\n+".to_string());
    assert_eq!(lexer.current(), Some(' '));
    assert_eq!(lexer.peek(), Some('a'));
    lexer.skip_whitespace();
    assert_eq!(lexer.current(), Some('a'));
    assert_eq!(lexer.next_token(), Token::new(TokenKind::Identifier("a".to_string()), Span::new(1, 2)));
    assert_eq!(lexer.next_token(), Token::new(TokenKind::Plus, Span::new(4, 5)));
    assert_eq!(lexer.current(), None);
    assert_eq!(lexer.peek(), None);
    lexer.advance();
    assert_eq!(lexer.next_token(), Token::new(TokenKind::Eof, Span::new(5, 5)));
    assert_eq!(lexer.next_token(), Token::new(TokenKind::Eof, Span::new(5, 5)));
    let mut empty = Lexer::new(String::new());
    assert_eq!(empty.tokenize(), vec![Token::new(TokenKind::Eof, Span::new(0, 0))]);
}

#[test]
fn test_white_space_is_the_standard_one() {
    let mut code: u32 = 0;
    while code <= 0x10FFFF {
        if let Some(c) = char::from_u32(code) {
            assert_eq!(char_is_whitespace(c), c.is_whitespace(), "{:x}", code);
        }
        code += 1;
    }
}

#[test]
fn test_token_descriptions() {
    assert_eq!(TokenKind::Equal.describe(), "Equal");
    assert_eq!(TokenKind::Eof.describe(), "Eof");
    assert_eq!(TokenKind::LeftParen.describe(), "LeftParen");
    assert_eq!(TokenKind::Identifier("x".to_string()).describe(), "Identifier(\"x\")");
    assert_eq!(number(10.0).describe(), "Number");
    assert_eq!(TokenKind::Identifier("x".to_string()).duplicate(), TokenKind::Identifier("x".to_string()));
    let token = Token::new(number(1.0), Span::new(3, 4));
    assert_eq!(token.duplicate(), token);
}

#[test]
fn test_scanning_a_number_where_the_lexer_stands() {
    let mut lexer = Lexer::new("12.5x".to_string());
    assert_eq!(lexer.scan_number(), Token::new(number(12.5), Span::new(0, 4)));
    assert_eq!(lexer.current(), Some('x'));
    assert_eq!(lexer.scan_number(), Token::new(number(0.0), Span::new(4, 4)));
    let mut dots = Lexer::new("..1".to_string());
    assert_eq!(dots.scan_number(), Token::new(number(0.0), Span::new(0, 3)));
    assert_eq!(dots.scan_number(), Token::new(number(0.0), Span::new(3, 3)));
    let mut half = Lexer::new(".5+".to_string());
    assert_eq!(half.scan_number(), Token::new(number(0.5), Span::new(0, 2)));
}

#[test]
fn test_scanning_a_word_where_the_lexer_stands() {
    let mut lexer = Lexer::new("r\u{e9}sum\u{e9}_2+let1 let if".to_string());
    assert_eq!(
        lexer.scan_identifier(),
        Token::new(TokenKind::Identifier("r\u{e9}sum\u{e9}_2".to_string()), Span::new(0, 8))
    );
    assert_eq!(lexer.current(), Some('+'));
    lexer.advance();
    assert_eq!(
        lexer.scan_identifier(),
        Token::new(TokenKind::Identifier("let1".to_string()), Span::new(9, 13))
    );
    lexer.skip_whitespace();
    assert_eq!(lexer.scan_identifier(), Token::new(TokenKind::Let, Span::new(14, 17)));
    lexer.skip_whitespace();
    assert_eq!(lexer.scan_identifier(), Token::new(TokenKind::If, Span::new(18, 20)));
    let mut digits = Lexer::new("x\u{663}\u{b2}\u{2167}-".to_string());
    assert_eq!(
        digits.scan_identifier(),
        Token::new(
            TokenKind::Identifier("x\u{663}\u{b2}\u{2167}".to_string()),
            Span::new(0, 4)
        )
    );
}

#[test]
fn test_scanning_a_symbol_where_the_lexer_stands() {
    let mut lexer = Lexer::new("== =;@".to_string());
    assert_eq!(lexer.scan_symbol(), Token::new(TokenKind::EqualEqual, Span::new(0, 2)));
    lexer.skip_whitespace();
    assert_eq!(lexer.scan_symbol(), Token::new(TokenKind::Equal, Span::new(3, 4)));
    assert_eq!(lexer.scan_symbol(), Token::new(TokenKind::Semicolon, Span::new(4, 5)));
    assert_eq!(
        lexer.scan_symbol(),
        Token::new(TokenKind::Identifier("@".to_string()), Span::new(5, 6))
    );
    assert_eq!(lexer.current(), None);
}

#[test]
fn test_words_follow_the_standard_character_classes() {
    for (text, alphabetic) in [("\u{e9}", true), ("\u{3b1}", true), ("\u{4e2d}", true), ("\u{663}", false), ("$", false)] {
        let mut lexer = Lexer::new(format!("{}a1", text));
        let token = lexer.next_token();
        if alphabetic {
            assert_eq!(token, Token::new(TokenKind::Identifier(format!("{}a1", text)), Span::new(0, 3)));
        } else {
            assert_eq!(token, Token::new(TokenKind::Identifier(text.to_string()), Span::new(0, 1)));
        }
    }
}
