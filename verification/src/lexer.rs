//! The lexer: from source text to tokens.

use vstd::prelude::*;
use vstd::string::StringExecFns;
use crate::literal::{is_digit, literal_value, parse_literal};
use crate::types::Span;

verus! {

/// Whether `c` has the Unicode property Alphabetic.
pub uninterp spec fn alphabetic(c: char) -> bool;

/// Whether `c` is alphabetic or has one of the Unicode numeric categories.
pub uninterp spec fn alphanumeric(c: char) -> bool;

/// `char::is_alphabetic` tells whether the character has the Unicode
/// property Alphabetic; the tables of the standard library decide.
pub assume_specification[ char::is_alphabetic ](c: char) -> (r: bool)
    ensures
        r == alphabetic(c),
;

/// `char::is_alphanumeric` tells whether the character is alphabetic or
/// numeric; the tables of the standard library decide.
pub assume_specification[ char::is_alphanumeric ](c: char) -> (r: bool)
    ensures
        r == alphanumeric(c),
;

/// `String::push` appends one character to the string.
pub assume_specification[ String::push ](text: &mut String, c: char)
    ensures
        final(text)@ == old(text)@.push(c),
;

/// Whether `c` has the Unicode property White_Space.
pub open spec fn is_whitespace(c: char) -> bool {
    let code = c as u32;
    ||| 0x09 <= code <= 0x0D
    ||| code == 0x20
    ||| code == 0x85
    ||| code == 0xA0
    ||| code == 0x1680
    ||| 0x2000 <= code <= 0x200A
    ||| code == 0x2028
    ||| code == 0x2029
    ||| code == 0x202F
    ||| code == 0x205F
    ||| code == 0x3000
}

/// Whether `c` is white space.
pub fn char_is_whitespace(c: char) -> (r: bool)
    ensures
        r == is_whitespace(c),
{
    let code = c as u32;
    (0x09 <= code && code <= 0x0D) || code == 0x20 || code == 0x85 || code == 0xA0 || code
        == 0x1680 || (0x2000 <= code && code <= 0x200A) || code == 0x2028 || code == 0x2029
        || code == 0x202F || code == 0x205F || code == 0x3000
}

/// Whether `c` may stand in a number literal: a digit or a dot.
pub open spec fn in_number(c: char) -> bool {
    is_digit(c) || c == '.'
}

/// Whether `c` may start an identifier: an alphabetic character or an
/// underscore.
pub open spec fn starts_identifier(c: char) -> bool {
    alphabetic(c) || c == '_'
}

/// Whether `c` may stand in an identifier: an alphanumeric character or an
/// underscore.
pub open spec fn in_identifier(c: char) -> bool {
    alphanumeric(c) || c == '_'
}

/// The kinds of tokens.
///
/// A `Number` carries the bit pattern of a binary64 number.
#[derive(Debug, Clone, PartialEq)]
pub enum TokenKind {
    Number(u64),
    Identifier(String),
    Let,
    Function,
    If,
    Else,
    For,
    Return,
    Plus,
    Minus,
    Star,
    Slash,
    Equal,
    EqualEqual,
    Less,
    Greater,
    LeftParen,
    RightParen,
    LeftBrace,
    RightBrace,
    Semicolon,
    Comma,
    Eof,
}

/// The model of a token kind: the name of an identifier as a sequence of
/// characters.
pub enum TokenKindView {
    Number(u64),
    Identifier(Seq<char>),
    Let,
    Function,
    If,
    Else,
    For,
    Return,
    Plus,
    Minus,
    Star,
    Slash,
    Equal,
    EqualEqual,
    Less,
    Greater,
    LeftParen,
    RightParen,
    LeftBrace,
    RightBrace,
    Semicolon,
    Comma,
    Eof,
}

impl View for TokenKind {
    type V = TokenKindView;

    open spec fn view(&self) -> TokenKindView {
        match self {
            TokenKind::Number(bits) => TokenKindView::Number(*bits),
            TokenKind::Identifier(name) => TokenKindView::Identifier(name@),
            TokenKind::Let => TokenKindView::Let,
            TokenKind::Function => TokenKindView::Function,
            TokenKind::If => TokenKindView::If,
            TokenKind::Else => TokenKindView::Else,
            TokenKind::For => TokenKindView::For,
            TokenKind::Return => TokenKindView::Return,
            TokenKind::Plus => TokenKindView::Plus,
            TokenKind::Minus => TokenKindView::Minus,
            TokenKind::Star => TokenKindView::Star,
            TokenKind::Slash => TokenKindView::Slash,
            TokenKind::Equal => TokenKindView::Equal,
            TokenKind::EqualEqual => TokenKindView::EqualEqual,
            TokenKind::Less => TokenKindView::Less,
            TokenKind::Greater => TokenKindView::Greater,
            TokenKind::LeftParen => TokenKindView::LeftParen,
            TokenKind::RightParen => TokenKindView::RightParen,
            TokenKind::LeftBrace => TokenKindView::LeftBrace,
            TokenKind::RightBrace => TokenKindView::RightBrace,
            TokenKind::Semicolon => TokenKindView::Semicolon,
            TokenKind::Comma => TokenKindView::Comma,
            TokenKind::Eof => TokenKindView::Eof,
        }
    }
}

impl TokenKindView {
    /// The text that names the kind in messages: the name of the kind, and
    /// for an identifier its name in quotes and brackets behind it.
    pub open spec fn describe(self) -> Seq<char> {
        match self {
            TokenKindView::Number(_) => "Number"@,
            TokenKindView::Identifier(name) => "Identifier(\""@ + name + "\")"@,
            TokenKindView::Let => "Let"@,
            TokenKindView::Function => "Function"@,
            TokenKindView::If => "If"@,
            TokenKindView::Else => "Else"@,
            TokenKindView::For => "For"@,
            TokenKindView::Return => "Return"@,
            TokenKindView::Plus => "Plus"@,
            TokenKindView::Minus => "Minus"@,
            TokenKindView::Star => "Star"@,
            TokenKindView::Slash => "Slash"@,
            TokenKindView::Equal => "Equal"@,
            TokenKindView::EqualEqual => "EqualEqual"@,
            TokenKindView::Less => "Less"@,
            TokenKindView::Greater => "Greater"@,
            TokenKindView::LeftParen => "LeftParen"@,
            TokenKindView::RightParen => "RightParen"@,
            TokenKindView::LeftBrace => "LeftBrace"@,
            TokenKindView::RightBrace => "RightBrace"@,
            TokenKindView::Semicolon => "Semicolon"@,
            TokenKindView::Comma => "Comma"@,
            TokenKindView::Eof => "Eof"@,
        }
    }

    /// Whether two kinds are the same variant, whatever they carry.
    pub open spec fn same_variant(self, other: TokenKindView) -> bool {
        match (self, other) {
            (TokenKindView::Number(_), TokenKindView::Number(_)) => true,
            (TokenKindView::Identifier(_), TokenKindView::Identifier(_)) => true,
            (TokenKindView::Number(_), _) => false,
            (TokenKindView::Identifier(_), _) => false,
            (_, TokenKindView::Number(_)) => false,
            (_, TokenKindView::Identifier(_)) => false,
            _ => self == other,
        }
    }
}

impl TokenKind {
    /// The text that names the kind in messages.
    pub fn describe(&self) -> (text: String)
        ensures
            text@ == self@.describe(),
    {
        match self {
            TokenKind::Number(_) => String::from_str("Number"),
            TokenKind::Identifier(name) => {
                let mut text = String::from_str("Identifier(\"");
                text.append(name.as_str());
                text.append("\")");
                text
            },
            TokenKind::Let => String::from_str("Let"),
            TokenKind::Function => String::from_str("Function"),
            TokenKind::If => String::from_str("If"),
            TokenKind::Else => String::from_str("Else"),
            TokenKind::For => String::from_str("For"),
            TokenKind::Return => String::from_str("Return"),
            TokenKind::Plus => String::from_str("Plus"),
            TokenKind::Minus => String::from_str("Minus"),
            TokenKind::Star => String::from_str("Star"),
            TokenKind::Slash => String::from_str("Slash"),
            TokenKind::Equal => String::from_str("Equal"),
            TokenKind::EqualEqual => String::from_str("EqualEqual"),
            TokenKind::Less => String::from_str("Less"),
            TokenKind::Greater => String::from_str("Greater"),
            TokenKind::LeftParen => String::from_str("LeftParen"),
            TokenKind::RightParen => String::from_str("RightParen"),
            TokenKind::LeftBrace => String::from_str("LeftBrace"),
            TokenKind::RightBrace => String::from_str("RightBrace"),
            TokenKind::Semicolon => String::from_str("Semicolon"),
            TokenKind::Comma => String::from_str("Comma"),
            TokenKind::Eof => String::from_str("Eof"),
        }
    }

    /// A copy of the kind.
    pub fn duplicate(&self) -> (copy: TokenKind)
        ensures
            copy@ == self@,
    {
        match self {
            TokenKind::Number(bits) => TokenKind::Number(*bits),
            TokenKind::Identifier(name) => TokenKind::Identifier(name.clone()),
            TokenKind::Let => TokenKind::Let,
            TokenKind::Function => TokenKind::Function,
            TokenKind::If => TokenKind::If,
            TokenKind::Else => TokenKind::Else,
            TokenKind::For => TokenKind::For,
            TokenKind::Return => TokenKind::Return,
            TokenKind::Plus => TokenKind::Plus,
            TokenKind::Minus => TokenKind::Minus,
            TokenKind::Star => TokenKind::Star,
            TokenKind::Slash => TokenKind::Slash,
            TokenKind::Equal => TokenKind::Equal,
            TokenKind::EqualEqual => TokenKind::EqualEqual,
            TokenKind::Less => TokenKind::Less,
            TokenKind::Greater => TokenKind::Greater,
            TokenKind::LeftParen => TokenKind::LeftParen,
            TokenKind::RightParen => TokenKind::RightParen,
            TokenKind::LeftBrace => TokenKind::LeftBrace,
            TokenKind::RightBrace => TokenKind::RightBrace,
            TokenKind::Semicolon => TokenKind::Semicolon,
            TokenKind::Comma => TokenKind::Comma,
            TokenKind::Eof => TokenKind::Eof,
        }
    }
}

/// The model of a token.
pub struct TokenView {
    pub kind: TokenKindView,
    pub span: Span,
}

/// A token: its kind and where it stands in the source.
#[derive(Debug, Clone, PartialEq)]
pub struct Token {
    pub kind: TokenKind,
    pub span: Span,
}

impl View for Token {
    type V = TokenView;

    open spec fn view(&self) -> TokenView {
        TokenView { kind: self.kind@, span: self.span }
    }
}

impl Token {
    /// A token of the given kind and span.
    pub fn new(kind: TokenKind, span: Span) -> (token: Token)
        ensures
            token@ == (TokenView { kind: kind@, span }),
    {
        Token { kind, span }
    }

    /// A copy of the token.
    pub fn duplicate(&self) -> (copy: Token)
        ensures
            copy@ == self@,
    {
        Token { kind: self.kind.duplicate(), span: self.span }
    }
}

/// The models of the tokens in `tokens`.
pub open spec fn token_views(tokens: Seq<Token>) -> Seq<TokenView> {
    tokens.map_values(|t: Token| t@)
}

/// The character at `position`, if the source reaches that far.
pub open spec fn char_at(source: Seq<char>, position: int) -> Option<char> {
    if 0 <= position < source.len() {
        Some(source[position])
    } else {
        None
    }
}

/// The end of the longest run of characters that `accepts` accepts, from
/// `position` on.
pub open spec fn run_end(source: Seq<char>, position: int, accepts: spec_fn(char) -> bool) -> int
    decreases source.len() - position,
{
    if 0 <= position < source.len() && accepts(source[position]) {
        run_end(source, position + 1, accepts)
    } else {
        position
    }
}

/// A run ends at or behind its start, and within the source.
pub proof fn lemma_run_end_bounds(
    source: Seq<char>,
    position: int,
    accepts: spec_fn(char) -> bool,
)
    requires
        0 <= position <= source.len(),
    ensures
        position <= run_end(source, position, accepts) <= source.len(),
        0 <= position < source.len() && accepts(source[position]) ==> position < run_end(
            source,
            position,
            accepts,
        ),
    decreases source.len() - position,
{
    if position < source.len() && accepts(source[position]) {
        lemma_run_end_bounds(source, position + 1, accepts);
    }
}

/// The class of white space.
pub open spec fn whitespace_class() -> spec_fn(char) -> bool {
    |c: char| is_whitespace(c)
}

/// The class of the characters of number literals.
pub open spec fn number_class() -> spec_fn(char) -> bool {
    |c: char| in_number(c)
}

/// The class of the characters of identifiers.
pub open spec fn identifier_class() -> spec_fn(char) -> bool {
    |c: char| in_identifier(c)
}

/// The kind of the word `text`: a keyword, or else an identifier.
pub open spec fn word_kind(text: Seq<char>) -> TokenKindView {
    if text == "let"@ {
        TokenKindView::Let
    } else if text == "function"@ {
        TokenKindView::Function
    } else if text == "if"@ {
        TokenKindView::If
    } else if text == "else"@ {
        TokenKindView::Else
    } else if text == "for"@ {
        TokenKindView::For
    } else if text == "return"@ {
        TokenKindView::Return
    } else {
        TokenKindView::Identifier(text)
    }
}

/// The kind and the length of the token that starts with the character `c`
/// and is neither a number nor a word. `next` is the character after it.
/// A character that starts no token is an identifier of its own.
pub open spec fn symbol(c: char, next: Option<char>) -> (TokenKindView, int) {
    if c == '+' {
        (TokenKindView::Plus, 1)
    } else if c == '-' {
        (TokenKindView::Minus, 1)
    } else if c == '*' {
        (TokenKindView::Star, 1)
    } else if c == '/' {
        (TokenKindView::Slash, 1)
    } else if c == '=' {
        if next == Some('=') {
            (TokenKindView::EqualEqual, 2)
        } else {
            (TokenKindView::Equal, 1)
        }
    } else if c == '<' {
        (TokenKindView::Less, 1)
    } else if c == '>' {
        (TokenKindView::Greater, 1)
    } else if c == '(' {
        (TokenKindView::LeftParen, 1)
    } else if c == ')' {
        (TokenKindView::RightParen, 1)
    } else if c == '{' {
        (TokenKindView::LeftBrace, 1)
    } else if c == '}' {
        (TokenKindView::RightBrace, 1)
    } else if c == ';' {
        (TokenKindView::Semicolon, 1)
    } else if c == ',' {
        (TokenKindView::Comma, 1)
    } else {
        (TokenKindView::Identifier(seq![c]), 1)
    }
}

/// The token that starts at `start`, where no white space stands, and the
/// position behind it. At the end of the source it is `Eof`. A number is
/// the longest run of digits and dots; a word is the character that starts
/// it and the longest run of identifier characters behind that.
pub open spec fn token_at(source: Seq<char>, start: int) -> (TokenView, int) {
    if !(0 <= start < source.len()) {
        (
            TokenView {
                kind: TokenKindView::Eof,
                span: Span { start: start as usize, end: start as usize },
            },
            start,
        )
    } else {
        let c = source[start];
        if is_digit(c) {
            let end = run_end(source, start, number_class());
            (
                TokenView {
                    kind: TokenKindView::Number(literal_value(source.subrange(start, end))),
                    span: Span { start: start as usize, end: end as usize },
                },
                end,
            )
        } else if starts_identifier(c) {
            let end = run_end(source, start + 1, identifier_class());
            (
                TokenView {
                    kind: word_kind(source.subrange(start, end)),
                    span: Span { start: start as usize, end: end as usize },
                },
                end,
            )
        } else {
            let (kind, len) = symbol(c, char_at(source, start + 1));
            (
                TokenView { kind, span: Span { start: start as usize, end: (start + len) as usize } },
                start + len,
            )
        }
    }
}

/// The next token from `position` on, after the white space there, and the
/// position behind it.
pub open spec fn next_token_at(source: Seq<char>, position: int) -> (TokenView, int) {
    token_at(source, run_end(source, position, whitespace_class()))
}

/// The next token ends within the source, and behind its start unless it
/// is `Eof`.
pub proof fn lemma_next_token_advances(source: Seq<char>, position: int)
    requires
        0 <= position <= source.len(),
    ensures
        position <= next_token_at(source, position).1 <= source.len(),
        !(next_token_at(source, position).0.kind is Eof) ==> position < next_token_at(
            source,
            position,
        ).1,
{
    let start = run_end(source, position, whitespace_class());
    lemma_run_end_bounds(source, position, whitespace_class());
    if start < source.len() {
        lemma_run_end_bounds(source, start, number_class());
        lemma_run_end_bounds(source, start + 1, identifier_class());
    }
}


/// The tokens from `position` to the end of the source; the last of them
/// is `Eof`.
pub open spec fn tokens_from(source: Seq<char>, position: int) -> Seq<TokenView>
    decreases source.len() - position,
    when 0 <= position <= source.len()
    via tokens_from_decreases
{
    let (token, next) = next_token_at(source, position);
    if token.kind is Eof {
        seq![token]
    } else {
        seq![token] + tokens_from(source, next)
    }
}

#[via_fn]
proof fn tokens_from_decreases(source: Seq<char>, position: int) {
    lemma_next_token_advances(source, position);
}

/// The characters of `source`, in order.
pub fn characters(source: &str) -> (chars: Vec<char>)
    ensures
        chars@ == source@,
{
    let mut chars: Vec<char> = Vec::new();
    for c in iter: source.chars()
        invariant
            iter.seq() == source@,
            chars@ == iter.seq().subrange(0, iter.index() as int),
    {
        chars.push(c);
        assert(chars@ =~= iter.seq().subrange(0, iter.index() + 1));
    }
    assert(chars@ =~= source@);
    chars
}

/// The text of the characters of `chars` from `start` to `end`.
fn text_between(chars: &Vec<char>, start: usize, end: usize) -> (text: String)
    requires
        start <= end <= chars@.len(),
    ensures
        text@ == chars@.subrange(start as int, end as int),
{
    let mut text = String::new();
    let mut i: usize = start;
    while i < end
        invariant
            start <= i <= end,
            end <= chars@.len(),
            text@ == chars@.subrange(start as int, i as int),
        decreases end - i,
    {
        text.push(chars[i]);
        assert(text@ =~= chars@.subrange(start as int, i + 1));
        i += 1;
    }
    text
}

/// The kind of the word `text`.
fn kind_of_word(text: String) -> (kind: TokenKind)
    ensures
        kind@ == word_kind(text@),
{
    if text == String::from_str("let") {
        TokenKind::Let
    } else if text == String::from_str("function") {
        TokenKind::Function
    } else if text == String::from_str("if") {
        TokenKind::If
    } else if text == String::from_str("else") {
        TokenKind::Else
    } else if text == String::from_str("for") {
        TokenKind::For
    } else if text == String::from_str("return") {
        TokenKind::Return
    } else {
        TokenKind::Identifier(text)
    }
}

/// Scans source text into tokens.
pub struct Lexer {
    source: Vec<char>,
    position: usize,
}

impl Lexer {
    #[verifier::type_invariant]
    spec fn within_source(self) -> bool {
        self.position <= self.source@.len()
    }

    /// The characters of the source.
    pub closed spec fn source(&self) -> Seq<char> {
        self.source@
    }

    /// The position of the next character to scan.
    pub closed spec fn position(&self) -> int {
        self.position as int
    }

    /// A lexer at the start of `source`.
    pub fn new(source: String) -> (lexer: Lexer)
        ensures
            lexer.source() == source@,
            lexer.position() == 0,
    {
        Lexer { source: characters(source.as_str()), position: 0 }
    }

    /// Moves to the next character; at the end of the source it stays.
    pub fn advance(&mut self)
        ensures
            final(self).source() == old(self).source(),
            final(self).position() == if old(self).position() < old(self).source().len() {
                old(self).position() + 1
            } else {
                old(self).position()
            },
    {
        proof {
            use_type_invariant(&*self);
        }
        if self.position < self.source.len() {
            self.position = self.position + 1;
        }
    }

    /// The current character, if the source reaches that far.
    pub fn current(&self) -> (current: Option<char>)
        ensures
            current == char_at(self.source(), self.position()),
    {
        proof {
            use_type_invariant(self);
        }
        if self.position < self.source.len() {
            Some(self.source[self.position])
        } else {
            None
        }
    }

    /// The character behind the current one, if the source reaches that far.
    pub fn peek(&self) -> (next: Option<char>)
        ensures
            next == char_at(self.source(), self.position() + 1),
    {
        proof {
            use_type_invariant(self);
        }
        if self.position < self.source.len() && self.position + 1 < self.source.len() {
            Some(self.source[self.position + 1])
        } else {
            None
        }
    }

    /// Moves past the white space at the current position.
    pub fn skip_whitespace(&mut self)
        ensures
            final(self).source() == old(self).source(),
            final(self).position() == run_end(
                old(self).source(),
                old(self).position(),
                whitespace_class(),
            ),
    {
        proof {
            use_type_invariant(&*self);
        }
        let mut i = self.position;
        while i < self.source.len() && char_is_whitespace(self.source[i])
            invariant
                i <= self.source@.len(),
                run_end(self.source@, self.position as int, whitespace_class()) == run_end(
                    self.source@,
                    i as int,
                    whitespace_class(),
                ),
            decreases self.source.len() - i,
        {
            i += 1;
        }
        self.move_to(i);
    }

    /// Moves to `position`.
    fn move_to(&mut self, position: usize)
        requires
            position <= old(self).source().len(),
        ensures
            final(self).source() == old(self).source(),
            final(self).position() == position,
    {
        self.position = position;
    }

    /// Scans the number literal that starts at the current character: the
    /// longest run of digits and dots.
    pub fn scan_number(&mut self) -> (token: Token)
        ensures
            final(self).source() == old(self).source(),
            (token@, final(self).position()) == ({
                let start = old(self).position();
                let end = run_end(old(self).source(), start, number_class());
                (
                    TokenView {
                        kind: TokenKindView::Number(
                            literal_value(old(self).source().subrange(start, end)),
                        ),
                        span: Span { start: start as usize, end: end as usize },
                    },
                    end,
                )
            }),
    {
        proof {
            use_type_invariant(&*self);
            lemma_run_end_bounds(self.source@, self.position as int, number_class());
        }
        let start = self.position;
        let mut lexeme: Vec<char> = Vec::new();
        let mut i = start;
        while i < self.source.len() && ((self.source[i] >= '0' && self.source[i] <= '9')
            || self.source[i] == '.')
            invariant
                start <= i <= self.source@.len(),
                lexeme@ == self.source@.subrange(start as int, i as int),
                run_end(self.source@, start as int, number_class()) == run_end(
                    self.source@,
                    i as int,
                    number_class(),
                ),
            decreases self.source.len() - i,
        {
            lexeme.push(self.source[i]);
            assert(lexeme@ =~= self.source@.subrange(start as int, i + 1));
            i += 1;
        }
        let value = parse_literal(&lexeme);
        self.move_to(i);
        Token::new(TokenKind::Number(value), Span::new(start, i))
    }

    /// Scans the word that starts at the current character: that character
    /// and the longest run of alphanumeric characters and underscores behind
    /// it. The word is a keyword or an identifier.
    pub fn scan_identifier(&mut self) -> (token: Token)
        requires
            old(self).position() < old(self).source().len(),
        ensures
            final(self).source() == old(self).source(),
            (token@, final(self).position()) == ({
                let start = old(self).position();
                let end = run_end(old(self).source(), start + 1, identifier_class());
                (
                    TokenView {
                        kind: word_kind(old(self).source().subrange(start, end)),
                        span: Span { start: start as usize, end: end as usize },
                    },
                    end,
                )
            }),
    {
        proof {
            use_type_invariant(&*self);
            lemma_run_end_bounds(self.source@, self.position + 1, identifier_class());
        }
        let start = self.position;
        let len = self.source.len();
        let mut i = start + 1;
        while i < self.source.len() && (self.source[i].is_alphanumeric() || self.source[i] == '_')
            invariant
                start < i <= self.source@.len(),
                run_end(self.source@, start + 1, identifier_class()) == run_end(
                    self.source@,
                    i as int,
                    identifier_class(),
                ),
            decreases self.source.len() - i,
        {
            i += 1;
        }
        let text = text_between(&self.source, start, i);
        self.move_to(i);
        Token::new(kind_of_word(text), Span::new(start, i))
    }

    /// Scans the token at the current character as an operator or a
    /// delimiter; a character that is neither is an identifier of its own.
    pub fn scan_symbol(&mut self) -> (token: Token)
        requires
            old(self).position() < old(self).source().len(),
        ensures
            final(self).source() == old(self).source(),
            (token@, final(self).position()) == ({
                let start = old(self).position();
                let (kind, len) = symbol(
                    old(self).source()[start],
                    char_at(old(self).source(), start + 1),
                );
                (
                    TokenView {
                        kind,
                        span: Span { start: start as usize, end: (start + len) as usize },
                    },
                    start + len,
                )
            }),
    {
        proof {
            use_type_invariant(&*self);
        }
        let start = self.position;
        let c = self.source[start];
        let next = self.peek();
        self.advance();
        let kind = if c == '+' {
            TokenKind::Plus
        } else if c == '-' {
            TokenKind::Minus
        } else if c == '*' {
            TokenKind::Star
        } else if c == '/' {
            TokenKind::Slash
        } else if c == '=' {
            if next == Some('=') {
                self.advance();
                TokenKind::EqualEqual
            } else {
                TokenKind::Equal
            }
        } else if c == '<' {
            TokenKind::Less
        } else if c == '>' {
            TokenKind::Greater
        } else if c == '(' {
            TokenKind::LeftParen
        } else if c == ')' {
            TokenKind::RightParen
        } else if c == '{' {
            TokenKind::LeftBrace
        } else if c == '}' {
            TokenKind::RightBrace
        } else if c == ';' {
            TokenKind::Semicolon
        } else if c == ',' {
            TokenKind::Comma
        } else {
            let mut text = String::new();
            text.push(c);
            assert(text@ =~= seq![c]);
            TokenKind::Identifier(text)
        };
        proof {
            use_type_invariant(&*self);
        }
        let end = self.position;
        Token::new(kind, Span::new(start, end))
    }

    /// Scans the next token: white space is skipped, and at the end of the
    /// source the token is `Eof`.
    pub fn next_token(&mut self) -> (token: Token)
        ensures
            final(self).source() == old(self).source(),
            (token@, final(self).position()) == next_token_at(
                old(self).source(),
                old(self).position(),
            ),
    {
        self.skip_whitespace();
        proof {
            use_type_invariant(&*self);
        }
        match self.current() {
            None => Token::new(TokenKind::Eof, Span::new(self.position, self.position)),
            Some(c) => {
                if c >= '0' && c <= '9' {
                    self.scan_number()
                } else if c.is_alphabetic() || c == '_' {
                    self.scan_identifier()
                } else {
                    self.scan_symbol()
                }
            },
        }
    }

    /// Scans the rest of the source into tokens; the last of them is `Eof`.
    pub fn tokenize(&mut self) -> (tokens: Vec<Token>)
        ensures
            final(self).source() == old(self).source(),
            token_views(tokens@) == tokens_from(old(self).source(), old(self).position()),
    {
        proof {
            use_type_invariant(&*self);
        }
        let mut tokens: Vec<Token> = Vec::new();
        let ghost source = self.source();
        let ghost start = self.position();
        loop
            invariant
                self.source() == source,
                source == old(self).source(),
                start == old(self).position(),
                0 <= self.position() <= source.len(),
                tokens_from(source, start) == token_views(tokens@) + tokens_from(
                    source,
                    self.position(),
                ),
            decreases source.len() - self.position(),
        {
            let ghost position = self.position();
            proof {
                lemma_next_token_advances(source, position);
            }
            let token = self.next_token();
            let is_eof = match token.kind {
                TokenKind::Eof => true,
                _ => false,
            };
            let ghost view = token@;
            tokens.push(token);
            proof {
                assert(token_views(tokens@) =~= token_views(tokens@.drop_last()).push(view));
                if is_eof {
                    assert(token_views(tokens@) =~= token_views(tokens@.drop_last()) + seq![view]);
                } else {
                    assert(token_views(tokens@) + tokens_from(source, self.position())
                        =~= token_views(tokens@.drop_last()) + (seq![view] + tokens_from(
                        source,
                        self.position(),
                    )));
                }
            }
            if is_eof {
                return tokens;
            }
        }
    }
}

} // verus!
