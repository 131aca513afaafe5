//! Error types of the engine.

use vstd::prelude::*;
use vstd::std_specs::convert::FromSpecImpl;
use vstd::string::StringExecFns;
use crate::text::{decimal, decimal_string};
use crate::types::Span;

verus! {

/// Errors raised while parsing source text.
#[derive(Debug, Clone, PartialEq)]
pub enum ParseError {
    /// A token other than the expected one was found.
    UnexpectedToken { expected: String, found: String, span: Span },
    /// The input ended too early.
    UnexpectedEOF,
    /// The input is not valid syntax.
    InvalidSyntax { message: String, span: Span },
}

/// Errors raised while bytecode executes.
#[derive(Debug, Clone, PartialEq)]
pub enum RuntimeError {
    /// A local slot that does not exist was read.
    UndefinedVariable { name: String },
    /// An operand has the wrong type.
    TypeError { expected: String, found: String },
    /// A constant outside the constant pool was loaded.
    StackOverflow,
    /// An operand was popped from an empty stack.
    StackUnderflow,
    /// A number was divided by zero.
    DivisionByZero,
    /// A function was invoked; the interpreter runs no user-defined calls.
    UnsupportedCall,
    /// The step budget ran out before the program ended.
    StepLimitExceeded,
}

/// The model of a parse error: its texts as sequences of characters.
pub enum ParseErrorView {
    UnexpectedToken { expected: Seq<char>, found: Seq<char>, span: Span },
    UnexpectedEOF,
    InvalidSyntax { message: Seq<char>, span: Span },
}

impl View for ParseError {
    type V = ParseErrorView;

    open spec fn view(&self) -> ParseErrorView {
        match self {
            ParseError::UnexpectedToken { expected, found, span } => ParseErrorView::UnexpectedToken {
                expected: expected@,
                found: found@,
                span: *span,
            },
            ParseError::UnexpectedEOF => ParseErrorView::UnexpectedEOF,
            ParseError::InvalidSyntax { message, span } => ParseErrorView::InvalidSyntax {
                message: message@,
                span: *span,
            },
        }
    }
}

/// The text of a span: start and end with a colon between them.
pub open spec fn span_text(span: Span) -> Seq<char> {
    decimal(span.start as nat) + ":"@ + decimal(span.end as nat)
}

impl ParseErrorView {
    /// The message of the error.
    pub open spec fn message(self) -> Seq<char> {
        match self {
            ParseErrorView::UnexpectedToken { expected, found, span } => "Expected '"@ + expected
                + "', found '"@ + found + "' at "@ + span_text(span),
            ParseErrorView::UnexpectedEOF => "Unexpected end of file"@,
            ParseErrorView::InvalidSyntax { message, span } => message + " at "@ + span_text(span),
        }
    }
}

/// Appends the text of `span` to `text`.
fn append_span(text: &mut String, span: Span)
    ensures
        final(text)@ == old(text)@ + span_text(span),
{
    let start = decimal_string(span.start);
    let end = decimal_string(span.end);
    text.append(start.as_str());
    text.append(":");
    text.append(end.as_str());
    assert(text@ =~= old(text)@ + span_text(span));
}

impl ParseError {
    /// The message of the error.
    pub fn message(&self) -> (text: String)
        ensures
            text@ == self@.message(),
    {
        match self {
            ParseError::UnexpectedToken { expected, found, span } => {
                let mut text = String::from_str("Expected '");
                text.append(expected.as_str());
                text.append("', found '");
                text.append(found.as_str());
                text.append("' at ");
                append_span(&mut text, *span);
                assert(text@ =~= self@.message());
                text
            },
            ParseError::UnexpectedEOF => String::from_str("Unexpected end of file"),
            ParseError::InvalidSyntax { message, span } => {
                let mut text = message.clone();
                text.append(" at ");
                append_span(&mut text, *span);
                assert(text@ =~= self@.message());
                text
            },
        }
    }
}

/// The model of a runtime error: its texts as sequences of characters.
pub enum RuntimeErrorView {
    UndefinedVariable { name: Seq<char> },
    TypeError { expected: Seq<char>, found: Seq<char> },
    StackOverflow,
    StackUnderflow,
    DivisionByZero,
    UnsupportedCall,
    StepLimitExceeded,
}

impl View for RuntimeError {
    type V = RuntimeErrorView;

    open spec fn view(&self) -> RuntimeErrorView {
        match self {
            RuntimeError::UndefinedVariable { name } => RuntimeErrorView::UndefinedVariable {
                name: name@,
            },
            RuntimeError::TypeError { expected, found } => RuntimeErrorView::TypeError {
                expected: expected@,
                found: found@,
            },
            RuntimeError::StackOverflow => RuntimeErrorView::StackOverflow,
            RuntimeError::StackUnderflow => RuntimeErrorView::StackUnderflow,
            RuntimeError::DivisionByZero => RuntimeErrorView::DivisionByZero,
            RuntimeError::UnsupportedCall => RuntimeErrorView::UnsupportedCall,
            RuntimeError::StepLimitExceeded => RuntimeErrorView::StepLimitExceeded,
        }
    }
}

impl RuntimeErrorView {
    /// The message of the error.
    pub open spec fn message(self) -> Seq<char> {
        match self {
            RuntimeErrorView::UndefinedVariable { name } => "Undefined variable: "@ + name,
            RuntimeErrorView::TypeError { expected, found } => "Type error: expected "@ + expected
                + ", found "@ + found,
            RuntimeErrorView::StackOverflow => "Stack overflow"@,
            RuntimeErrorView::StackUnderflow => "Stack underflow"@,
            RuntimeErrorView::DivisionByZero => "Division by zero"@,
            RuntimeErrorView::UnsupportedCall => "Unsupported call"@,
            RuntimeErrorView::StepLimitExceeded => "Step limit exceeded"@,
        }
    }
}

impl RuntimeError {
    /// The message of the error.
    pub fn message(&self) -> (text: String)
        ensures
            text@ == self@.message(),
    {
        match self {
            RuntimeError::UndefinedVariable { name } => {
                let mut text = String::from_str("Undefined variable: ");
                text.append(name.as_str());
                text
            },
            RuntimeError::TypeError { expected, found } => {
                let mut text = String::from_str("Type error: expected ");
                text.append(expected.as_str());
                text.append(", found ");
                text.append(found.as_str());
                text
            },
            RuntimeError::StackOverflow => String::from_str("Stack overflow"),
            RuntimeError::StackUnderflow => String::from_str("Stack underflow"),
            RuntimeError::DivisionByZero => String::from_str("Division by zero"),
            RuntimeError::UnsupportedCall => String::from_str("Unsupported call"),
            RuntimeError::StepLimitExceeded => String::from_str("Step limit exceeded"),
        }
    }
}

/// Errors raised while compiling bytecode to optimized code.
#[derive(Debug, Clone, PartialEq)]
pub enum CompileError {
    /// The bytecode uses something the compiler does not handle.
    UnsupportedFeature { feature: String },
    /// An optimization pass failed.
    OptimizationFailed { reason: String },
}

/// The model of a compile error: its texts as sequences of characters.
pub enum CompileErrorView {
    UnsupportedFeature { feature: Seq<char> },
    OptimizationFailed { reason: Seq<char> },
}

impl View for CompileError {
    type V = CompileErrorView;

    open spec fn view(&self) -> CompileErrorView {
        match self {
            CompileError::UnsupportedFeature { feature } => CompileErrorView::UnsupportedFeature {
                feature: feature@,
            },
            CompileError::OptimizationFailed { reason } => CompileErrorView::OptimizationFailed {
                reason: reason@,
            },
        }
    }
}

impl CompileErrorView {
    /// The message of the error.
    pub open spec fn message(self) -> Seq<char> {
        match self {
            CompileErrorView::UnsupportedFeature { feature } => "Unsupported feature: "@ + feature,
            CompileErrorView::OptimizationFailed { reason } => "Optimization failed: "@ + reason,
        }
    }
}

impl CompileError {
    /// The message of the error.
    pub fn message(&self) -> (text: String)
        ensures
            text@ == self@.message(),
    {
        match self {
            CompileError::UnsupportedFeature { feature } => {
                let mut text = String::from_str("Unsupported feature: ");
                text.append(feature.as_str());
                text
            },
            CompileError::OptimizationFailed { reason } => {
                let mut text = String::from_str("Optimization failed: ");
                text.append(reason.as_str());
                text
            },
        }
    }
}

/// Any error of the engine.
#[derive(Debug, Clone, PartialEq)]
pub enum Error {
    /// An error from parsing.
    ParseError(ParseError),
    /// An error from execution.
    RuntimeError(RuntimeError),
    /// An error from compilation.
    CompileError(CompileError),
}


/// The model of an error.
pub enum ErrorView {
    ParseError(ParseErrorView),
    RuntimeError(RuntimeErrorView),
    CompileError(CompileErrorView),
}

impl View for Error {
    type V = ErrorView;

    open spec fn view(&self) -> ErrorView {
        match self {
            Error::ParseError(error) => ErrorView::ParseError(error@),
            Error::RuntimeError(error) => ErrorView::RuntimeError(error@),
            Error::CompileError(error) => ErrorView::CompileError(error@),
        }
    }
}

impl ErrorView {
    /// The message of the error: the kind of error, then its own message.
    pub open spec fn message(self) -> Seq<char> {
        match self {
            ErrorView::ParseError(error) => "Parse error: "@ + error.message(),
            ErrorView::RuntimeError(error) => "Runtime error: "@ + error.message(),
            ErrorView::CompileError(error) => "Compile error: "@ + error.message(),
        }
    }
}

impl Error {
    /// The message of the error.
    pub fn message(&self) -> (text: String)
        ensures
            text@ == self@.message(),
    {
        match self {
            Error::ParseError(error) => {
                let mut text = String::from_str("Parse error: ");
                let inner = error.message();
                text.append(inner.as_str());
                text
            },
            Error::RuntimeError(error) => {
                let mut text = String::from_str("Runtime error: ");
                let inner = error.message();
                text.append(inner.as_str());
                text
            },
            Error::CompileError(error) => {
                let mut text = String::from_str("Compile error: ");
                let inner = error.message();
                text.append(inner.as_str());
                text
            },
        }
    }
}

impl From<ParseError> for Error {
    fn from(error: ParseError) -> (e: Error) {
        Error::ParseError(error)
    }
}

impl FromSpecImpl<ParseError> for Error {
    open spec fn obeys_from_spec() -> bool {
        true
    }

    open spec fn from_spec(error: ParseError) -> Error {
        Error::ParseError(error)
    }
}

impl From<RuntimeError> for Error {
    fn from(error: RuntimeError) -> (e: Error) {
        Error::RuntimeError(error)
    }
}

impl FromSpecImpl<RuntimeError> for Error {
    open spec fn obeys_from_spec() -> bool {
        true
    }

    open spec fn from_spec(error: RuntimeError) -> Error {
        Error::RuntimeError(error)
    }
}

impl From<CompileError> for Error {
    fn from(error: CompileError) -> (e: Error) {
        Error::CompileError(error)
    }
}

impl FromSpecImpl<CompileError> for Error {
    open spec fn obeys_from_spec() -> bool {
        true
    }

    open spec fn from_spec(error: CompileError) -> Error {
        Error::CompileError(error)
    }
}

} // verus!
