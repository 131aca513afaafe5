//! A miniature multi-tier execution engine: a stack-machine interpreter, an
//! execution-count profiler, an SSA-like intermediate representation with
//! optimization passes, a mock code generator and a deoptimization manager.
//!
//! Numbers are IEEE-754 binary64 values carried as their 64-bit patterns; the
//! `binary64` module defines their arithmetic over integers.

pub mod ast;
pub mod binary64;
pub mod bytecode;
pub mod codegen;
pub mod codegen_backend;
pub mod deopt;
pub mod engine;
pub mod error;
pub mod evaluation;
pub mod interpreter;
pub mod ir;
pub mod lexer;
pub mod literal;
pub mod parser;
pub mod profiler;
pub mod scope;
pub mod text;
pub mod turbofan;
pub mod types;

pub use crate::ast::{ASTNode, BinOp, AST};
pub use crate::bytecode::{BytecodeChunk, Instruction};
pub use crate::codegen::BytecodeGenerator;
pub use crate::codegen_backend::{CodeGenerator, CodegenBackend, CompiledFunction};
pub use crate::deopt::{DeoptInfo, DeoptManager, DeoptReason, DeoptState};
pub use crate::engine::Engine;
pub use crate::error::{CompileError, Error, ParseError, RuntimeError};
pub use crate::interpreter::{CallFrame, Ignition};
pub use crate::ir::{IRNode, NodeId, Type as IRType, IR};
pub use crate::lexer::{Lexer, Token, TokenKind};
pub use crate::parser::Parser;
pub use crate::profiler::HotspotProfiler;
pub use crate::scope::{Scope, ScopeType};
pub use crate::turbofan::TurboFan;
pub use crate::types::{FunctionId, Span, Value};
