//! SuperC: a small array language with a lexer, a parser, an interpreter
//! that picks a backend label, and emitters for Rust, C and assembly text.
//!
//! One parsed program feeds either the interpreter or an emitter; neither
//! calls the other. The modules `arena`, `contracts`, `dispatch`,
//! `runtime` and `scheduler` hold the decisions of the native runtime that
//! emitted programs are linked against.

pub mod arena;
pub mod ast;
pub mod codegen;
pub mod codegen_asm;
pub mod compute;
pub mod contracts;
pub mod cursor;
pub mod dispatch;
pub mod env;
pub mod grammar;
pub mod lexer;
pub mod parser;
pub mod runtime;
pub mod scalar;
pub mod scheduler;
pub mod semantics;
pub mod text;
pub mod token;

pub use crate::ast::Program;
pub use crate::codegen::{Codegen, CodegenTarget};
pub use crate::codegen_asm::AsmCodegen;
pub use crate::compute::{Backend, ComputeEngine, ComputePreference, ComputeResult};
pub use crate::grammar::ParseError;
pub use crate::lexer::Lexer;
pub use crate::parser::Parser;

use vstd::prelude::*;
use crate::codegen::emit_program;
use crate::codegen_asm::asm_program;
use crate::grammar::parse_program;
use crate::lexer::lex;

verus! {

/// What compiling a source text to a language yields: the emitted text of
/// the program it parses to, or the parse error.
pub open spec fn compiled(source: Seq<char>, target: CodegenTarget) -> Result<
    Seq<char>,
    ParseError,
> {
    match parse_program(lex(source)) {
        Ok(p) => Ok(emit_program(p, target)),
        Err(e) => Err(e),
    }
}

/// A compile result agrees with what compiling yields.
pub open spec fn is_compiled(r: Result<String, ParseError>, s: Result<Seq<char>, ParseError>)
    -> bool {
    match s {
        Ok(text) => r is Ok && r->Ok_0@ == text,
        Err(e) => r == Err::<String, ParseError>(e),
    }
}

/// Compiles a source text to Rust.
pub fn compile_to_rust(source: &str) -> (r: Result<String, ParseError>)
    requires
        source@.len() < usize::MAX,
    ensures
        is_compiled(r, compiled(source@, CodegenTarget::Rust)),
{
    let mut parser = Parser::from_source(source);
    let program = match parser.parse() {
        Ok(p) => p,
        Err(e) => {
            return Err(e);
        },
    };
    let mut codegen = Codegen::new(CodegenTarget::Rust);
    Ok(codegen.generate(&program))
}

/// Compiles a source text to C.
pub fn compile_to_c(source: &str) -> (r: Result<String, ParseError>)
    requires
        source@.len() < usize::MAX,
    ensures
        is_compiled(r, compiled(source@, CodegenTarget::C)),
{
    let mut parser = Parser::from_source(source);
    let program = match parser.parse() {
        Ok(p) => p,
        Err(e) => {
            return Err(e);
        },
    };
    let mut codegen = Codegen::new(CodegenTarget::C);
    Ok(codegen.generate(&program))
}

/// Compiles a source text to assembly.
pub fn compile_to_asm(source: &str) -> (r: Result<String, ParseError>)
    requires
        source@.len() < usize::MAX,
    ensures
        is_compiled(
            r,
            match parse_program(lex(source@)) {
                Ok(p) => Ok(asm_program(p)),
                Err(e) => Err(e),
            },
        ),
{
    let mut parser = Parser::from_source(source);
    let program = match parser.parse() {
        Ok(p) => p,
        Err(e) => {
            return Err(e);
        },
    };
    let mut codegen = AsmCodegen::new();
    Ok(codegen.generate(&program))
}

} // verus!
