//! Front end and code-lowering core of a compiler for a small, statically
//! typed, C-like source language: lexer, recursive-descent parser with error
//! recovery, scope-resolving analyzer that lowers the surface syntax into a
//! symbol-resolved HIR, and a code generator that lowers HIR into a typed
//! three-address IR module, with a span-tracked diagnostic model threaded
//! through all four stages.

pub mod analyzer;
pub mod ast;
pub mod codegen;
pub mod hir;
pub mod lexer;
pub mod llvm;
pub mod parser;
pub mod qbe;
pub mod report;
pub mod span;
pub mod token;
pub mod util;

use vstd::prelude::*;

use crate::analyzer::Analyzer;
use crate::codegen::Gen;
use crate::lexer::Lexer;
use crate::llvm::Module;
use crate::parser::Parser;
use crate::report::{error_count, spec_error_count, Report};

verus! {

/// Runs the four pipeline stages in order over one source text. Each stage
/// fully consumes its input before the next starts; after each stage the
/// error count is polled, and a stage that reported an error-or-worse
/// diagnostic ends the compilation. A module comes back exactly when no
/// stage reported an error.
pub fn compile(filename: &str, source: &[u8]) -> (r: (Option<Module>, Vec<Report>))
    ensures
        r.0 is Some <==> spec_error_count(r.1@) == 0,
        source@.len() == 0 ==> (r.0 matches Some(m) && m.funcs@.len() == 0 && m.decls@.len() == 0
            && m.data@.len() == 0 && r.1@.len() == 0),
        r.0 matches Some(m) ==> forall|i: int|
            0 <= i < m.data@.len() ==> crate::codegen::data_def_wf(#[trigger] m.data@[i]),
{
    let (tokens, mut reports) = Lexer::tokenize(source);
    if error_count(&reports) > 0 {
        return (None, reports);
    }

    let (ast, mut parse_reports) = Parser::parse(tokens, filename);
    reports.append(&mut parse_reports);
    if error_count(&reports) > 0 {
        return (None, reports);
    }

    let (hir, symbols, mut analyze_reports) = Analyzer::analyze(ast, filename);
    reports.append(&mut analyze_reports);
    if error_count(&reports) > 0 {
        return (None, reports);
    }

    let (module, mut gen_reports) = Gen::codegen(filename, hir, &symbols);
    reports.append(&mut gen_reports);
    if error_count(&reports) > 0 {
        return (None, reports);
    }

    (Some(module), reports)
}

} // verus!
