//! A small dynamically typed scripting language: a semantic analyzer, a
//! bytecode generator and a stack-based virtual machine, all verified.
//!
//! - `ast`, `token`: the syntax tree the analyzer and the generator consume.
//! - `analyzer`: scoping and control-flow checks, collecting every error.
//! - `opcode`, `chunk`, `program`: the instruction model and compiled code.
//! - `generator`: lowering of a checked tree to bytecode, with closures.
//! - `vm`: the stack machine that runs a program.
//!
//! Each pass is specified by a spec function over a model of its state
//! (`check_stmt`, `gen_program`, `step`), and the executable code is proved to
//! compute exactly that function.
use vstd::prelude::*;

pub mod analyzer;
pub mod ast;
pub mod chunk;
pub mod generator;
pub mod opcode;
pub mod program;
pub mod token;
pub mod vm;

use crate::analyzer::{global_scope, program_errors, AnalyzerError};
use crate::ast::Stmt;
use crate::generator::{current, gen_program, program_ok, root_model, GenError};
use crate::vm::{initial_state, run_from, ProgramModel, RuntimeError, RuntimeValue};

verus! {

/// Why a program did not produce a value.
#[derive(Debug)]
pub enum Failure {
    /// Every static error of the program, in source order.
    Analysis(Vec<AnalyzerError>),
    Generation(GenError),
    Runtime(RuntimeError),
}

impl Failure {
    /// The exit status a command-line driver reports for this failure.
    pub fn exit_code(&self) -> (r: u8)
        ensures
            r == match self {
                Failure::Runtime(_) => 3u8,
                _ => 2u8,
            },
    {
        match self {
            Failure::Runtime(_) => 3,
            _ => 2,
        }
    }
}

/// What running `ast` yields when the analysis finds no error: the outcome
/// of the generated code, or the generator's error.
pub open spec fn compiled_outcome(ast: Seq<Stmt>, fuel: nat) -> Result<RuntimeValue, Failure> {
    let m = gen_program(root_model(), ast);
    match m.error {
        Some(e) => Err(Failure::Generation(e)),
        None => if !program_ok(m) {
            Err(Failure::Generation(GenError::Inconsistent))
        } else {
            match run_from(
            ProgramModel {
                root_opcodes: current(m).opcodes,
                root_constants: current(m).constants,
                globals: m.globals,
            },
            initial_state(),
            fuel,
        ) {
                Ok(v) => Ok(v),
                Err(e) => Err(Failure::Runtime(e)),
            }
        },
    }
}

/// Checks, compiles and runs a program for at most `fuel` instructions.
pub fn run_compile(ast: &Vec<Stmt>, fuel: u64) -> (r: Result<RuntimeValue, Failure>)
    ensures
        program_errors(global_scope(seq![]), ast@).1.len() > 0 ==> match r {
            Err(Failure::Analysis(errs)) => errs@ == program_errors(global_scope(seq![]), ast@).1,
            _ => false,
        },
        program_errors(global_scope(seq![]), ast@).1.len() == 0 ==> match (r, compiled_outcome(ast@, fuel as nat)) {
            (Ok(v), Ok(w)) => v == w,
            (Err(Failure::Generation(e)), Err(Failure::Generation(f))) => e == f,
            (Err(Failure::Runtime(e)), Err(Failure::Runtime(f))) => e == f,
            _ => false,
        },
{
    match analyzer::analyze(ast) {
        Err(errs) => Err(Failure::Analysis(errs)),
        Ok(()) => match generator::generate(ast) {
            Err(e) => Err(Failure::Generation(e)),
            Ok(program) => {
                let r = vm::run(program, fuel);
                match r {
                    Ok(v) => Ok(v),
                    Err(e) => Err(Failure::Runtime(e)),
                }
            },
        },
    }
}

} // verus!
