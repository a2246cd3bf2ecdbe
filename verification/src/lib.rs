//! A bytecode compiler and stack machine for arithmetic expressions.
//!
//! Source text goes through the scanner and the single-pass compiler into a
//! chunk of bytecode, which the virtual machine runs. Numbers are doubles,
//! held as the 64 bits of their IEEE 754 encoding.

use vstd::prelude::*;
use crate::chunk::Chunk;
use crate::compilation::{compilation, State};
use crate::compiler::Compiler;
use crate::diagnostic::Diagnostic;
use crate::opcode::OpCode;
use crate::safety::{lemma_compilation_is_safe, lemma_compilation_settles};
use crate::vm::{lemma_run_returns, run, InterpretResult, Machine, Outcome, VM};

pub mod chunk;
pub mod compilation;
pub mod compiler;
pub mod correctness;
pub mod diagnostic;
pub mod disassembler;
pub mod expression;
pub mod lexing;
pub mod number;
pub mod opcode;
pub mod parser;
pub mod safety;
pub mod scanner;
pub mod text;
pub mod token;
pub mod value;
pub mod vm;

verus! {

/// What interpreting a source text came to.
pub struct Interpretation {
    /// How it ended.
    pub result: InterpretResult,
    /// The value of the expression, where it was run.
    pub value: Option<u64>,
    /// The compiler's reports, in the order in which they were made.
    pub diagnostics: Vec<Diagnostic>,
}

/// The state in which the compilation of `source` into an empty chunk ends.
pub open spec fn compiled(source: Seq<char>) -> State {
    compilation(source, State::initial(Seq::empty(), Seq::empty(), Seq::empty()))
}

/// How running the chunk that `state` holds ends, from its first byte and
/// with an empty stack.
pub open spec fn executed(state: State) -> Outcome {
    run(state.code, state.constants, Machine { pc: 0, stack: Seq::empty() }).1
}

/// Whatever the source, its compilation ends settled: the code is made of
/// whole instructions with every constant in the pool, every byte has its
/// line, and at most one report points at a token, which is there exactly if
/// the error flag is set.
///
/// And a chunk compiled without an error is safe to run: no instruction
/// finds too few values on the stack, and the return instruction at its end
/// finds exactly one, which is the result.
pub proof fn lemma_compiled_chunk_is_safe(source: Seq<char>)
    requires
        source.len() <= usize::MAX,
    ensures
        compiled(source).settled(),
        !compiled(source).had_error ==> {
            let end = run(
                compiled(source).code,
                compiled(source).constants,
                Machine { pc: 0, stack: Seq::empty() },
            );
            &&& compiled(source).safe()
            &&& executed(compiled(source)) is Returned
            &&& end.0.pc == compiled(source).code.len()
            &&& end.0.stack.len() == 0
        },
{
    let start = State::initial(Seq::empty(), Seq::empty(), Seq::empty());
    lemma_compilation_settles(source, start);
    lemma_compilation_is_safe(source, start);
    let end = compiled(source);
    if !end.had_error {
        let body = end.code.drop_last();
        assert(body.push(OpCode::OpReturn.byte()) =~= end.code);
        lemma_run_returns(body, end.constants, Machine { pc: 0, stack: Seq::empty() }, 1);
    }
}

/// Compiles `source` into a fresh chunk and, if no error at a token was
/// reported, runs the chunk. A chunk compiled with such an error is never
/// run, and one compiled without runs to its return: a runtime error is
/// never the result. A full constant pool is reported and is no such error.
pub fn interpret(source: String) -> (outcome: Interpretation)
    ensures
        outcome.diagnostics@ == compiled(source@).diagnostics,
        compiled(source@).had_error ==> {
            &&& outcome.result == InterpretResult::InterpretCompileError
            &&& outcome.value is None
        },
        !compiled(source@).had_error ==> {
            &&& outcome.result == InterpretResult::InterpretOk
            &&& executed(compiled(source@)) == Outcome::Returned(outcome.value->0)
            &&& outcome.value is Some
        },
{
    let ghost text = source@;
    let chunk = Chunk::new();
    let mut compiler = Compiler::from_source(source, chunk);
    let compiled = compiler.compile();
    let (chunk, diagnostics) = compiler.finish();
    if !compiled {
        return Interpretation {
            result: InterpretResult::InterpretCompileError,
            value: None,
            diagnostics,
        };
    }
    proof {
        lemma_compiled_chunk_is_safe(text);
    }
    let mut vm = VM::new(chunk);

    let result = vm.interpret();
    Interpretation { result, value: vm.output(), diagnostics }
}

} // verus!
