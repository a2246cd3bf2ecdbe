//! The virtual machine: a stack machine that runs one chunk.
//!
//! What running means is defined first, on a `Machine`; the `VM` below
//! computes exactly that.

use vstd::prelude::*;
use crate::chunk::{Chunk, depth_after};
use crate::number::{binary_result, negate, negation_of, result_of};
use crate::opcode::OpCode;

verus! {

/// Why a run was given up. Each of these means that the chunk was not
/// written by a compilation without errors.
#[derive(Clone, Copy, Debug, PartialEq, Eq, Structural)]
pub enum Fault {
    /// An instruction needed more values than the stack held.
    EmptyStack,
    /// The byte is no instruction.
    UnknownOpcode(u8),
    /// The code ended where an instruction or its operand was due.
    EndOfCode,
    /// The pool has no constant of this index.
    NoSuchConstant(u8),
}

/// How a run ended: with the value that the return instruction took from
/// the stack, or with a fault.
#[derive(Clone, Copy, Debug, PartialEq, Eq, Structural)]
pub enum Outcome {
    Returned(u64),
    Failed(Fault),
}

/// The moving parts of the machine: the offset of the next instruction, and
/// the operand stack, its top last.
pub struct Machine {
    pub pc: int,
    pub stack: Seq<u64>,
}

/// What one instruction leads to.
pub enum Step {
    /// The machine goes on from here.
    Next(Machine),
    /// The machine stops here.
    Halt(Machine, Outcome),
}

/// Executes the instruction at `m.pc`.
///
/// The opcode is fetched and passed over first. A constant load then reads
/// its operand, passes over it and pushes that constant. A binary
/// instruction takes the right operand from the top and the left one from
/// below it, and pushes the result. Negation replaces the top. Return takes
/// the top as the run's result. A fault leaves the stack as it was.
pub open spec fn step(code: Seq<u8>, constants: Seq<u64>, m: Machine) -> Step {
    let depth = m.stack.len() as int;
    if m.pc < 0 || m.pc >= code.len() {
        Step::Halt(m, Outcome::Failed(Fault::EndOfCode))
    } else {
        let fetched = Machine { pc: m.pc + 1, stack: m.stack };
        match OpCode::decode(code[m.pc]) {
            None => Step::Halt(fetched, Outcome::Failed(Fault::UnknownOpcode(code[m.pc]))),
            Some(OpCode::OpConstant) => {
                if m.pc + 1 >= code.len() {
                    Step::Halt(fetched, Outcome::Failed(Fault::EndOfCode))
                } else {
                    let index = code[m.pc + 1];
                    if index >= constants.len() {
                        Step::Halt(
                            Machine { pc: m.pc + 2, stack: m.stack },
                            Outcome::Failed(Fault::NoSuchConstant(index)),
                        )
                    } else {
                        Step::Next(Machine { pc: m.pc + 2, stack: m.stack.push(constants[index as int]) })
                    }
                }
            },
            Some(OpCode::OpNegate) => {
                if depth < 1 {
                    Step::Halt(fetched, Outcome::Failed(Fault::EmptyStack))
                } else {
                    Step::Next(
                        Machine { pc: m.pc + 1, stack: m.stack.drop_last().push(negation_of(m.stack.last())) },
                    )
                }
            },
            Some(OpCode::OpReturn) => {
                if depth < 1 {
                    Step::Halt(fetched, Outcome::Failed(Fault::EmptyStack))
                } else {
                    Step::Halt(
                        Machine { pc: m.pc + 1, stack: m.stack.drop_last() },
                        Outcome::Returned(m.stack.last()),
                    )
                }
            },
            Some(op) => {
                if depth < 2 {
                    Step::Halt(fetched, Outcome::Failed(Fault::EmptyStack))
                } else {
                    Step::Next(
                        Machine {
                            pc: m.pc + 1,
                            stack: m.stack.take(depth - 2).push(
                                result_of(op, m.stack[depth - 2], m.stack[depth - 1]),
                            ),
                        },
                    )
                }
            },
        }
    }
}

/// Executes instructions from `m.pc` on until one stops the machine.
pub open spec fn run(code: Seq<u8>, constants: Seq<u64>, m: Machine) -> (Machine, Outcome)
    decreases code.len() - m.pc,
{
    match step(code, constants, m) {
        Step::Next(next) => run(code, constants, next),
        Step::Halt(last, outcome) => (last, outcome),
    }
}

/// Code that leaves at least one value on the stack, with a return
/// instruction behind it, runs through and returns: no instruction fails,
/// and the return takes the topmost of the values that are left.
pub proof fn lemma_run_returns(body: Seq<u8>, constants: Seq<u64>, m: Machine, left: nat)
    requires
        0 <= m.pc <= body.len(),
        depth_after(body, constants.len(), m.pc, m.stack.len()) == Some(left),
        left >= 1,
    ensures
        ({
            let end = run(body.push(OpCode::OpReturn.byte()), constants, m);
            &&& end.1 is Returned
            &&& end.0.pc == body.len() + 1
            &&& end.0.stack.len() == left - 1
        }),
    decreases body.len() - m.pc,
{
    let code = body.push(OpCode::OpReturn.byte());
    if m.pc < body.len() {
        assert(code[m.pc] == body[m.pc]);
        if OpCode::decode(body[m.pc]) == Some(OpCode::OpConstant) {
            assert(code[m.pc + 1] == body[m.pc + 1]);
        }
        match step(code, constants, m) {
            Step::Next(next) => {
                lemma_run_returns(body, constants, next, left);
            },
            Step::Halt(_, _) => {},
        }
    } else {
        assert(code[m.pc] == OpCode::OpReturn.byte());
    }
}

/// What a machine was asked to do beside running.
pub struct Settings {
    debug: bool,
}

/// A stack machine over one chunk. It keeps what the last run came to: the
/// value that a return instruction reported, or the fault.
pub struct VM {
    pub chunk: Chunk,
    pc: usize,
    settings: Settings,
    stack: Vec<u64>,
    output: Option<u64>,
    fault: Option<Fault>,
}

/// How interpreting ended.
#[derive(Clone, Copy, Debug, PartialEq, Eq, Structural)]
pub enum InterpretResult {
    InterpretOk,
    InterpretCompileError,
    InterpretRuntimeError,
}

impl View for VM {
    type V = Machine;

    closed spec fn view(&self) -> Machine {
        Machine { pc: self.pc as int, stack: self.stack@ }
    }
}

impl VM {
    /// The chunk that the machine runs.
    pub closed spec fn program(&self) -> Chunk {
        self.chunk
    }

    /// The code of the chunk that the machine runs.
    pub open spec fn code(&self) -> Seq<u8> {
        self.program().code@
    }

    /// The constant pool of the chunk that the machine runs.
    pub open spec fn constants(&self) -> Seq<u64> {
        self.program().constants@
    }

    /// The value that the last return instruction reported, if one has run.
    pub closed spec fn reported(&self) -> Option<u64> {
        self.output
    }

    /// The fault that stopped the last run, if one did.
    pub closed spec fn failure(&self) -> Option<Fault> {
        self.fault
    }

    /// Whether tracing is asked for.
    pub closed spec fn tracing(&self) -> bool {
        self.settings.debug
    }

    /// A machine at the start of `chunk`, with tracing asked for.
    pub fn new(chunk: Chunk) -> (vm: Self)
        ensures
            vm.program() == chunk,
            vm@ == (Machine { pc: 0, stack: Seq::empty() }),
            vm.reported() is None,
            vm.failure() is None,
            vm.tracing(),
    {
        VM {
            chunk: chunk,
            pc: 0,
            settings: Settings { debug: true },
            stack: Vec::new(),
            output: None,
            fault: None,
        }
    }

    /// Replaces the chunk and leaves the machine where it stands.
    pub fn update_chunk(&mut self, chunk: Chunk)
        ensures
            final(self).program() == chunk,
            final(self)@ == old(self)@,
            final(self).reported() == old(self).reported(),
            final(self).failure() == old(self).failure(),
            final(self).tracing() == old(self).tracing(),
    {
        self.chunk = chunk;
    }

    /// Runs the chunk from where the machine stands until an instruction
    /// stops it. A compile error is never the result.
    pub fn interpret(&mut self) -> (result: InterpretResult)
        ensures
            final(self).program() == old(self).program(),
            final(self).tracing() == old(self).tracing(),
            final(self)@ == run(old(self).code(), old(self).constants(), old(self)@).0,
            match run(old(self).code(), old(self).constants(), old(self)@).1 {
                Outcome::Returned(value) => {
                    &&& result == InterpretResult::InterpretOk
                    &&& final(self).reported() == Some(value)
                    &&& final(self).failure() == old(self).failure()
                },
                Outcome::Failed(fault) => {
                    &&& result == InterpretResult::InterpretRuntimeError
                    &&& final(self).reported() == old(self).reported()
                    &&& final(self).failure() == Some(fault)
                },
            },
    {
        self.run()
    }

    /// The dispatch loop.
    fn run(&mut self) -> (result: InterpretResult)
        ensures
            final(self).program() == old(self).program(),
            final(self).tracing() == old(self).tracing(),
            final(self)@ == run(old(self).code(), old(self).constants(), old(self)@).0,
            match run(old(self).code(), old(self).constants(), old(self)@).1 {
                Outcome::Returned(value) => {
                    &&& result == InterpretResult::InterpretOk
                    &&& final(self).reported() == Some(value)
                    &&& final(self).failure() == old(self).failure()
                },
                Outcome::Failed(fault) => {
                    &&& result == InterpretResult::InterpretRuntimeError
                    &&& final(self).reported() == old(self).reported()
                    &&& final(self).failure() == Some(fault)
                },
            },
    {
        let ghost code = self.code();
        let ghost constants = self.constants();
        loop
            invariant
                self.program() == old(self).program(),
                code == self.code(),
                constants == self.constants(),
                self.tracing() == old(self).tracing(),
                self.reported() == old(self).reported(),
                self.failure() == old(self).failure(),
                run(code, constants, self@) == run(code, constants, old(self)@),
            decreases code.len() - self@.pc,
        {
            match self.step() {
                Some(result) => {
                    return result;
                },
                None => {},
            }
        }
    }

    /// Executes one instruction. `None` means that the machine goes on.
    pub fn step(&mut self) -> (result: Option<InterpretResult>)
        ensures
            final(self).program() == old(self).program(),
            final(self).tracing() == old(self).tracing(),
            match step(old(self).code(), old(self).constants(), old(self)@) {
                Step::Next(next) => {
                    &&& result is None
                    &&& final(self)@ == next
                    &&& final(self).reported() == old(self).reported()
                    &&& final(self).failure() == old(self).failure()
                },
                Step::Halt(last, Outcome::Returned(value)) => {
                    &&& result == Some(InterpretResult::InterpretOk)
                    &&& final(self)@ == last
                    &&& final(self).reported() == Some(value)
                    &&& final(self).failure() == old(self).failure()
                },
                Step::Halt(last, Outcome::Failed(fault)) => {
                    &&& result == Some(InterpretResult::InterpretRuntimeError)
                    &&& final(self)@ == last
                    &&& final(self).reported() == old(self).reported()
                    &&& final(self).failure() == Some(fault)
                },
            },
    {
        if self.pc >= self.chunk.code.len() {
            return Some(self.fail(Fault::EndOfCode));
        }
        let byte = self.chunk.code[self.pc];
        self.increment_counter();
        let instruction = match OpCode::from_byte(byte) {
            Some(instruction) => instruction,
            None => {
                return Some(self.fail(Fault::UnknownOpcode(byte)));
            },
        };
        match instruction {
            OpCode::OpAdd | OpCode::OpSub | OpCode::OpMult | OpCode::OpDiv | OpCode::OpMod => {
                if !self.binary(instruction) {
                    return Some(self.fail(Fault::EmptyStack));
                }
            },
            OpCode::OpConstant => {
                if self.pc >= self.chunk.code.len() {
                    return Some(self.fail(Fault::EndOfCode));
                }
                let operand = self.chunk.code[self.pc];
                let number = operand as usize;
                self.increment_counter();
                if number >= self.chunk.constants.len() {
                    return Some(self.fail(Fault::NoSuchConstant(operand)));
                }
                let constant = self.chunk.constants[number];
                self.stack.push(constant);
            },
            OpCode::OpNegate => {
                match self.stack.pop() {
                    Some(negate_num) => {
                        self.stack.push(negate(negate_num));
                    },
                    None => {
                        return Some(self.fail(Fault::EmptyStack));
                    },
                }
            },
            OpCode::OpReturn => {
                match self.stack.pop() {
                    Some(x) => {
                        self.output = Some(x);
                        return Some(InterpretResult::InterpretOk);
                    },
                    None => {
                        return Some(self.fail(Fault::EmptyStack));
                    },
                }
            },
        }
        None
    }

    /// Notes the fault that ends the run.
    fn fail(&mut self, fault: Fault) -> (result: InterpretResult)
        ensures
            result == InterpretResult::InterpretRuntimeError,
            final(self).program() == old(self).program(),
            final(self).tracing() == old(self).tracing(),
            final(self)@ == old(self)@,
            final(self).reported() == old(self).reported(),
            final(self).failure() == Some(fault),
    {
        self.fault = Some(fault);
        InterpretResult::InterpretRuntimeError
    }

    /// Moves to the next byte of code.
    fn increment_counter(&mut self)
        requires
            old(self).pc < usize::MAX,
        ensures
            final(self).program() == old(self).program(),
            final(self).tracing() == old(self).tracing(),
            final(self)@ == (Machine { pc: old(self)@.pc + 1, stack: old(self)@.stack }),
            final(self).reported() == old(self).reported(),
            final(self).failure() == old(self).failure(),
    {
        self.pc += 1;
    }

    /// Replaces the two topmost values by what `op` makes of them, the lower
    /// one being the left operand. Tells whether there were two.
    fn binary(&mut self, op: OpCode) -> (done: bool)
        ensures
            final(self).program() == old(self).program(),
            final(self).tracing() == old(self).tracing(),
            final(self)@.pc == old(self)@.pc,
            final(self).reported() == old(self).reported(),
            final(self).failure() == old(self).failure(),
            done == (old(self)@.stack.len() >= 2),
            !done ==> final(self)@.stack == old(self)@.stack,
            done ==> final(self)@.stack == old(self)@.stack.take(old(self)@.stack.len() - 2).push(
                result_of(
                    op,
                    old(self)@.stack[old(self)@.stack.len() - 2],
                    old(self)@.stack[old(self)@.stack.len() - 1],
                ),
            ),
    {
        if self.stack.len() < 2 {
            return false;
        }
        let b = self.stack.pop().unwrap();
        let a = self.stack.pop().unwrap();
        self.stack.push(binary_result(op, a, b));
        true
    }

    /// The offset of the next instruction.
    pub fn program_counter(&self) -> (pc: usize)
        ensures
            pc == self@.pc,
    {
        self.pc
    }

    /// The operand stack, its top last.
    pub fn stack(&self) -> (stack: &Vec<u64>)
        ensures
            stack@ == self@.stack,
    {
        &self.stack
    }

    /// The value that the last return instruction reported, if one has run.
    pub fn output(&self) -> (value: Option<u64>)
        ensures
            value == self.reported(),
    {
        self.output
    }

    /// The fault that stopped the last run, if one did.
    pub fn fault(&self) -> (fault: Option<Fault>)
        ensures
            fault == self.failure(),
    {
        self.fault
    }

    /// Whether tracing is asked for.
    pub fn is_tracing(&self) -> (debug: bool)
        ensures
            debug == self.tracing(),
    {
        self.settings.debug
    }

    /// Asks for tracing, or no longer.
    pub fn set_tracing(&mut self, debug: bool)
        ensures
            final(self).program() == old(self).program(),
            final(self)@ == old(self)@,
            final(self).reported() == old(self).reported(),
            final(self).failure() == old(self).failure(),
            final(self).tracing() == debug,
    {
        self.settings.debug = debug;
    }
}

} // verus!
