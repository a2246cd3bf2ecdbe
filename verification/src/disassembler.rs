//! The disassembler: reads a chunk back as a list of instructions.

use vstd::prelude::*;
use crate::chunk::Chunk;
use crate::opcode::OpCode;

verus! {

/// The functions that read a chunk back.
pub struct Disassembler {}

/// One instruction of a chunk, as a listing shows it.
#[derive(Clone, Copy, Debug, PartialEq, Eq, Structural)]
pub struct Instruction {
    /// Where the instruction starts.
    pub offset: usize,
    /// The source line that the instruction came from.
    pub line: u64,
    /// Whether the byte before the instruction came from the same line.
    pub same_line: bool,
    /// The byte at `offset`.
    pub byte: u8,
    /// The instruction that the byte encodes, if it encodes one.
    pub opcode: Option<OpCode>,
    /// The operand of a constant load, where the code holds it.
    pub operand: Option<u8>,
    /// The constant that the operand names, where the pool holds it.
    pub constant: Option<u64>,
}

/// The instruction at `offset`, which lies in the code.
pub open spec fn instruction_at(chunk: Chunk, offset: int) -> Instruction {
    let byte = chunk.code@[offset];
    let opcode = OpCode::decode(byte);
    let operand = if opcode == Some(OpCode::OpConstant) && offset + 1 < chunk.code@.len() {
        Some(chunk.code@[offset + 1])
    } else {
        None
    };
    Instruction {
        offset: offset as usize,
        line: chunk.lines@[offset],
        same_line: offset > 0 && chunk.lines@[offset] == chunk.lines@[offset - 1],
        byte,
        opcode,
        operand,
        constant: match operand {
            Some(index) if index < chunk.constants@.len() => Some(chunk.constants@[index as int]),
            _ => None,
        },
    }
}

/// Where the instruction behind the one at `offset` starts: behind the
/// operand where there is one, else behind the byte.
pub open spec fn next_offset(chunk: Chunk, offset: int) -> int {
    if instruction_at(chunk, offset).operand is Some {
        offset + 2
    } else {
        offset + 1
    }
}

/// The instructions of the chunk from `offset` on.
pub open spec fn listing(chunk: Chunk, offset: int) -> Seq<Instruction>
    decreases chunk.code@.len() - offset,
{
    if 0 <= offset < chunk.code@.len() {
        seq![instruction_at(chunk, offset)] + listing(chunk, next_offset(chunk, offset))
    } else {
        Seq::empty()
    }
}

/// The name under which a listing shows an instruction.
pub open spec fn mnemonic(opcode: OpCode) -> Seq<char> {
    match opcode {
        OpCode::OpConstant => "OpConstant"@,
        OpCode::OpAdd => "OpAdd"@,
        OpCode::OpSub => "OpSub"@,
        OpCode::OpMult => "OpMult"@,
        OpCode::OpDiv => "OpDiv"@,
        OpCode::OpMod => "OpMod"@,
        OpCode::OpNegate => "OpNegate"@,
        OpCode::OpReturn => "OpReturn"@,
    }
}

impl Disassembler {
    /// Lists the instructions of the chunk, from its first byte on.
    pub fn disassemble_chunk(chunk: &Chunk) -> (instructions: Vec<Instruction>)
        requires
            chunk.wf(),
        ensures
            instructions@ == listing(*chunk, 0),
    {
        let mut instructions: Vec<Instruction> = Vec::new();
        let mut offset: usize = 0;
        while offset < chunk.code.len()
            invariant
                chunk.wf(),
                instructions@ + listing(*chunk, offset as int) == listing(*chunk, 0),
            decreases chunk.code.len() - offset,
        {
            let (instruction, next) = Disassembler::disassemble_instruction(chunk, offset);
            proof {
                assert(instructions@.push(instruction) + listing(*chunk, next as int) =~= instructions@
                    + listing(*chunk, offset as int));
            }
            instructions.push(instruction);
            offset = next;
        }
        proof {
            assert(instructions@ + listing(*chunk, offset as int) =~= instructions@);
        }
        instructions
    }

    /// Reads the instruction at `offset` and tells where the next one starts.
    pub fn disassemble_instruction(chunk: &Chunk, offset: usize) -> (read: (Instruction, usize))
        requires
            chunk.wf(),
            offset < chunk.code@.len(),
        ensures
            read.0 == instruction_at(*chunk, offset as int),
            read.1 == next_offset(*chunk, offset as int),
            offset < read.1 <= chunk.code@.len(),
    {
        let length = chunk.code.len();
        let same_line = offset > 0 && chunk.lines[offset] == chunk.lines[offset - 1];
        let byte = chunk.code[offset];
        let opcode = OpCode::from_byte(byte);
        let instruction = Instruction {
            offset,
            line: chunk.lines[offset],
            same_line,
            byte,
            opcode,
            operand: None,
            constant: None,
        };
        match opcode {
            Some(instruction_code) => {
                if instruction_code.operand_count() > 0 && offset + 1 < length {
                    return Disassembler::constant_instruction(chunk, instruction, offset);
                }
                return (instruction, Disassembler::simple_instruction(offset));
            },
            None => {
                return (instruction, Disassembler::simple_instruction(offset));
            },
        }
    }

    /// Completes a constant load by its operand and the constant it names.
    pub fn constant_instruction(chunk: &Chunk, instruction: Instruction, offset: usize) -> (read: (
        Instruction,
        usize,
    ))
        requires
            offset + 1 < chunk.code@.len(),
        ensures
            read.0 == (Instruction {
                operand: Some(chunk.code@[offset + 1]),
                constant: if chunk.code@[offset + 1] < chunk.constants@.len() {
                    Some(chunk.constants@[chunk.code@[offset + 1] as int])
                } else {
                    None
                },
                ..instruction
            }),
            read.1 == offset + 2,
    {
        let length = chunk.code.len();
        let constant: u8 = chunk.code[offset + 1];
        let value = if (constant as usize) < chunk.constants.len() {
            Some(chunk.constants[constant as usize])
        } else {
            None
        };
        return (Instruction { operand: Some(constant), constant: value, ..instruction }, offset + 2);
    }

    /// Where the instruction behind one without an operand starts.
    pub fn simple_instruction(offset: usize) -> (next: usize)
        requires
            offset < usize::MAX,
        ensures
            next == offset + 1,
    {
        return offset + 1;
    }

    /// The name under which a listing shows an instruction.
    pub fn name(opcode: OpCode) -> (name: &'static str)
        ensures
            name@ == mnemonic(opcode),
    {
        match opcode {
            OpCode::OpConstant => "OpConstant",
            OpCode::OpAdd => "OpAdd",
            OpCode::OpSub => "OpSub",
            OpCode::OpMult => "OpMult",
            OpCode::OpDiv => "OpDiv",
            OpCode::OpMod => "OpMod",
            OpCode::OpNegate => "OpNegate",
            OpCode::OpReturn => "OpReturn",
        }
    }
}

} // verus!
