//! The instruction set: one byte per opcode.

use vstd::prelude::*;

verus! {

/// The instructions of the stack machine. `OpConstant` is followed by one
/// operand byte, an index into the constant pool; the others stand alone.
#[derive(Clone, Copy, Debug, PartialEq, Eq, Structural)]
pub enum OpCode {
    OpConstant,
    OpAdd,
    OpSub,
    OpMult,
    OpDiv,
    OpMod,  // modulus operator
    OpNegate,
    OpReturn,
}

impl OpCode {
    /// The byte that encodes this instruction.
    pub open spec fn byte(self) -> u8 {
        match self {
            OpCode::OpConstant => 0,
            OpCode::OpAdd => 1,
            OpCode::OpSub => 2,
            OpCode::OpMult => 3,
            OpCode::OpDiv => 4,
            OpCode::OpMod => 5,
            OpCode::OpNegate => 6,
            OpCode::OpReturn => 7,
        }
    }

    /// The instruction that `byte` encodes, if it encodes one.
    pub open spec fn decode(byte: u8) -> Option<OpCode> {
        if byte == 0 {
            Some(OpCode::OpConstant)
        } else if byte == 1 {
            Some(OpCode::OpAdd)
        } else if byte == 2 {
            Some(OpCode::OpSub)
        } else if byte == 3 {
            Some(OpCode::OpMult)
        } else if byte == 4 {
            Some(OpCode::OpDiv)
        } else if byte == 5 {
            Some(OpCode::OpMod)
        } else if byte == 6 {
            Some(OpCode::OpNegate)
        } else if byte == 7 {
            Some(OpCode::OpReturn)
        } else {
            None
        }
    }

    /// How many operand bytes follow this instruction.
    pub open spec fn operands(self) -> nat {
        match self {
            OpCode::OpConstant => 1,
            _ => 0,
        }
    }

    /// Encodes the instruction.
    pub fn to_byte(self) -> (byte: u8)
        ensures
            byte == self.byte(),
            OpCode::decode(byte) == Some(self),
    {
        match self {
            OpCode::OpConstant => 0,
            OpCode::OpAdd => 1,
            OpCode::OpSub => 2,
            OpCode::OpMult => 3,
            OpCode::OpDiv => 4,
            OpCode::OpMod => 5,
            OpCode::OpNegate => 6,
            OpCode::OpReturn => 7,
        }
    }

    /// Decodes one byte; `None` where no instruction has that encoding.
    pub fn from_byte(byte: u8) -> (opcode: Option<OpCode>)
        ensures
            opcode == OpCode::decode(byte),
            opcode matches Some(op) ==> op.byte() == byte,
            opcode is None <==> byte > 7,
    {
        match byte {
            0 => Some(OpCode::OpConstant),
            1 => Some(OpCode::OpAdd),
            2 => Some(OpCode::OpSub),
            3 => Some(OpCode::OpMult),
            4 => Some(OpCode::OpDiv),
            5 => Some(OpCode::OpMod),
            6 => Some(OpCode::OpNegate),
            7 => Some(OpCode::OpReturn),
            _ => None,
        }
    }

    /// The number of operand bytes to pass over behind this instruction.
    pub fn operand_count(self) -> (count: usize)
        ensures
            count == self.operands(),
    {
        match self {
            OpCode::OpConstant => 1,
            _ => 0,
        }
    }
}

} // verus!
