//! The instruction set: six opcodes, each one byte, three of them followed
//! by a one-byte signed operand.

use vstd::prelude::*;

verus! {

/// An instruction's opcode.
#[derive(Clone, Copy, PartialEq, Eq, Debug, Structural)]
pub enum OpCode {
    /// Call the function whose id is the operand.
    Call,
    /// Move the program counter by the operand, relative to this instruction's operand byte.
    Jump,
    /// Start a prompt cycle: read and dispatch words until the line ends.
    Prompt,
    /// Push the sign-extended operand onto the data stack.
    PushNum,
    /// Read and dispatch one word.
    Read,
    /// Return to the calling function.
    Return,
}

impl OpCode {
    /// The byte that encodes this opcode.
    pub open spec fn byte(self) -> i8 {
        match self {
            OpCode::Call => 0,
            OpCode::Jump => 1,
            OpCode::Prompt => 2,
            OpCode::PushNum => 3,
            OpCode::Read => 4,
            OpCode::Return => 5,
        }
    }

    /// The opcode that a byte encodes, if any.
    pub open spec fn decode(val: i8) -> Option<OpCode> {
        if val == 0 {
            Some(OpCode::Call)
        } else if val == 1 {
            Some(OpCode::Jump)
        } else if val == 2 {
            Some(OpCode::Prompt)
        } else if val == 3 {
            Some(OpCode::PushNum)
        } else if val == 4 {
            Some(OpCode::Read)
        } else if val == 5 {
            Some(OpCode::Return)
        } else {
            None
        }
    }

    /// Whether an operand byte follows the opcode.
    pub open spec fn has_operand(self) -> bool {
        self is Call || self is Jump || self is PushNum
    }

    /// Decodes a byte; `None` for a byte that is no opcode.
    pub fn from_i8(val: i8) -> (r: Option<OpCode>)
        ensures
            r == Self::decode(val),
            r matches Some(op) ==> op.byte() == val,
    {
        match val {
            0 => Some(OpCode::Call),
            1 => Some(OpCode::Jump),
            2 => Some(OpCode::Prompt),
            3 => Some(OpCode::PushNum),
            4 => Some(OpCode::Read),
            5 => Some(OpCode::Return),
            _ => None,
        }
    }

    /// Encodes the opcode as its byte.
    pub fn to_i8(self) -> (r: i8)
        ensures
            r == self.byte(),
            Self::decode(r) == Some(self),
    {
        match self {
            OpCode::Call => 0,
            OpCode::Jump => 1,
            OpCode::Prompt => 2,
            OpCode::PushNum => 3,
            OpCode::Read => 4,
            OpCode::Return => 5,
        }
    }
}

/// Encoding and decoding are inverse: every opcode decodes from its own byte,
/// and a byte that decodes is the byte of the opcode it decodes to.
pub proof fn lemma_opcode_round_trip(op: OpCode, val: i8)
    ensures
        OpCode::decode(op.byte()) == Some(op),
        OpCode::decode(val) == Some(op) <==> val == op.byte(),
{
}

} // verus!
