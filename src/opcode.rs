use vstd::prelude::*;

use crate::error::WSocketError;

verus! {

/// The frame-type tag carried in the low four bits of a frame's first byte.
#[derive(Debug, Clone, Copy, PartialEq, Eq, Structural)]
pub enum OpCode {
    Continuation,
    Text,
    Binary,
    Close,
    Ping,
    Pong,
}

/// The wire value of an opcode.
pub open spec fn opcode_value(op: OpCode) -> u8 {
    match op {
        OpCode::Continuation => 0x0,
        OpCode::Text => 0x1,
        OpCode::Binary => 0x2,
        OpCode::Close => 0x8,
        OpCode::Ping => 0x9,
        OpCode::Pong => 0xA,
    }
}

/// The opcode with the given wire value, if there is one.
pub open spec fn opcode_of(v: u8) -> Option<OpCode> {
    if v == 0x0 {
        Some(OpCode::Continuation)
    } else if v == 0x1 {
        Some(OpCode::Text)
    } else if v == 0x2 {
        Some(OpCode::Binary)
    } else if v == 0x8 {
        Some(OpCode::Close)
    } else if v == 0x9 {
        Some(OpCode::Ping)
    } else if v == 0xA {
        Some(OpCode::Pong)
    } else {
        None
    }
}

/// Close, Ping and Pong are control frames.
pub open spec fn is_control_opcode(op: OpCode) -> bool {
    op == OpCode::Close || op == OpCode::Ping || op == OpCode::Pong
}

/// Every opcode is read back from its own wire value.
pub proof fn lemma_opcode_value_round_trip(op: OpCode)
    ensures
        opcode_of(opcode_value(op)) == Some(op),
        opcode_value(op) < 16,
{
}

impl OpCode {
    /// Reads an opcode from its wire value.
    pub fn try_from(value: u8) -> (r: Result<OpCode, WSocketError>)
        ensures
            opcode_of(value) matches Some(op) ==> r == Ok::<OpCode, WSocketError>(op),
            opcode_of(value) is None ==> (r matches Err(WSocketError::UnknownOpCode(v)) && v == value),
    {
        match value {
            0x0 => Ok(OpCode::Continuation),
            0x1 => Ok(OpCode::Text),
            0x2 => Ok(OpCode::Binary),
            0x8 => Ok(OpCode::Close),
            0x9 => Ok(OpCode::Ping),
            0xA => Ok(OpCode::Pong),
            code => Err(WSocketError::UnknownOpCode(code)),
        }
    }

    /// The wire value of this opcode.
    pub fn value(&self) -> (r: u8)
        ensures
            r == opcode_value(*self),
    {
        match self {
            OpCode::Continuation => 0x0,
            OpCode::Text => 0x1,
            OpCode::Binary => 0x2,
            OpCode::Close => 0x8,
            OpCode::Ping => 0x9,
            OpCode::Pong => 0xA,
        }
    }

    /// Whether this is a control frame's opcode.
    pub fn is_control(&self) -> (r: bool)
        ensures
            r == is_control_opcode(*self),
    {
        match self {
            OpCode::Close | OpCode::Ping | OpCode::Pong => true,
            _ => false,
        }
    }
}

} // verus!
