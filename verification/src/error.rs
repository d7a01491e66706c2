//! What can go wrong when a chunk is built or read back.

use crate::opcode::OpCode;
use crate::text::{decimal, push_decimal};
use vstd::prelude::*;
use vstd::string::*;

verus! {

/// Why an operation on a chunk could not be carried out.
///
/// None of these is fatal: each is handed to the caller, who decides.
#[derive(Clone, Copy, Debug, PartialEq, Eq, Structural)]
pub enum ChunkError {
    /// The byte stands for no opcode.
    InvalidOpcode(u8),
    /// A read at this offset would fall outside the code.
    OffsetOutOfBounds(usize),
    /// The opcode is known, but there is no rule for listing it.
    NotDisassemblable(OpCode),
    /// The operand names a constant that the pool does not hold.
    ConstantIndexOutOfRange(u8),
    /// The pool already holds as many constants as one operand byte can name.
    ConstantPoolFull,
}

impl ChunkError {
    /// What `message` says of this error.
    pub open spec fn message_text(self) -> Seq<char> {
        match self {
            ChunkError::InvalidOpcode(byte) => "Invalid conversion to instruction from byte: '"@
                + decimal(byte as nat) + "'\nInstruction doesn't exist."@,
            ChunkError::OffsetOutOfBounds(offset) => "Invalid instruction found at offset: '"@
                + decimal(offset as nat) + "'\nOffset out of bounds."@,
            ChunkError::NotDisassemblable(op) => "Unknown instruction found: '"@ + op.spelling()
                + "'\nDissasembling not implemented."@,
            ChunkError::ConstantIndexOutOfRange(index) => "Invalid constant found at index: '"@
                + decimal(index as nat) + "'\nIndex out of range."@,
            ChunkError::ConstantPoolFull => "Too many constants in one chunk."@,
        }
    }

    /// This error in words, for whoever reads the report.
    pub fn message(&self) -> (message: String)
        ensures
            message@ == self.message_text(),
    {
        let mut message = String::new();
        match *self {
            ChunkError::InvalidOpcode(byte) => {
                message.append("Invalid conversion to instruction from byte: '");
                push_decimal(&mut message, byte as u64);
                message.append("'\nInstruction doesn't exist.");
            },
            ChunkError::OffsetOutOfBounds(offset) => {
                message.append("Invalid instruction found at offset: '");
                push_decimal(&mut message, offset as u64);
                message.append("'\nOffset out of bounds.");
            },
            ChunkError::NotDisassemblable(op) => {
                message.append("Unknown instruction found: '");
                message.append(op.as_str());
                message.append("'\nDissasembling not implemented.");
            },
            ChunkError::ConstantIndexOutOfRange(index) => {
                message.append("Invalid constant found at index: '");
                push_decimal(&mut message, index as u64);
                message.append("'\nIndex out of range.");
            },
            ChunkError::ConstantPoolFull => {
                message.append("Too many constants in one chunk.");
            },
        }
        message
    }
}

} // verus!
