//! The instruction set: the closed set of opcodes and their one-byte encoding.

use crate::error::ChunkError;
use vstd::prelude::*;

verus! {

/// The operation that an instruction performs.
///
/// The position of a variant in this list is the byte that stands for it in
/// an instruction stream, counted from zero. New opcodes go at the end.
#[derive(Clone, Copy, Debug, PartialEq, Eq, Structural)]
pub enum OpCode {
    OpReturn,
    OpConstant,
    OpNegate,
    OpAdd,
    OpSubtract,
    OpMultiply,
    OpDivide,
    OpNil,
    OpTrue,
    OpFalse,
    OpNot,
    OpEqual,
    OpGreater,
    OpLess,
}

/// How many opcodes there are. The tag bytes in use are those below it.
pub const OPCODE_COUNT: u8 = 14;

impl OpCode {
    /// The byte that stands for this opcode in an instruction stream.
    pub open spec fn byte(self) -> u8 {
        match self {
            OpCode::OpReturn => 0,
            OpCode::OpConstant => 1,
            OpCode::OpNegate => 2,
            OpCode::OpAdd => 3,
            OpCode::OpSubtract => 4,
            OpCode::OpMultiply => 5,
            OpCode::OpDivide => 6,
            OpCode::OpNil => 7,
            OpCode::OpTrue => 8,
            OpCode::OpFalse => 9,
            OpCode::OpNot => 10,
            OpCode::OpEqual => 11,
            OpCode::OpGreater => 12,
            OpCode::OpLess => 13,
        }
    }

    /// The name of this variant.
    pub open spec fn spelling(self) -> Seq<char> {
        match self {
            OpCode::OpReturn => "OpReturn"@,
            OpCode::OpConstant => "OpConstant"@,
            OpCode::OpNegate => "OpNegate"@,
            OpCode::OpAdd => "OpAdd"@,
            OpCode::OpSubtract => "OpSubtract"@,
            OpCode::OpMultiply => "OpMultiply"@,
            OpCode::OpDivide => "OpDivide"@,
            OpCode::OpNil => "OpNil"@,
            OpCode::OpTrue => "OpTrue"@,
            OpCode::OpFalse => "OpFalse"@,
            OpCode::OpNot => "OpNot"@,
            OpCode::OpEqual => "OpEqual"@,
            OpCode::OpGreater => "OpGreater"@,
            OpCode::OpLess => "OpLess"@,
        }
    }

    /// The name of this variant, which is also what `{:?}` shows.
    pub fn as_str(self) -> (name: &'static str)
        ensures
            name@ == self.spelling(),
    {
        match self {
            OpCode::OpReturn => "OpReturn",
            OpCode::OpConstant => "OpConstant",
            OpCode::OpNegate => "OpNegate",
            OpCode::OpAdd => "OpAdd",
            OpCode::OpSubtract => "OpSubtract",
            OpCode::OpMultiply => "OpMultiply",
            OpCode::OpDivide => "OpDivide",
            OpCode::OpNil => "OpNil",
            OpCode::OpTrue => "OpTrue",
            OpCode::OpFalse => "OpFalse",
            OpCode::OpNot => "OpNot",
            OpCode::OpEqual => "OpEqual",
            OpCode::OpGreater => "OpGreater",
            OpCode::OpLess => "OpLess",
        }
    }

    /// Encodes this opcode as its tag byte.
    pub fn to_byte(self) -> (byte: u8)
        ensures
            byte == self.byte(),
    {
        match self {
            OpCode::OpReturn => 0,
            OpCode::OpConstant => 1,
            OpCode::OpNegate => 2,
            OpCode::OpAdd => 3,
            OpCode::OpSubtract => 4,
            OpCode::OpMultiply => 5,
            OpCode::OpDivide => 6,
            OpCode::OpNil => 7,
            OpCode::OpTrue => 8,
            OpCode::OpFalse => 9,
            OpCode::OpNot => 10,
            OpCode::OpEqual => 11,
            OpCode::OpGreater => 12,
            OpCode::OpLess => 13,
        }
    }
}

/// Whether `byte` is the tag of some opcode.
pub open spec fn is_opcode_byte(byte: u8) -> bool {
    exists|op: OpCode| #[trigger] op.byte() == byte
}

/// What a tag byte decodes to: the opcode that is encoded as `byte`, or
/// `InvalidOpcode` with the byte where there is none.
pub open spec fn decode(byte: u8) -> Result<OpCode, ChunkError> {
    if is_opcode_byte(byte) {
        Ok(choose|op: OpCode| #[trigger] op.byte() == byte)
    } else {
        Err(ChunkError::InvalidOpcode(byte))
    }
}

/// Encoding is one to one: two opcodes with one tag byte are the same opcode.
pub proof fn lemma_byte_injective(a: OpCode, b: OpCode)
    requires
        a.byte() == b.byte(),
    ensures
        a == b,
{
}

/// Every opcode is encoded as a byte below `OPCODE_COUNT`.
pub proof fn lemma_byte_in_range(op: OpCode)
    ensures
        op.byte() < OPCODE_COUNT,
{
}

/// Decoding undoes encoding: the tag byte of an opcode decodes to that opcode.
pub proof fn lemma_decode_encoded(op: OpCode)
    ensures
        decode(op.byte()) == Ok::<OpCode, ChunkError>(op),
{
    let found = choose|other: OpCode| #[trigger] other.byte() == op.byte();
    lemma_byte_injective(found, op);
}

/// Encoding undoes decoding: a byte that decodes to an opcode is its tag.
pub proof fn lemma_encode_decoded(byte: u8, op: OpCode)
    requires
        decode(byte) == Ok::<OpCode, ChunkError>(op),
    ensures
        op.byte() == byte,
{
}

/// A byte decodes to an opcode exactly if it is below `OPCODE_COUNT`, and a
/// byte that is not is reported back in `InvalidOpcode`.
pub proof fn lemma_decode_range(byte: u8)
    ensures
        byte < OPCODE_COUNT <==> decode(byte) is Ok,
        byte >= OPCODE_COUNT ==> decode(byte) == Err::<OpCode, ChunkError>(
            ChunkError::InvalidOpcode(byte),
        ),
{
    if byte >= OPCODE_COUNT {
        assert forall|op: OpCode| #[trigger] op.byte() != byte by {
            lemma_byte_in_range(op);
        }
    } else {
        assert(is_opcode_byte(byte)) by {
            assert(OpCode::OpReturn.byte() == 0);
            assert(OpCode::OpConstant.byte() == 1);
            assert(OpCode::OpNegate.byte() == 2);
            assert(OpCode::OpAdd.byte() == 3);
            assert(OpCode::OpSubtract.byte() == 4);
            assert(OpCode::OpMultiply.byte() == 5);
            assert(OpCode::OpDivide.byte() == 6);
            assert(OpCode::OpNil.byte() == 7);
            assert(OpCode::OpTrue.byte() == 8);
            assert(OpCode::OpFalse.byte() == 9);
            assert(OpCode::OpNot.byte() == 10);
            assert(OpCode::OpEqual.byte() == 11);
            assert(OpCode::OpGreater.byte() == 12);
            assert(OpCode::OpLess.byte() == 13);
        }
    }
}

/// Decodes a tag byte.
///
/// Succeeds with the opcode whose tag `byte` is, which is there exactly for
/// the bytes below `OPCODE_COUNT`. Fails for every other byte with
/// `InvalidOpcode`, which carries the byte.
pub fn byte_to_op(byte: u8) -> (decoded: Result<OpCode, ChunkError>)
    ensures
        decoded == decode(byte),
        byte < OPCODE_COUNT ==> decoded is Ok && decoded->Ok_0.byte() == byte,
        byte >= OPCODE_COUNT ==> decoded == Err::<OpCode, ChunkError>(
            ChunkError::InvalidOpcode(byte),
        ),
{
    let decoded = match byte {
        0 => Ok(OpCode::OpReturn),
        1 => Ok(OpCode::OpConstant),
        2 => Ok(OpCode::OpNegate),
        3 => Ok(OpCode::OpAdd),
        4 => Ok(OpCode::OpSubtract),
        5 => Ok(OpCode::OpMultiply),
        6 => Ok(OpCode::OpDivide),
        7 => Ok(OpCode::OpNil),
        8 => Ok(OpCode::OpTrue),
        9 => Ok(OpCode::OpFalse),
        10 => Ok(OpCode::OpNot),
        11 => Ok(OpCode::OpEqual),
        12 => Ok(OpCode::OpGreater),
        13 => Ok(OpCode::OpLess),
        _ => Err(ChunkError::InvalidOpcode(byte)),
    };
    proof {
        lemma_decode_range(byte);
        if let Ok(op) = decoded {
            lemma_decode_encoded(op);
        }
    }
    decoded
}

} // verus!
