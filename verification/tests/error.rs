use runtime::error::ChunkError;
use runtime::opcode::OpCode;

#[test]
fn invalid_opcode_message_names_the_byte() {
    assert_eq!(
        ChunkError::InvalidOpcode(255).message(),
        "Invalid conversion to instruction from byte: '255'\nInstruction doesn't exist."
    );
}

#[test]
fn out_of_bounds_message_names_the_offset() {
    assert_eq!(
        ChunkError::OffsetOutOfBounds(12).message(),
        "Invalid instruction found at offset: '12'\nOffset out of bounds."
    );
}

#[test]
fn not_disassemblable_message_names_the_opcode() {
    assert_eq!(
        ChunkError::NotDisassemblable(OpCode::OpNegate).message(),
        "Unknown instruction found: 'OpNegate'\nDissasembling not implemented."
    );
}

#[test]
fn constant_messages() {
    assert_eq!(
        ChunkError::ConstantIndexOutOfRange(9).message(),
        "Invalid constant found at index: '9'\nIndex out of range."
    );
    assert_eq!(ChunkError::ConstantPoolFull.message(), "Too many constants in one chunk.");
}

#[test]
fn errors_compare_by_what_they_carry() {
    assert_eq!(ChunkError::InvalidOpcode(1), ChunkError::InvalidOpcode(1));
    assert_ne!(ChunkError::InvalidOpcode(1), ChunkError::InvalidOpcode(2));
    assert_ne!(ChunkError::OffsetOutOfBounds(1), ChunkError::InvalidOpcode(1));
}
