//! Bytecode chunks for a stack-based virtual machine, and their disassembly.
//!
//! - [`opcode`]: the instruction set and its one-byte encoding.
//! - [`value`]: the constants that instructions refer to.
//! - [`chunk`]: the chunk itself, which a compiler fills by appending and an
//!   interpreter reads back.
//! - [`disassembler`]: the listing of a chunk, instruction by instruction.
//! - [`text`]: the number and column formats that a listing is made of.
//! - [`error`]: what can go wrong.
//!
//! Every function states what it returns and changes, and is proved to do
//! so for every input. No function panics.

pub mod chunk;
pub mod disassembler;
pub mod error;
pub mod opcode;
pub mod text;
pub mod value;
