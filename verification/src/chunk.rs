//! The chunk: instruction bytes, the pool of constants that they refer to,
//! and the source line of every byte.

pub use crate::error::ChunkError;
pub use crate::opcode::{byte_to_op, OpCode};
pub use crate::value::Value;
use vstd::prelude::*;

verus! {

/// The most constants that a pool can hold: as many as one operand byte can
/// tell apart.
pub const MAX_CONSTANTS: usize = 256;

/// One program for the virtual machine, in the making or complete.
///
/// A chunk starts empty and only grows. Its line map has one entry for each
/// byte of code at all times, and its pool never holds more than
/// `MAX_CONSTANTS` constants; both hold of every chunk there is, so no
/// function asks for them.
#[derive(Debug)]
pub struct Chunk {
    code: Vec<u8>,
    constants: Vec<Value>,
    lines: Vec<i32>,
}

/// What a chunk holds, as mathematical sequences.
pub struct ChunkView {
    /// The instruction stream: tag bytes, each followed by its operand bytes.
    pub code: Seq<u8>,
    /// The pool, each constant as the text that shows it.
    pub constants: Seq<Seq<char>>,
    /// The source line of each byte of `code`.
    pub lines: Seq<i32>,
}

impl ChunkView {
    /// The chunk that holds nothing.
    pub open spec fn empty() -> ChunkView {
        ChunkView { code: Seq::empty(), constants: Seq::empty(), lines: Seq::empty() }
    }

    /// Whether the line map is as long as the code and the pool is within
    /// its limit.
    pub open spec fn well_formed(self) -> bool {
        &&& self.lines.len() == self.code.len()
        &&& self.constants.len() <= MAX_CONSTANTS
    }

    /// This chunk after `byte`, from source line `line`, was written to it.
    pub open spec fn with_byte(self, byte: u8, line: i32) -> ChunkView {
        ChunkView { code: self.code.push(byte), lines: self.lines.push(line), ..self }
    }

    /// This chunk after a constant shown as `shown` was added to its pool.
    pub open spec fn with_constant(self, shown: Seq<char>) -> ChunkView {
        ChunkView { constants: self.constants.push(shown), ..self }
    }

    /// This chunk after each of `writes`, a byte and its line, was written
    /// to it in turn.
    pub open spec fn with_bytes(self, writes: Seq<(u8, i32)>) -> ChunkView
        decreases writes.len(),
    {
        if writes.len() == 0 {
            self
        } else {
            self.with_bytes(writes.drop_last()).with_byte(writes.last().0, writes.last().1)
        }
    }
}

impl View for Chunk {
    type V = ChunkView;

    closed spec fn view(&self) -> ChunkView {
        ChunkView {
            code: self.code@,
            constants: self.constants@.map_values(|value: Value| value@),
            lines: self.lines@,
        }
    }
}

impl Chunk {
    #[verifier::type_invariant]
    spec fn well_formed(self) -> bool {
        self@.well_formed()
    }

    /// An empty chunk.
    pub fn new() -> (chunk: Chunk)
        ensures
            chunk@ == ChunkView::empty(),
    {
        let chunk = Chunk { code: Vec::new(), constants: Vec::new(), lines: Vec::new() };
        assert(chunk@.constants =~= Seq::empty());
        chunk
    }

    /// Writes the tag byte of `instruction`, which comes from source line
    /// `line`, at the end of the code.
    pub fn write_instruction(&mut self, instruction: OpCode, line: i32)
        ensures
            final(self)@ == old(self)@.with_byte(instruction.byte(), line),
            final(self)@.well_formed(),
    {
        self.write_byte(instruction.to_byte(), line);
    }

    /// Writes `byte`, which comes from source line `line`, at the end of the
    /// code. The byte is taken as it is: that an operand stands where the
    /// instruction before it wants one is up to the caller.
    pub fn write_byte(&mut self, byte: u8, line: i32)
        ensures
            final(self)@ == old(self)@.with_byte(byte, line),
            final(self)@.well_formed(),
    {
        // The parts are taken out, changed and put back together, so that
        // no chunk is ever seen with a line map shorter than its code.
        let mut taken = Chunk::new();
        std::mem::swap(self, &mut taken);
        proof {
            use_type_invariant(&taken);
        }
        let Chunk { mut code, constants, mut lines } = taken;
        lines.push(line);
        code.push(byte);
        *self = Chunk { code, constants, lines };
    }

    /// Adds `constant` at the end of the pool and returns its index, which an
    /// operand byte can then name.
    ///
    /// Fails with `ConstantPoolFull`, and leaves the chunk as it was, exactly
    /// if the pool already holds `MAX_CONSTANTS` constants.
    pub fn add_constant(&mut self, constant: Value) -> (added: Result<u8, ChunkError>)
        ensures
            final(self)@.well_formed(),
            old(self)@.constants.len() < MAX_CONSTANTS ==> {
                &&& added == Ok::<u8, ChunkError>(old(self)@.constants.len() as u8)
                &&& final(self)@ == old(self)@.with_constant(constant@)
            },
            old(self)@.constants.len() >= MAX_CONSTANTS ==> {
                &&& added == Err::<u8, ChunkError>(ChunkError::ConstantPoolFull)
                &&& final(self)@ == old(self)@
            },
    {
        proof {
            use_type_invariant(&*self);
        }
        let index = self.constants.len();
        if index >= MAX_CONSTANTS {
            return Err(ChunkError::ConstantPoolFull);
        }
        let mut taken = Chunk::new();
        std::mem::swap(self, &mut taken);
        let Chunk { code, mut constants, lines } = taken;
        constants.push(constant);
        *self = Chunk { code, constants, lines };
        assert(self@.constants =~= old(self)@.constants.push(constant@));
        Ok(index as u8)
    }

    /// The instruction stream.
    pub fn code(&self) -> (code: &[u8])
        ensures
            code@ == self@.code,
            self@.well_formed(),
    {
        proof {
            use_type_invariant(self);
        }
        self.code.as_slice()
    }

    /// The source line of each byte of the instruction stream.
    pub fn lines(&self) -> (lines: &[i32])
        ensures
            lines@ == self@.lines,
            self@.well_formed(),
    {
        proof {
            use_type_invariant(self);
        }
        self.lines.as_slice()
    }

    /// The pool of constants.
    pub fn constants(&self) -> (constants: &[Value])
        ensures
            constants@.len() == self@.constants.len(),
            forall|i: int|
                0 <= i < constants@.len() ==> (#[trigger] constants@[i])@ == self@.constants[i],
            self@.well_formed(),
    {
        proof {
            use_type_invariant(self);
        }
        self.constants.as_slice()
    }
}

impl Clone for Chunk {
    fn clone(&self) -> (copy: Chunk)
        ensures
            copy@ == self@,
    {
        proof {
            use_type_invariant(self);
        }
        let code = self.code.clone();
        let constants = self.constants.clone();
        let lines = self.lines.clone();
        assert(constants@.map_values(|value: Value| value@) =~= self.constants@.map_values(
            |value: Value| value@,
        ));
        Chunk { code, constants, lines }
    }
}

/// Writing keeps the line map in step with the code: whatever bytes are
/// written to a chunk whose line map is as long as its code, in whatever
/// number, each adds one byte and one line, so the two stay equally long, and
/// the pool is left alone.
pub proof fn lemma_writes_keep_lines_in_step(chunk: ChunkView, writes: Seq<(u8, i32)>)
    requires
        chunk.lines.len() == chunk.code.len(),
    ensures
        chunk.with_bytes(writes).lines.len() == chunk.with_bytes(writes).code.len(),
        chunk.with_bytes(writes).code == chunk.code + writes.map_values(|write: (u8, i32)| write.0),
        chunk.with_bytes(writes).lines == chunk.lines + writes.map_values(
            |write: (u8, i32)| write.1,
        ),
        chunk.with_bytes(writes).constants == chunk.constants,
    decreases writes.len(),
{
    if writes.len() > 0 {
        lemma_writes_keep_lines_in_step(chunk, writes.drop_last());
    }
}

} // verus!
