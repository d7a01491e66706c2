//! Listing a chunk: one line of text for each instruction.
//!
//! A line holds the offset of the instruction in four digits, the source
//! line that it comes from (or `|` where the byte before it comes from the
//! same line), its mnemonic, and for an instruction with a constant the index
//! of the constant in four digits and the constant itself between quotes.
//!
//! Nothing is printed here. The text is appended to a `String` that the
//! caller hands in, and what was appended before a failure stays there.

use crate::chunk::{Chunk, ChunkView};
use crate::error::ChunkError;
use crate::opcode::{byte_to_op, decode, OpCode};
use crate::text::{
    decimal, pad_left, pad_right, push_left_aligned, push_right_aligned, push_zero_padded,
    signed_decimal,
};
use vstd::prelude::*;
use vstd::string::*;

verus! {

/// How an instruction goes on after its tag byte.
#[derive(Clone, Copy, Debug, PartialEq, Eq, Structural)]
pub enum Form {
    /// The tag byte is the whole instruction.
    Simple,
    /// One operand byte follows: the index of a constant in the pool.
    Constant,
}

/// The form in which an opcode is listed, or `None` for an opcode that has
/// no rule for listing yet.
pub open spec fn form_of(op: OpCode) -> Option<Form> {
    match op {
        OpCode::OpConstant => Some(Form::Constant),
        OpCode::OpReturn
        | OpCode::OpNegate
        | OpCode::OpAdd
        | OpCode::OpSubtract
        | OpCode::OpMultiply
        | OpCode::OpDivide
        | OpCode::OpNil
        | OpCode::OpTrue
        | OpCode::OpFalse
        | OpCode::OpNot
        | OpCode::OpEqual
        | OpCode::OpGreater
        | OpCode::OpLess => Some(Form::Simple),
    }
}

/// The name under which an opcode is listed.
pub open spec fn mnemonic(op: OpCode) -> Seq<char> {
    match op {
        OpCode::OpReturn => "OP_RETURN"@,
        OpCode::OpConstant => "OP_CONSTANT"@,
        OpCode::OpNegate => "OP_NEGATE"@,
        OpCode::OpAdd => "OP_ADD"@,
        OpCode::OpSubtract => "OP_SUBTRACT"@,
        OpCode::OpMultiply => "OP_MULTIPLY"@,
        OpCode::OpDivide => "OP_DIVIDE"@,
        OpCode::OpNil => "OP_NIL"@,
        OpCode::OpTrue => "OP_TRUE"@,
        OpCode::OpFalse => "OP_FALSE"@,
        OpCode::OpNot => "OP_NOT"@,
        OpCode::OpEqual => "OP_EQUAL"@,
        OpCode::OpGreater => "OP_GREATER"@,
        OpCode::OpLess => "OP_LESS"@,
    }
}

impl OpCode {
    /// The form in which this opcode is listed, if it has one.
    pub fn form(self) -> (form: Option<Form>)
        ensures
            form == form_of(self),
    {
        match self {
            OpCode::OpConstant => Some(Form::Constant),
            OpCode::OpReturn
            | OpCode::OpNegate
            | OpCode::OpAdd
            | OpCode::OpSubtract
            | OpCode::OpMultiply
            | OpCode::OpDivide
            | OpCode::OpNil
            | OpCode::OpTrue
            | OpCode::OpFalse
            | OpCode::OpNot
            | OpCode::OpEqual
            | OpCode::OpGreater
            | OpCode::OpLess => Some(Form::Simple),
        }
    }

    /// The name under which this opcode is listed.
    pub fn name(self) -> (name: &'static str)
        ensures
            name@ == mnemonic(self),
    {
        match self {
            OpCode::OpReturn => "OP_RETURN",
            OpCode::OpConstant => "OP_CONSTANT",
            OpCode::OpNegate => "OP_NEGATE",
            OpCode::OpAdd => "OP_ADD",
            OpCode::OpSubtract => "OP_SUBTRACT",
            OpCode::OpMultiply => "OP_MULTIPLY",
            OpCode::OpDivide => "OP_DIVIDE",
            OpCode::OpNil => "OP_NIL",
            OpCode::OpTrue => "OP_TRUE",
            OpCode::OpFalse => "OP_FALSE",
            OpCode::OpNot => "OP_NOT",
            OpCode::OpEqual => "OP_EQUAL",
            OpCode::OpGreater => "OP_GREATER",
            OpCode::OpLess => "OP_LESS",
        }
    }
}

/// The first column of a line: the offset in at least four digits, and a
/// space.
pub open spec fn offset_column(offset: int) -> Seq<char> {
    pad_left(decimal(offset as nat), 4, '0') + " "@
}

/// Whether the byte at `offset` comes from the same source line as the byte
/// before it.
pub open spec fn continues_line(chunk: ChunkView, offset: int) -> bool {
    offset > 0 && chunk.lines[offset] == chunk.lines[offset - 1]
}

/// The second column of a line: the source line of the byte at `offset`
/// in at least four characters, or a bar where the byte before it comes
/// from the same line, and a space.
pub open spec fn line_column(chunk: ChunkView, offset: int) -> Seq<char> {
    if continues_line(chunk, offset) {
        "   | "@
    } else {
        pad_left(signed_decimal(chunk.lines[offset] as int), 4, ' ') + " "@
    }
}

/// What a simple instruction is listed as after the two columns.
pub open spec fn simple_text(name: Seq<char>) -> Seq<char> {
    name + "\n"@
}

/// What an instruction with a constant is listed as after the two columns,
/// up to the opening quote: its name in a column of sixteen, and the index
/// of the constant in at least four digits.
pub open spec fn constant_head(name: Seq<char>, index: u8) -> Seq<char> {
    pad_right(name, 16, ' ') + " "@ + pad_left(decimal(index as nat), 4, '0') + " '"@
}

/// What an instruction with a constant is listed as after the two columns:
/// the head, and then the constant and the closing quote if the pool holds
/// a constant at `index`.
pub open spec fn constant_text(chunk: ChunkView, name: Seq<char>, index: u8) -> Seq<char> {
    if index < chunk.constants.len() {
        constant_head(name, index) + chunk.constants[index as int] + "'\n"@
    } else {
        constant_head(name, index)
    }
}

/// Where the instruction that starts at `offset` ends, or why it cannot be
/// listed.
///
/// - `OffsetOutOfBounds(offset)`: no byte of code is at `offset`.
/// - `InvalidOpcode(byte)`: the byte there is the tag of no opcode.
/// - `NotDisassemblable(op)`: the opcode has no form.
/// - `OffsetOutOfBounds(offset + 1)`: the operand byte is missing.
/// - `ConstantIndexOutOfRange(index)`: the pool holds no constant at the
///   index that the operand byte gives.
pub open spec fn step(chunk: ChunkView, offset: int) -> Result<int, ChunkError> {
    if !(0 <= offset < chunk.code.len()) {
        Err(ChunkError::OffsetOutOfBounds(offset as usize))
    } else {
        match decode(chunk.code[offset]) {
            Err(error) => Err(error),
            Ok(op) => match form_of(op) {
                None => Err(ChunkError::NotDisassemblable(op)),
                Some(Form::Simple) => Ok(offset + 1),
                Some(Form::Constant) => if offset + 1 >= chunk.code.len() {
                    Err(ChunkError::OffsetOutOfBounds((offset + 1) as usize))
                } else if chunk.code[offset + 1] >= chunk.constants.len() {
                    Err(ChunkError::ConstantIndexOutOfRange(chunk.code[offset + 1]))
                } else {
                    Ok(offset + 2)
                },
            },
        }
    }
}

/// The text that listing the instruction at `offset` writes: its whole line
/// where it can be listed, and else as much of the line as comes before the
/// point of failure.
pub open spec fn instruction_text(chunk: ChunkView, offset: int) -> Seq<char> {
    if !(0 <= offset < chunk.code.len()) {
        offset_column(offset)
    } else {
        let columns = offset_column(offset) + line_column(chunk, offset);
        match decode(chunk.code[offset]) {
            Err(_) => columns,
            Ok(op) => match form_of(op) {
                None => columns,
                Some(Form::Simple) => columns + simple_text(mnemonic(op)),
                Some(Form::Constant) => if offset + 1 >= chunk.code.len() {
                    columns
                } else {
                    columns + constant_text(chunk, mnemonic(op), chunk.code[offset + 1])
                },
            },
        }
    }
}

/// A walk over the code, one instruction after the other.
pub struct Walk {
    /// The offsets at which the walk found an instruction, in order. If the
    /// walk failed, the last one is where it did.
    pub starts: Seq<int>,
    /// The text that the walk wrote.
    pub text: Seq<char>,
    /// Whether the walk reached the end of the code, or why it stopped.
    pub outcome: Result<(), ChunkError>,
}

/// The walk that starts at `offset` and goes on to the end of the code, or
/// to the first instruction that cannot be listed.
pub open spec fn walk(chunk: ChunkView, offset: int) -> Walk
    decreases chunk.code.len() - offset,
{
    if !(0 <= offset < chunk.code.len()) {
        Walk { starts: Seq::empty(), text: Seq::empty(), outcome: Ok(()) }
    } else {
        match step(chunk, offset) {
            Err(error) => Walk {
                starts: seq![offset],
                text: instruction_text(chunk, offset),
                outcome: Err(error),
            },
            Ok(next) => {
                let rest = walk(chunk, next);
                Walk {
                    starts: seq![offset] + rest.starts,
                    text: instruction_text(chunk, offset) + rest.text,
                    outcome: rest.outcome,
                }
            },
        }
    }
}

/// The line that heads the listing of a chunk called `name`.
pub open spec fn header(name: Seq<char>) -> Seq<char> {
    "== "@ + name + " ==\n"@
}

impl Chunk {
    /// Lists the whole chunk under the heading `name`: appends the header
    /// and then the line of each instruction, from offset 0 on, to `out`.
    ///
    /// Succeeds exactly if the instructions follow one another up to the end
    /// of the code. Stops at the first one that cannot be listed and returns
    /// its error; the text up to that point stays in `out`.
    pub fn dissasemble(&self, name: &str, out: &mut String) -> (listed: Result<(), ChunkError>)
        ensures
            listed == walk(self@, 0).outcome,
            final(out)@ == old(out)@ + header(name@) + walk(self@, 0).text,
    {
        let ghost before = out@;
        out.append("== ");
        out.append(name);
        out.append(" ==\n");

        let len = self.code().len();
        let mut offset: usize = 0;
        while offset < len
            invariant
                len == self@.code.len(),
                before == old(out)@,
                walk(self@, 0).outcome == walk(self@, offset as int).outcome,
                before + header(name@) + walk(self@, 0).text == out@ + walk(
                    self@,
                    offset as int,
                ).text,
            decreases len - offset,
        {
            match self.dissasemble_instruction(offset, out) {
                Ok(next) => {
                    offset = next;
                },
                Err(error) => {
                    return Err(error);
                },
            }
        }
        Ok(())
    }

    /// Lists the instruction that starts at `offset`: appends its line to
    /// `out` and returns the offset at which the next instruction starts,
    /// which is 1 further for a simple instruction and 2 further for one
    /// with a constant.
    ///
    /// Fails, with the error that `step` names, if there is no instruction at
    /// `offset` or it cannot be listed; `out` then holds the line as far as
    /// it got.
    pub fn dissasemble_instruction(&self, offset: usize, out: &mut String) -> (stepped: Result<
        usize,
        ChunkError,
    >)
        ensures
            match stepped {
                Ok(next) => step(self@, offset as int) == Ok::<int, ChunkError>(next as int),
                Err(error) => step(self@, offset as int) == Err::<int, ChunkError>(error),
            },
            final(out)@ == old(out)@ + instruction_text(self@, offset as int),
    {
        let code = self.code();
        let lines = self.lines();

        push_zero_padded(out, offset as u64, 4);
        out.append(" ");
        if offset >= code.len() {
            return Err(ChunkError::OffsetOutOfBounds(offset));
        }
        if offset > 0 && lines[offset] == lines[offset - 1] {
            out.append("   | ");
        } else {
            push_right_aligned(out, lines[offset] as i64, 4);
            out.append(" ");
        }

        let instruction = match byte_to_op(code[offset]) {
            Ok(instruction) => instruction,
            Err(error) => {
                return Err(error);
            },
        };
        match instruction.form() {
            Some(Form::Simple) => Ok(self.simple_instruction(instruction.name(), offset, out)),
            Some(Form::Constant) => self.constant_instruction(instruction.name(), offset, out),
            None => Err(ChunkError::NotDisassemblable(instruction)),
        }
    }

    /// Ends the line of a simple instruction at `offset` with its name.
    fn simple_instruction(&self, name: &str, offset: usize, out: &mut String) -> (next: usize)
        requires
            offset < self@.code.len(),
            offset < usize::MAX,
        ensures
            next == offset + 1,
            final(out)@ == old(out)@ + simple_text(name@),
    {
        out.append(name);
        out.append("\n");
        offset + 1
    }

    /// Ends the line of an instruction at `offset` whose operand is the
    /// index of a constant: with its name, the index, and the constant.
    fn constant_instruction(&self, name: &str, offset: usize, out: &mut String) -> (stepped: Result<
        usize,
        ChunkError,
    >)
        requires
            offset < self@.code.len(),
            offset < usize::MAX,
        ensures
            stepped == if offset + 1 >= self@.code.len() {
                Err::<usize, ChunkError>(ChunkError::OffsetOutOfBounds((offset + 1) as usize))
            } else if self@.code[offset + 1] >= self@.constants.len() {
                Err::<usize, ChunkError>(
                    ChunkError::ConstantIndexOutOfRange(self@.code[offset + 1]),
                )
            } else {
                Ok::<usize, ChunkError>((offset + 2) as usize)
            },
            final(out)@ == old(out)@ + if offset + 1 >= self@.code.len() {
                Seq::<char>::empty()
            } else {
                constant_text(self@, name@, self@.code[offset + 1])
            },
    {
        let code = self.code();
        let constants = self.constants();
        if offset + 1 >= code.len() {
            return Err(ChunkError::OffsetOutOfBounds(offset + 1));
        }
        let constant = code[offset + 1];
        push_left_aligned(out, name, 16);
        out.append(" ");
        push_zero_padded(out, constant as u64, 4);
        out.append(" '");
        if constant as usize >= constants.len() {
            return Err(ChunkError::ConstantIndexOutOfRange(constant));
        }
        constants[constant as usize].print(out);
        out.append("'\n");
        Ok(offset + 2)
    }
}

/// How far the instruction at `offset` reaches: the distance from its start
/// to the start of the next, or 0 where it cannot be listed.
pub open spec fn width(chunk: ChunkView, offset: int) -> int {
    match step(chunk, offset) {
        Ok(next) => next - offset,
        Err(_) => 0,
    }
}

/// The widths of the instructions that start at `starts`, added up.
pub open spec fn total_width(chunk: ChunkView, starts: Seq<int>) -> int
    decreases starts.len(),
{
    if starts.len() == 0 {
        0
    } else {
        width(chunk, starts.first()) + total_width(chunk, starts.drop_first())
    }
}

/// Every opcode has a form, so none is refused as `NotDisassemblable`.
pub proof fn lemma_every_opcode_has_form(op: OpCode)
    ensures
        form_of(op) is Some,
{
}

/// No step fails with `NotDisassemblable`, whatever the chunk holds.
pub proof fn lemma_step_finds_a_form(chunk: ChunkView, offset: int)
    ensures
        !(step(chunk, offset) matches Err(ChunkError::NotDisassemblable(_))),
{
}

/// A step that succeeds starts inside the code, ends inside it or at its
/// end, and moves on by the length of the instruction: by exactly 1 over a
/// simple instruction, by exactly 2 over one with a constant.
pub proof fn lemma_step_advances(chunk: ChunkView, offset: int, next: int)
    requires
        step(chunk, offset) == Ok::<int, ChunkError>(next),
    ensures
        0 <= offset < next <= chunk.code.len(),
        decode(chunk.code[offset]) is Ok,
        form_of(decode(chunk.code[offset])->Ok_0) == Some(Form::Simple) ==> next == offset + 1,
        form_of(decode(chunk.code[offset])->Ok_0) == Some(Form::Constant) ==> next == offset + 2,
        width(chunk, offset) == next - offset,
{
}

/// A walk that reaches the end of the code has gone over every byte once:
/// it starts with the instruction at `offset`, each instruction after the
/// first starts where the one before it ends, the last ends where the code
/// ends, and the widths add up to the number of bytes from `offset` on.
pub proof fn lemma_walk_tiles(chunk: ChunkView, offset: int)
    requires
        0 <= offset <= chunk.code.len(),
        walk(chunk, offset).outcome is Ok,
    ensures
        offset < chunk.code.len() ==> walk(chunk, offset).starts.len() > 0 && walk(
            chunk,
            offset,
        ).starts[0] == offset,
        offset == chunk.code.len() ==> walk(chunk, offset).starts.len() == 0,
        forall|i: int|
            0 <= i < walk(chunk, offset).starts.len() ==> step(
                chunk,
                #[trigger] walk(chunk, offset).starts[i],
            ) == Ok::<int, ChunkError>(
                if i + 1 < walk(chunk, offset).starts.len() {
                    walk(chunk, offset).starts[i + 1]
                } else {
                    chunk.code.len() as int
                },
            ),
        total_width(chunk, walk(chunk, offset).starts) == chunk.code.len() - offset,
    decreases chunk.code.len() - offset,
{
    if offset < chunk.code.len() {
        let next = step(chunk, offset)->Ok_0;
        lemma_step_advances(chunk, offset, next);
        lemma_walk_tiles(chunk, next);
        let starts = walk(chunk, offset).starts;
        let rest = walk(chunk, next).starts;
        assert(starts.drop_first() =~= rest);
        assert forall|i: int| 0 <= i < starts.len() implies step(chunk, #[trigger] starts[i])
            == Ok::<int, ChunkError>(
            if i + 1 < starts.len() {
                starts[i + 1]
            } else {
                chunk.code.len() as int
            },
        ) by {
            if i > 0 {
            }
        }
    }
}

/// The steps of a full walk that succeeds add up to the length of the code.
pub proof fn lemma_full_walk_covers_code(chunk: ChunkView)
    requires
        walk(chunk, 0).outcome is Ok,
    ensures
        total_width(chunk, walk(chunk, 0).starts) == chunk.code.len(),
{
    lemma_walk_tiles(chunk, 0);
}

/// Listing is repeatable: two listings of one chunk under one name append
/// the same text, whatever `out` held before each.
pub proof fn lemma_listing_repeatable(
    chunk: ChunkView,
    name: Seq<char>,
    first_before: Seq<char>,
    first_after: Seq<char>,
    second_before: Seq<char>,
    second_after: Seq<char>,
)
    requires
        first_after == first_before + header(name) + walk(chunk, 0).text,
        second_after == second_before + header(name) + walk(chunk, 0).text,
    ensures
        first_after.skip(first_before.len() as int) == second_after.skip(
            second_before.len() as int,
        ),
{
    let listing = header(name) + walk(chunk, 0).text;
}

} // verus!
