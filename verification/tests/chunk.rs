use runtime::chunk::{Chunk, MAX_CONSTANTS};
use runtime::error::ChunkError;
use runtime::opcode::OpCode;
use runtime::value::Value;

fn shown(chunk: &Chunk) -> Vec<String> {
    chunk.constants().iter().map(|constant| constant.as_str().to_string()).collect()
}

#[test]
fn new_chunk_is_empty() {
    let chunk = Chunk::new();
    assert!(chunk.code().is_empty());
    assert!(chunk.lines().is_empty());
    assert!(chunk.constants().is_empty());
}

#[test]
fn write_byte_appends_byte_and_line() {
    let mut chunk = Chunk::new();
    chunk.write_byte(200, 7);
    assert_eq!(chunk.code(), &[200]);
    assert_eq!(chunk.lines(), &[7]);
    chunk.write_byte(0, -3);
    assert_eq!(chunk.code(), &[200, 0]);
    assert_eq!(chunk.lines(), &[7, -3]);
    assert!(chunk.constants().is_empty());
}

#[test]
fn write_instruction_appends_the_tag_byte() {
    let mut chunk = Chunk::new();
    chunk.write_instruction(OpCode::OpLess, 12);
    chunk.write_instruction(OpCode::OpReturn, 13);
    chunk.write_instruction(OpCode::OpConstant, 13);
    assert_eq!(chunk.code(), &[13, 0, 1]);
    assert_eq!(chunk.lines(), &[12, 13, 13]);
}

#[test]
fn lines_stay_as_long_as_the_code() {
    let mut chunk = Chunk::new();
    assert_eq!(chunk.lines().len(), chunk.code().len());
    for round in 0..300i32 {
        if round % 3 == 0 {
            chunk.write_instruction(OpCode::OpAdd, round);
        } else {
            chunk.write_byte((round % 256) as u8, round / 2);
        }
        assert_eq!(chunk.lines().len(), chunk.code().len());
        assert_eq!(chunk.code().len(), round as usize + 1);
    }
    chunk.add_constant(Value::new("1")).expect("the pool has room");
    assert_eq!(chunk.lines().len(), chunk.code().len());
    assert_eq!(chunk.code().len(), 300);
}

#[test]
fn add_constant_returns_the_index_and_keeps_the_order() {
    let mut chunk = Chunk::new();
    assert_eq!(chunk.add_constant(Value::new("1.5")), Ok(0));
    assert_eq!(chunk.add_constant(Value::new("nil")), Ok(1));
    assert_eq!(chunk.add_constant(Value::new("1.5")), Ok(2));
    assert_eq!(shown(&chunk), vec!["1.5", "nil", "1.5"]);
    assert!(chunk.code().is_empty());
    assert!(chunk.lines().is_empty());
}

#[test]
fn add_constant_takes_a_number_as_it_is_shown() {
    let mut chunk = Chunk::new();
    let three = 3.0_f64;
    assert_eq!(chunk.add_constant(Value::new(&format!("{}", three))), Ok(0));
    assert_eq!(shown(&chunk), vec!["3"]);
}

#[test]
fn pool_is_full_after_256_constants() {
    let mut chunk = Chunk::new();
    for index in 0..256usize {
        let added = chunk.add_constant(Value::new(&format!("{}", index)));
        assert_eq!(added, Ok(index as u8));
    }
    assert_eq!(chunk.constants().len(), MAX_CONSTANTS);
    assert_eq!(chunk.add_constant(Value::new("256")), Err(ChunkError::ConstantPoolFull));
    assert_eq!(chunk.constants().len(), 256);
    assert_eq!(chunk.constants()[255].as_str(), "255");
    assert_eq!(chunk.add_constant(Value::new("257")), Err(ChunkError::ConstantPoolFull));
    assert_eq!(chunk.constants().len(), 256);
}

#[test]
fn last_index_is_255_not_wrapped() {
    let mut chunk = Chunk::new();
    let mut last = Ok(0);
    for _ in 0..256 {
        last = chunk.add_constant(Value::new("x"));
    }
    assert_eq!(last, Ok(255));
    assert_ne!(chunk.add_constant(Value::new("x")), Ok(0));
}

#[test]
fn clone_holds_the_same_and_is_independent() {
    let mut chunk = Chunk::new();
    chunk.add_constant(Value::new("7")).expect("the pool has room");
    chunk.write_instruction(OpCode::OpConstant, 1);
    chunk.write_byte(0, 1);
    let copy = chunk.clone();
    chunk.write_instruction(OpCode::OpReturn, 2);
    assert_eq!(copy.code(), &[1, 0]);
    assert_eq!(copy.lines(), &[1, 1]);
    assert_eq!(shown(&copy), vec!["7"]);
    assert_eq!(chunk.code(), &[1, 0, 0]);
}

#[test]
fn value_shows_its_text() {
    let value = Value::new("true");
    assert_eq!(value.as_str(), "true");
    let mut out = String::from("'");
    value.print(&mut out);
    assert_eq!(out, "'true");
    assert_eq!(value.clone(), value);
    assert_ne!(Value::new("1"), Value::new("2"));
}
