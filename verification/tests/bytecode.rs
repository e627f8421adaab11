use rlox::bytecode::{Chunk, InvalidByteCode, Op};
use rlox::value::Value;

fn val(text: &str) -> Value {
    Value { text: String::from(text) }
}

#[test]
fn decode_single_return() {
    let mut chunk = Chunk::default();
    chunk.push(Op::Return.to_byte(), 123);
    let mut it = chunk.decode();
    assert_eq!(it.next(), Some(Ok(vec![Op::Return.to_byte()])));
    assert_eq!(it.next(), None);
}

#[test]
fn decode_single_constant() {
    let mut chunk = Chunk::default();
    let idx = chunk.add_constant(val("1.6")).unwrap();
    chunk.push(Op::Constant.to_byte(), 1);
    chunk.push(idx, 1);
    let mut it = chunk.decode();
    assert_eq!(it.next(), Some(Ok(vec![Op::Constant.to_byte(), idx])));
    assert_eq!(it.next(), None);
}

#[test]
fn add_constant_indices_are_sequential() {
    let mut chunk = Chunk::default();
    assert_eq!(chunk.add_constant(val("1.6")), Some(0));
    assert_eq!(chunk.add_constant(val("2.5")), Some(1));
    assert_eq!(chunk.add_constant(val("1.6")), Some(2));
    assert_eq!(chunk.constants.len(), 3);
}

#[test]
fn add_constant_refuses_a_full_pool() {
    let mut chunk = Chunk::default();
    for i in 0..256u32 {
        assert_eq!(chunk.add_constant(val("0")), Some(i as u8));
    }
    assert_eq!(chunk.add_constant(val("0")), None);
    assert_eq!(chunk.constants.len(), 256);
}

#[test]
fn disassemble_elides_a_repeated_line() {
    let mut chunk = Chunk::default();
    chunk.push(Op::Return.to_byte(), 123);
    chunk.push(Op::Return.to_byte(), 123);
    let expected = format!(
        "== test ==\n{:04} {:4} {}\n{:04} {}{}\n",
        0, 123, "RETURN", 1, "  |  ", "RETURN"
    );
    assert_eq!(chunk.disassemble("test"), expected);
}

#[test]
fn disassemble_prints_both_changed_lines() {
    let mut chunk = Chunk::default();
    chunk.push(Op::Return.to_byte(), 1);
    chunk.push(Op::Return.to_byte(), 2);
    let expected = format!(
        "== test ==\n{:04} {:4} {}\n{:04} {:4} {}\n",
        0, 1, "RETURN", 1, 2, "RETURN"
    );
    assert_eq!(chunk.disassemble("test"), expected);
}

#[test]
fn disassemble_renders_a_constant_instruction() {
    let mut chunk = Chunk::default();
    let idx = chunk.add_constant(val("1.6")).unwrap();
    chunk.push(Op::Constant.to_byte(), 5);
    chunk.push(idx, 5);
    let expected = format!(
        "== test ==\n{:04} {:4} {:<16} {:4} {}\n",
        0, 5, "CONSTANT", 0, "1.6"
    );
    assert_eq!(chunk.disassemble("test"), expected);
}

#[test]
fn disassemble_survives_short_line_info() {
    // The constant's index byte is appended without a line entry, so the
    // line info is one entry shorter than the code; disassembly must still
    // render both instructions.
    let mut chunk = Chunk::default();
    chunk.push(Op::Return.to_byte(), 123);
    let idx = chunk.add_constant(val("1.6")).unwrap();
    assert_eq!(idx, 0);
    chunk.push(Op::Constant.to_byte(), 123);
    chunk.code.push(idx);
    assert_eq!(chunk.code.len(), 3);
    assert_eq!(chunk.lines.len(), 2);
    let expected = format!(
        "== test ==\n{:04} {:4} {}\n{:04} {}{:<16} {:4} {}\n",
        0, 123, "RETURN", 1, "  |  ", "CONSTANT", 0, "1.6"
    );
    assert_eq!(chunk.disassemble("test"), expected);
}

#[test]
fn disassemble_offsets_count_bytes_not_instructions() {
    // The second instruction starts at byte 2, after the constant's operand
    // byte, and its line entry sits at that byte offset too.
    let mut chunk = Chunk::default();
    let idx = chunk.add_constant(val("1.6")).unwrap();
    chunk.push(Op::Constant.to_byte(), 1);
    chunk.push(idx, 1);
    chunk.push(Op::Return.to_byte(), 2);
    let expected = format!(
        "== test ==\n{:04} {:4} {:<16} {:4} {}\n{:04} {:4} {}\n",
        0, 1, "CONSTANT", 0, "1.6", 2, 2, "RETURN"
    );
    assert_eq!(chunk.disassemble("test"), expected);
}

#[test]
fn disassemble_elides_across_a_multibyte_instruction() {
    let mut chunk = Chunk::default();
    let idx = chunk.add_constant(val("1.6")).unwrap();
    chunk.push(Op::Constant.to_byte(), 5);
    chunk.push(idx, 5);
    chunk.push(Op::Return.to_byte(), 5);
    let expected = format!(
        "== test ==\n{:04} {:4} {:<16} {:4} {}\n{:04} {}{}\n",
        0, 5, "CONSTANT", 0, "1.6", 2, "  |  ", "RETURN"
    );
    assert_eq!(chunk.disassemble("test"), expected);
}

#[test]
fn decode_rejects_an_unknown_opcode() {
    let mut chunk = Chunk::default();
    chunk.push(0xFF, 1);
    let mut it = chunk.decode();
    assert_eq!(it.next(), Some(Err(InvalidByteCode::InvalidOperation(0xFF))));
    assert_eq!(it.next(), None);
}

#[test]
fn decode_rejects_a_truncated_constant() {
    let mut chunk = Chunk::default();
    chunk.push(Op::Constant.to_byte(), 1);
    let mut it = chunk.decode();
    assert_eq!(
        it.next(),
        Some(Err(InvalidByteCode::UnexpectedOperand(Op::Constant.to_byte())))
    );
    assert_eq!(it.next(), None);
}

#[test]
fn every_byte_maps_to_at_most_one_op() {
    assert_eq!(Op::from_byte(0), Some(Op::Constant));
    assert_eq!(Op::from_byte(1), Some(Op::Return));
    for b in 2..=255u8 {
        assert_eq!(Op::from_byte(b), None);
    }
    assert_eq!(Op::Constant.to_byte(), 0);
    assert_eq!(Op::Return.to_byte(), 1);
    assert_eq!(Op::Constant.arity(), 1);
    assert_eq!(Op::Return.arity(), 0);
    assert_eq!(Op::Constant.name(), "CONSTANT");
    assert_eq!(Op::Return.name(), "RETURN");
}

#[test]
fn invalid_byte_code_messages() {
    assert_eq!(
        InvalidByteCode::InvalidOperation(255).message(),
        "Expected a valid operation; got 255"
    );
    assert_eq!(
        InvalidByteCode::UnexpectedOperand(0).message(),
        "Expected a valid operand; got 0"
    );
}

#[test]
fn well_formedness_checks_opcodes_and_operands() {
    let mut good = Chunk::default();
    let idx = good.add_constant(val("1.6")).unwrap();
    good.push(Op::Constant.to_byte(), 1);
    good.push(idx, 1);
    good.push(Op::Return.to_byte(), 2);
    assert!(good.is_well_formed());

    let empty = Chunk::default();
    assert!(empty.is_well_formed());

    let mut bad_opcode = Chunk::default();
    bad_opcode.push(0xFF, 1);
    assert!(!bad_opcode.is_well_formed());

    let mut truncated = Chunk::default();
    truncated.push(Op::Constant.to_byte(), 1);
    assert!(!truncated.is_well_formed());

    let mut bad_index = Chunk::default();
    bad_index.push(Op::Constant.to_byte(), 1);
    bad_index.push(7, 1);
    assert!(!bad_index.is_well_formed());
}

#[test]
fn chunk_default_is_empty() {
    let chunk = Chunk::default();
    assert!(chunk.code.is_empty());
    assert!(chunk.lines.is_empty());
    assert!(chunk.constants.is_empty());
}
