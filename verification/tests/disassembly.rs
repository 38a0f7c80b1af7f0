use rlox::chunk::{Chunk, OpCodes};
use rlox::debug::{disassemble, disassemble_chunk, render_inst, DecodeError, Inst, InstRecord};
use rlox::value::LoxValue;

#[test]
fn simple_instruction_takes_one_byte_and_one_line() {
    let mut c = Chunk::init();
    c.write_op(OpCodes::OpReturn);
    let recs = disassemble(&c).unwrap();
    assert_eq!(recs.len(), 1);
    assert_eq!(recs[0], InstRecord { offset: 0, inst: Inst::Return });
    let line = render_inst(&recs[0]);
    assert_eq!(line, "0000 OP_RETURN");
    assert!(!line.contains(','));
}

#[test]
fn constant_instruction_takes_two_bytes_and_shows_the_value() {
    let mut c = Chunk::init();
    let v = LoxValue { hundredths: 120 };
    let idx = c.add_constant(v);
    assert_eq!(idx, 0);
    c.write_op(OpCodes::OpConstant);
    c.write(idx as u8);
    let recs = disassemble(&c).unwrap();
    assert_eq!(recs.len(), 1);
    assert_eq!(recs[0], InstRecord { offset: 0, inst: Inst::Constant { index: 0, value: v } });
    assert_eq!(render_inst(&recs[0]), "0000 OP_CONSTANT, 1.20");
}

#[test]
fn operand_byte_round_trips_through_decoding() {
    let mut c = Chunk::init();
    for i in 0..10 {
        c.add_constant(LoxValue { hundredths: i });
    }
    c.write_op(OpCodes::OpConstant);
    c.write(7);
    let recs = disassemble(&c).unwrap();
    assert_eq!(
        recs[0].inst,
        Inst::Constant { index: 7, value: LoxValue { hundredths: 7 } }
    );
}

#[test]
fn demo_chunk_disassembles_to_the_documented_trace() {
    let mut c = Chunk::init();
    c.write_op(OpCodes::OpReturn);
    let index = c.add_constant(LoxValue { hundredths: 120 });
    assert_eq!(index, 0);
    c.write_op(OpCodes::OpConstant);
    c.write(index as u8);
    let lines = disassemble_chunk(&c, "test chunk").unwrap();
    assert_eq!(lines, vec!["test chunk", "0000 OP_RETURN", "0001 OP_CONSTANT, 1.20"]);
}

#[test]
fn unknown_tag_fails_fast() {
    let mut c = Chunk::init();
    c.write(255);
    assert_eq!(
        disassemble(&c),
        Err(DecodeError::UnknownOpcode { offset: 0, tag: 255 })
    );
    assert_eq!(
        disassemble_chunk(&c, "bad"),
        Err(DecodeError::UnknownOpcode { offset: 0, tag: 255 })
    );
}

#[test]
fn unknown_tag_after_valid_prefix_names_its_offset() {
    let mut c = Chunk::init();
    c.write_op(OpCodes::OpReturn);
    c.write(9);
    assert_eq!(
        disassemble(&c),
        Err(DecodeError::UnknownOpcode { offset: 1, tag: 9 })
    );
}

#[test]
fn truncated_constant_instruction_is_reported() {
    let mut c = Chunk::init();
    c.add_constant(LoxValue { hundredths: 100 });
    c.write_op(OpCodes::OpConstant);
    assert_eq!(
        disassemble(&c),
        Err(DecodeError::MissingOperand { offset: 0 })
    );
}

#[test]
fn out_of_range_constant_index_is_reported() {
    let mut c = Chunk::init();
    c.write_op(OpCodes::OpConstant);
    c.write(5);
    assert_eq!(
        disassemble(&c),
        Err(DecodeError::InvalidConstantIndex { offset: 0, index: 5 })
    );
}

#[test]
fn empty_chunk_yields_only_the_header() {
    let c = Chunk::init();
    let lines = disassemble_chunk(&c, "empty").unwrap();
    assert_eq!(lines, vec!["empty"]);
    assert_eq!(disassemble(&c).unwrap().len(), 0);
}

#[test]
fn instructions_keep_buffer_order_and_offsets() {
    let mut c = Chunk::init();
    c.add_constant(LoxValue { hundredths: -50 });
    c.write_op(OpCodes::OpReturn);
    c.write_op(OpCodes::OpConstant);
    c.write(0);
    c.write_op(OpCodes::OpReturn);
    let lines = disassemble_chunk(&c, "t").unwrap();
    assert_eq!(
        lines,
        vec!["t", "0000 OP_RETURN", "0001 OP_CONSTANT, -0.50", "0003 OP_RETURN"]
    );
}

#[test]
fn offsets_widen_past_four_digits() {
    let mut c = Chunk::init();
    for _ in 0..10001 {
        c.write_op(OpCodes::OpReturn);
    }
    let lines = disassemble_chunk(&c, "big").unwrap();
    assert_eq!(lines.len(), 10002);
    assert_eq!(lines[1], "0000 OP_RETURN");
    assert_eq!(lines[10000], "9999 OP_RETURN");
    assert_eq!(lines[10001], "10000 OP_RETURN");
}
