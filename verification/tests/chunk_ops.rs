use rlox::chunk::{Chunk, OpCodes};
use rlox::value::LoxValue;

#[test]
fn init_is_empty() {
    let c = Chunk::init();
    assert_eq!(c.code.len(), 0);
    assert_eq!(c.constants.len(), 0);
}

#[test]
fn write_appends_raw_bytes() {
    let mut c = Chunk::init();
    c.write(7);
    c.write(255);
    c.write(0);
    assert_eq!(c.code, vec![7, 255, 0]);
    assert_eq!(c.constants.len(), 0);
}

#[test]
fn write_op_appends_the_tag_byte() {
    let mut c = Chunk::init();
    c.write_op(OpCodes::OpReturn);
    c.write_op(OpCodes::OpConstant);
    assert_eq!(c.code, vec![0, 1]);
}

#[test]
fn add_constant_returns_sequential_indices_from_zero() {
    let mut c = Chunk::init();
    let a = LoxValue { hundredths: 120 };
    let b = LoxValue { hundredths: -340 };
    let d = LoxValue { hundredths: 0 };
    assert_eq!(c.add_constant(a), 0);
    assert_eq!(c.add_constant(b), 1);
    assert_eq!(c.add_constant(d), 2);
    assert_eq!(c.constants[0], a);
    assert_eq!(c.constants[1], b);
    assert_eq!(c.constants[2], d);
    assert!(c.code.is_empty());
}

#[test]
fn try_add_constant_reports_capacity() {
    let mut c = Chunk::init();
    for i in 0..256 {
        let r = c.try_add_constant(LoxValue { hundredths: i });
        assert_eq!(r, Some(i as u8));
    }
    let r = c.try_add_constant(LoxValue { hundredths: 999 });
    assert_eq!(r, None);
    assert_eq!(c.constants.len(), 256);
}

#[test]
fn opcode_tags_round_trip() {
    assert_eq!(OpCodes::OpReturn.tag(), 0);
    assert_eq!(OpCodes::OpConstant.tag(), 1);
    assert_eq!(OpCodes::from_int(OpCodes::OpReturn.tag()), OpCodes::OpReturn);
    assert_eq!(OpCodes::from_int(OpCodes::OpConstant.tag()), OpCodes::OpConstant);
}

#[test]
fn try_from_int_accepts_exactly_the_table() {
    assert_eq!(OpCodes::try_from_int(0), Some(OpCodes::OpReturn));
    assert_eq!(OpCodes::try_from_int(1), Some(OpCodes::OpConstant));
    assert_eq!(OpCodes::try_from_int(2), None);
    assert_eq!(OpCodes::try_from_int(255), None);
}
