//! The nucleus of a bytecode virtual machine: a chunk (an instruction
//! buffer paired with a constant pool), the opcode space, and a
//! disassembler that decodes a chunk back into structured instruction
//! records and renders them as text.

pub mod chunk;
pub mod debug;
pub mod value;
