//! The chunk data structure: a growable instruction buffer and its
//! constant pool, together with the opcode space.

use vstd::prelude::*;
use crate::value::LoxValue;

verus! {

/// The tag byte that encodes `OpCodes::OpReturn`.
pub const OP_RETURN_TAG: u8 = 0;

/// The tag byte that encodes `OpCodes::OpConstant`.
pub const OP_CONSTANT_TAG: u8 = 1;

/// The closed opcode space: each member carries a fixed one-byte tag
/// and a fixed number of operand bytes.
#[derive(Clone, Copy, PartialEq, Eq, Structural, Debug)]
pub enum OpCodes {
    /// No operands.
    OpReturn,
    /// One operand byte: an index into the constant pool.
    OpConstant,
}

/// The fixed byte tag an opcode is encoded as.
pub open spec fn tag_of(op: OpCodes) -> u8 {
    match op {
        OpCodes::OpReturn => OP_RETURN_TAG,
        OpCodes::OpConstant => OP_CONSTANT_TAG,
    }
}

/// Decodes a tag byte to its opcode, where one is defined for it.
pub open spec fn decode_tag(b: u8) -> Option<OpCodes> {
    if b == OP_RETURN_TAG {
        Some(OpCodes::OpReturn)
    } else if b == OP_CONSTANT_TAG {
        Some(OpCodes::OpConstant)
    } else {
        None
    }
}

/// Whether some opcode is encoded by this tag byte.
pub open spec fn is_opcode_tag(b: u8) -> bool {
    decode_tag(b) is Some
}

/// How many operand bytes follow the opcode's tag byte.
pub open spec fn operand_width(op: OpCodes) -> nat {
    match op {
        OpCodes::OpReturn => 0,
        OpCodes::OpConstant => 1,
    }
}

/// Encoding an opcode to its tag and decoding the tag again yields the
/// same opcode: the tag mapping is a bijection on the defined opcodes.
pub proof fn lemma_tag_round_trip(op: OpCodes)
    ensures
        decode_tag(tag_of(op)) == Some(op),
{
}

impl OpCodes {
    /// The fixed byte tag this opcode is encoded as.
    pub fn tag(&self) -> (t: u8)
        ensures
            t == tag_of(*self),
    {
        match self {
            OpCodes::OpReturn => OP_RETURN_TAG,
            OpCodes::OpConstant => OP_CONSTANT_TAG,
        }
    }

    /// Decodes a tag byte known to be in the opcode table. A tag outside
    /// the table is a corrupted-invariant condition, left out by the
    /// precondition; `try_from_int` is the total, fallible form.
    pub fn from_int(value: u8) -> (op: OpCodes)
        requires
            is_opcode_tag(value),
        ensures
            decode_tag(value) == Some(op),
            tag_of(op) == value,
    {
        if value == OP_CONSTANT_TAG {
            OpCodes::OpConstant
        } else {
            OpCodes::OpReturn
        }
    }

    /// Decodes any tag byte: `Some` exactly on the tags of the opcode
    /// table, `None` on every other byte.
    pub fn try_from_int(value: u8) -> (r: Option<OpCodes>)
        ensures
            r == decode_tag(value),
            r is Some <==> is_opcode_tag(value),
    {
        if value == OP_RETURN_TAG {
            Some(OpCodes::OpReturn)
        } else if value == OP_CONSTANT_TAG {
            Some(OpCodes::OpConstant)
        } else {
            None
        }
    }
}

/// A unit of bytecode: an instruction buffer and the constant pool its
/// operands index into. Built by appends only; never edited in place.
pub struct Chunk {
    /// Encoded instructions: each begins with one opcode tag byte,
    /// followed by that opcode's operand bytes.
    pub code: Vec<u8>,
    /// Append-only pool of constants; an operand byte is an index here.
    pub constants: Vec<LoxValue>,
}

impl Chunk {
    /// A new chunk with an empty instruction buffer and an empty
    /// constant pool.
    pub fn init() -> (c: Chunk)
        ensures
            c.code@ == Seq::<u8>::empty(),
            c.constants@ == Seq::<LoxValue>::empty(),
    {
        Chunk { code: Vec::new(), constants: Vec::new() }
    }

    /// Appends one raw byte to the instruction buffer; any value is
    /// accepted without interpretation. The constant pool is untouched.
    pub fn write(&mut self, item: u8)
        ensures
            final(self).code@ == old(self).code@.push(item),
            final(self).constants@ == old(self).constants@,
    {
        self.code.push(item);
    }

    /// Appends the opcode's tag byte to the instruction buffer. The
    /// caller appends the opcode's operand bytes, if any, afterwards.
    pub fn write_op(&mut self, code: OpCodes)
        ensures
            final(self).code@ == old(self).code@.push(tag_of(code)),
            final(self).constants@ == old(self).constants@,
    {
        let t = code.tag();
        self.write(t);
    }

    /// Appends a value to the constant pool and returns its index: the
    /// pool's length immediately before the append, so successive calls
    /// on a fresh chunk return 0, 1, 2, ... and the value looked up at
    /// the returned index is the value passed in.
    pub fn add_constant(&mut self, value: LoxValue) -> (idx: usize)
        ensures
            idx == old(self).constants@.len(),
            final(self).constants@ == old(self).constants@.push(value),
            final(self).constants@[idx as int] == value,
            final(self).code@ == old(self).code@,
    {
        self.constants.push(value);
        self.constants.len() - 1
    }

    /// Appends a value to the constant pool only while the pool stays
    /// addressable by a one-byte operand: returns the new index as that
    /// operand byte, or `None`, leaving the chunk unchanged, once 256
    /// constants are already held.
    pub fn try_add_constant(&mut self, value: LoxValue) -> (r: Option<u8>)
        ensures
            old(self).constants@.len() < 256 ==> {
                &&& r == Some((old(self).constants@.len() as u8))
                &&& final(self).constants@ == old(self).constants@.push(value)
                &&& final(self).code@ == old(self).code@
            },
            old(self).constants@.len() >= 256 ==> {
                &&& r is None
                &&& *final(self) == *old(self)
            },
    {
        if self.constants.len() < 256 {
            let idx = self.add_constant(value);
            Some(idx as u8)
        } else {
            None
        }
    }
}

} // verus!
