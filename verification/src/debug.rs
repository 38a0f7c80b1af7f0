//! The disassembler: decodes a chunk's instruction buffer into
//! structured records and renders them as a textual trace.

use vstd::prelude::*;
use vstd::string::StringExecFns;
use crate::chunk::{Chunk, OpCodes, OP_CONSTANT_TAG, OP_RETURN_TAG};
use crate::chunk::{is_opcode_tag, operand_width, tag_of};
use crate::value::{offset_chars, offset_string, value_chars, value_string, LoxValue};

verus! {

/// One decoded instruction.
#[derive(Clone, Copy, PartialEq, Eq, Structural, Debug)]
pub enum Inst {
    /// A zero-operand return instruction.
    Return,
    /// A load of the constant pool entry at `index`; `value` is that
    /// entry, looked up while decoding.
    Constant { index: u8, value: LoxValue },
}

/// One decoded instruction together with the byte offset at which it
/// starts in the instruction buffer.
#[derive(Clone, Copy, PartialEq, Eq, Structural, Debug)]
pub struct InstRecord {
    pub offset: usize,
    pub inst: Inst,
}

/// Why a disassembly pass aborted. Each condition is a corrupted
/// internal invariant of the chunk, not a recoverable input: the pass
/// stops at the first one found.
#[derive(Clone, Copy, PartialEq, Eq, Structural, Debug)]
pub enum DecodeError {
    /// The byte at `offset` is not in the opcode table.
    UnknownOpcode { offset: usize, tag: u8 },
    /// The opcode at `offset` needs an operand byte, but the buffer
    /// ends before one.
    MissingOperand { offset: usize },
    /// The operand of the instruction at `offset` indexes past the end
    /// of the constant pool.
    InvalidConstantIndex { offset: usize, index: u8 },
}

/// Prepends already-decoded records to the outcome of decoding the
/// rest of a buffer; an error on the rest stays an error.
pub open spec fn prepend(
    pre: Seq<InstRecord>,
    rest: Result<Seq<InstRecord>, DecodeError>,
) -> Result<Seq<InstRecord>, DecodeError> {
    match rest {
        Ok(s) => Ok(pre + s),
        Err(e) => Err(e),
    }
}

/// The decode of the instruction buffer `code` from byte `offset` on,
/// against the constant pool `constants`: the sequence of whole
/// instructions the remaining bytes decompose into, in buffer order, or
/// the first flaw met while reading them.
pub open spec fn disasm_from(
    code: Seq<u8>,
    constants: Seq<LoxValue>,
    offset: nat,
) -> Result<Seq<InstRecord>, DecodeError>
    decreases code.len() - offset,
{
    if offset >= code.len() {
        Ok(Seq::empty())
    } else {
        let tag = code[offset as int];
        if tag == OP_RETURN_TAG {
            prepend(
                seq![(InstRecord { offset: offset as usize, inst: Inst::Return })],
                disasm_from(code, constants, offset + 1),
            )
        } else if tag == OP_CONSTANT_TAG {
            if offset + 1 >= code.len() {
                Err(DecodeError::MissingOperand { offset: offset as usize })
            } else {
                let index = code[offset as int + 1];
                if (index as nat) < constants.len() {
                    prepend(
                        seq![
                            (InstRecord {
                                offset: offset as usize,
                                inst: (Inst::Constant { index, value: constants[index as int] }),
                            }),
                        ],
                        disasm_from(code, constants, offset + 2),
                    )
                } else {
                    Err(DecodeError::InvalidConstantIndex { offset: offset as usize, index })
                }
            }
        } else {
            Err(DecodeError::UnknownOpcode { offset: offset as usize, tag })
        }
    }
}

/// The full decode of a chunk's instruction buffer, from offset 0.
pub open spec fn chunk_disasm(c: Chunk) -> Result<Seq<InstRecord>, DecodeError> {
    disasm_from(c.code@, c.constants@, 0)
}

proof fn lemma_prepend_empty(r: Result<Seq<InstRecord>, DecodeError>)
    ensures
        prepend(Seq::empty(), r) == r,
{
    match r {
        Ok(s) => {
            assert(Seq::empty() + s =~= s);
        },
        Err(_) => {},
    }
}

proof fn lemma_prepend_prepend(
    a: Seq<InstRecord>,
    b: Seq<InstRecord>,
    r: Result<Seq<InstRecord>, DecodeError>,
)
    ensures
        prepend(a, prepend(b, r)) == prepend(a + b, r),
{
    match r {
        Ok(s) => {
            assert(a + (b + s) =~= (a + b) + s);
        },
        Err(_) => {},
    }
}

/// Decodes every instruction in the chunk, from offset 0, into
/// structured records, stopping at the first flaw. The chunk is only
/// read.
pub fn disassemble(chunk: &Chunk) -> (r: Result<Vec<InstRecord>, DecodeError>)
    ensures
        ({
            let s = chunk_disasm(*chunk);
            match r {
                Ok(v) => s matches Ok(recs) && v@ == recs,
                Err(e) => s == Err::<Seq<InstRecord>, DecodeError>(e),
            }
        }),
{
    let ghost code = chunk.code@;
    let ghost constants = chunk.constants@;
    let mut out: Vec<InstRecord> = Vec::new();
    let mut offset: usize = 0;
    proof {
        lemma_prepend_empty(disasm_from(code, constants, 0));
    }
    while offset < chunk.code.len()
        invariant
            offset <= chunk.code@.len(),
            code == chunk.code@,
            constants == chunk.constants@,
            disasm_from(code, constants, 0) == prepend(
                out@,
                disasm_from(code, constants, offset as nat),
            ),
        decreases chunk.code@.len() - offset,
    {
        let tag = chunk.code[offset];
        if tag == OP_RETURN_TAG {
            let rec = InstRecord { offset, inst: Inst::Return };
            let ghost pre = out@;
            out.push(rec);
            proof {
                assert(disasm_from(code, constants, offset as nat) == prepend(
                    seq![rec],
                    disasm_from(code, constants, offset as nat + 1),
                ));
                lemma_prepend_prepend(pre, seq![rec], disasm_from(code, constants, offset as nat + 1));
                assert(pre + seq![rec] =~= out@);
            }
            offset = offset + 1;
        } else if tag == OP_CONSTANT_TAG {
            if offset + 1 >= chunk.code.len() {
                proof {
                    assert(disasm_from(code, constants, offset as nat) == Err::<
                        Seq<InstRecord>,
                        DecodeError,
                    >(DecodeError::MissingOperand { offset }));
                }
                return Err(DecodeError::MissingOperand { offset });
            }
            let index = chunk.code[offset + 1];
            if (index as usize) < chunk.constants.len() {
                let value = chunk.constants[index as usize];
                let rec = InstRecord { offset, inst: Inst::Constant { index, value } };
                let ghost pre = out@;
                out.push(rec);
                proof {
                    assert(disasm_from(code, constants, offset as nat) == prepend(
                        seq![rec],
                        disasm_from(code, constants, offset as nat + 2),
                    ));
                    lemma_prepend_prepend(
                        pre,
                        seq![rec],
                        disasm_from(code, constants, offset as nat + 2),
                    );
                    assert(pre + seq![rec] =~= out@);
                }
                offset = offset + 2;
            } else {
                proof {
                    assert(disasm_from(code, constants, offset as nat) == Err::<
                        Seq<InstRecord>,
                        DecodeError,
                    >(DecodeError::InvalidConstantIndex { offset, index }));
                }
                return Err(DecodeError::InvalidConstantIndex { offset, index });
            }
        } else {
            proof {
                assert(disasm_from(code, constants, offset as nat) == Err::<
                    Seq<InstRecord>,
                    DecodeError,
                >(DecodeError::UnknownOpcode { offset, tag }));
            }
            return Err(DecodeError::UnknownOpcode { offset, tag });
        }
    }
    proof {
        assert(disasm_from(code, constants, offset as nat) == Ok::<
            Seq<InstRecord>,
            DecodeError,
        >(Seq::empty()));
        assert(out@ + Seq::<InstRecord>::empty() =~= out@);
    }
    Ok(out)
}

/// An opcode's human-readable mnemonic.
pub open spec fn mnemonic(op: OpCodes) -> Seq<char> {
    match op {
        OpCodes::OpReturn => "OP_RETURN"@,
        OpCodes::OpConstant => "OP_CONSTANT"@,
    }
}

/// The text of one instruction line: the zero-padded offset, a space,
/// the mnemonic, and, for a constant, a comma and the operand's value
/// with two fractional digits.
pub open spec fn line_chars(rec: InstRecord) -> Seq<char> {
    offset_chars(rec.offset as nat) + seq![' '] + match rec.inst {
        Inst::Return => mnemonic(OpCodes::OpReturn),
        Inst::Constant { index, value } => mnemonic(OpCodes::OpConstant) + ", "@ + value_chars(
            value,
        ),
    }
}

/// Renders one decoded instruction as its line of the disassembly
/// trace.
pub fn render_inst(rec: &InstRecord) -> (s: String)
    ensures
        s@ == line_chars(*rec),
{
    let mut s = offset_string(rec.offset);
    s.append(" ");
    match rec.inst {
        Inst::Return => {
            s.append("OP_RETURN");
        },
        Inst::Constant { index: _, value } => {
            s.append("OP_CONSTANT");
            s.append(", ");
            let vs = value_string(&value);
            s.append(vs.as_str());
        },
    }
    proof {
        reveal_strlit(" ");
        assert(s@ =~= line_chars(*rec));
    }
    s
}

/// Disassembles the whole chunk under a display name: on a well-formed
/// buffer, the header line holding the name followed by one line per
/// instruction, in buffer order; on a corrupt buffer, the first flaw.
pub fn disassemble_chunk(chunk: &Chunk, name: &str) -> (r: Result<Vec<String>, DecodeError>)
    ensures
        ({
            let s = chunk_disasm(*chunk);
            match r {
                Ok(lines) => {
                    &&& s matches Ok(recs)
                    &&& lines@.len() == recs.len() + 1
                    &&& lines@[0]@ == name@
                    &&& forall|i: int|
                        0 <= i < recs.len() ==> lines@[i + 1]@ == line_chars(#[trigger] recs[i])
                },
                Err(e) => s == Err::<Seq<InstRecord>, DecodeError>(e),
            }
        }),
{
    let records = match disassemble(chunk) {
        Ok(v) => v,
        Err(e) => { return Err(e); },
    };
    let mut lines: Vec<String> = Vec::new();
    lines.push(name.to_owned());
    let mut i: usize = 0;
    while i < records.len()
        invariant
            i <= records@.len(),
            chunk_disasm(*chunk) == Ok::<Seq<InstRecord>, DecodeError>(records@),
            lines@.len() == i + 1,
            lines@[0]@ == name@,
            forall|j: int| 0 <= j < i ==> lines@[j + 1]@ == line_chars(#[trigger] records@[j]),
        decreases records@.len() - i,
    {
        let line = render_inst(&records[i]);
        lines.push(line);
        i = i + 1;
    }
    Ok(lines)
}

/// A zero-operand instruction occupies exactly one byte: a buffer
/// holding exactly one zero-operand opcode decodes, whatever the
/// constant pool holds, to a single record at offset 0 whose line is
/// the padded offset, a space, and the mnemonic alone — no operand
/// text follows.
pub proof fn lemma_simple_instruction(op: OpCodes, constants: Seq<LoxValue>)
    requires
        operand_width(op) == 0,
    ensures
        ({
            let r = disasm_from(seq![tag_of(op)], constants, 0);
            &&& r == Ok::<Seq<InstRecord>, DecodeError>(
                seq![(InstRecord { offset: 0, inst: Inst::Return })],
            )
            &&& line_chars((InstRecord { offset: 0, inst: Inst::Return })) == offset_chars(0)
                + seq![' '] + mnemonic(op)
        }),
{
    let code = seq![tag_of(op)];
    assert(code.len() == 1);
    assert(code[0] == OP_RETURN_TAG);
    let rec = InstRecord { offset: 0, inst: Inst::Return };
    assert(disasm_from(code, constants, 1) == Ok::<Seq<InstRecord>, DecodeError>(Seq::empty()));
    assert(disasm_from(code, constants, 0) == prepend(
        seq![rec],
        disasm_from(code, constants, 1),
    ));
    assert(seq![rec] + Seq::<InstRecord>::empty() =~= seq![rec]);
}

/// A one-operand constant instruction occupies exactly two bytes: a
/// buffer holding its tag and an operand byte `k` that indexes into
/// the pool decodes to a single record at offset 0 carrying `k` and
/// the pool's value at `k`, and its line shows the mnemonic followed
/// by that value with exactly two fractional digits.
pub proof fn lemma_constant_instruction(op: OpCodes, k: u8, constants: Seq<LoxValue>)
    requires
        operand_width(op) == 1,
        (k as nat) < constants.len(),
    ensures
        ({
            let r = disasm_from(seq![tag_of(op), k], constants, 0);
            let rec = InstRecord {
                offset: 0,
                inst: (Inst::Constant { index: k, value: constants[k as int] }),
            };
            &&& r == Ok::<Seq<InstRecord>, DecodeError>(seq![rec])
            &&& line_chars(rec) == offset_chars(0) + seq![' '] + mnemonic(op) + ", "@
                + value_chars(constants[k as int])
        }),
{
    let code = seq![tag_of(op), k];
    assert(code.len() == 2);
    assert(code[0] == OP_CONSTANT_TAG);
    assert(code[1] == k);
    let rec = InstRecord {
        offset: 0,
        inst: (Inst::Constant { index: k, value: constants[k as int] }),
    };
    assert(disasm_from(code, constants, 2) == Ok::<Seq<InstRecord>, DecodeError>(Seq::empty()));
    assert(disasm_from(code, constants, 0) == prepend(
        seq![rec],
        disasm_from(code, constants, 2),
    ));
    assert(seq![rec] + Seq::<InstRecord>::empty() =~= seq![rec]);
}

/// A byte outside the opcode table aborts the pass at once: a buffer
/// beginning with such a byte decodes, whatever the pool holds, to the
/// unknown-opcode error naming that byte, and never to records.
pub proof fn lemma_unknown_opcode_rejected(b: u8, constants: Seq<LoxValue>)
    requires
        !is_opcode_tag(b),
    ensures
        disasm_from(seq![b], constants, 0) == Err::<Seq<InstRecord>, DecodeError>(
            (DecodeError::UnknownOpcode { offset: 0, tag: b }),
        ),
{
    let code = seq![b];
    assert(code[0] == b);
    assert(b != OP_RETURN_TAG && b != OP_CONSTANT_TAG);
}

/// An empty instruction buffer decodes to no records at all: no byte
/// is read, whatever the constant pool holds.
pub proof fn lemma_empty_chunk(constants: Seq<LoxValue>)
    ensures
        disasm_from(Seq::empty(), constants, 0) == Ok::<Seq<InstRecord>, DecodeError>(
            Seq::empty(),
        ),
{
}

} // verus!
