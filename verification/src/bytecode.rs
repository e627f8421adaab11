use vstd::prelude::*;

use crate::render::{push_dec, push_dec_padded, spec_dec, spec_pad_left, spec_pad_right};
use crate::value::Value;

verus! {

/// A bytecode operation kind. The opcode byte assigned to each kind follows
/// the declaration order, starting at zero; that assignment is part of the
/// wire format and must stay stable.
#[derive(Clone, Copy, Debug, PartialEq, Eq, Structural)]
pub enum Op {
    /// One operand byte: an index into the owning chunk's constant pool.
    Constant,
    /// No operands: terminates execution of the current chunk.
    Return,
}

/// The opcode byte that encodes `op`.
pub open spec fn spec_op_byte(op: Op) -> u8 {
    match op {
        Op::Constant => 0,
        Op::Return => 1,
    }
}

/// The operation encoded by byte `b`, if any: the mapping is total over the
/// declared opcodes and rejects every other byte value.
pub open spec fn spec_op_of_byte(b: u8) -> Option<Op> {
    if b == 0 {
        Some(Op::Constant)
    } else if b == 1 {
        Some(Op::Return)
    } else {
        None
    }
}

/// How many operand bytes follow the opcode byte of `op`.
pub open spec fn spec_arity(op: Op) -> nat {
    match op {
        Op::Constant => 1,
        Op::Return => 0,
    }
}

/// The display name of `op`, as the disassembler prints it.
pub open spec fn spec_op_name(op: Op) -> Seq<char> {
    match op {
        Op::Constant => "CONSTANT"@,
        Op::Return => "RETURN"@,
    }
}

impl Op {
    /// The operation encoded by `b`, or `None` for a byte outside the
    /// declared range.
    pub fn from_byte(b: u8) -> (r: Option<Op>)
        ensures
            r == spec_op_of_byte(b),
    {
        if b == 0 {
            Some(Op::Constant)
        } else if b == 1 {
            Some(Op::Return)
        } else {
            None
        }
    }

    /// The opcode byte that encodes `self`.
    pub fn to_byte(self) -> (r: u8)
        ensures
            r == spec_op_byte(self),
    {
        match self {
            Op::Constant => 0,
            Op::Return => 1,
        }
    }

    /// How many operand bytes follow `self`'s opcode byte.
    pub fn arity(self) -> (r: usize)
        ensures
            r == spec_arity(self),
    {
        match self {
            Op::Constant => 1,
            Op::Return => 0,
        }
    }

    /// The display name of `self`.
    pub fn name(self) -> (r: &'static str)
        ensures
            r@ == spec_op_name(self),
    {
        match self {
            Op::Constant => "CONSTANT",
            Op::Return => "RETURN",
        }
    }
}

/// Why a byte sequence could not be decoded into instructions.
#[derive(Clone, Copy, Debug, PartialEq, Eq, Structural)]
pub enum InvalidByteCode {
    /// The opcode carried in the error announced more operand bytes than
    /// remain in the sequence.
    UnexpectedOperand(u8),
    /// The byte carried in the error stood in opcode position but encodes
    /// no operation.
    InvalidOperation(u8),
}

/// The diagnostic text for `e`.
pub open spec fn spec_invalid_byte_code_message(e: InvalidByteCode) -> Seq<char> {
    match e {
        InvalidByteCode::UnexpectedOperand(b) => "Expected a valid operand; got "@ + spec_dec(
            b as nat,
        ),
        InvalidByteCode::InvalidOperation(b) => "Expected a valid operation; got "@ + spec_dec(
            b as nat,
        ),
    }
}

impl InvalidByteCode {
    /// The diagnostic text for `self`.
    pub fn message(&self) -> (r: String)
        ensures
            r@ == spec_invalid_byte_code_message(*self),
    {
        match self {
            InvalidByteCode::UnexpectedOperand(b) => {
                let mut s = String::from_str("Expected a valid operand; got ");
                push_dec(&mut s, *b as usize);
                s
            },
            InvalidByteCode::InvalidOperation(b) => {
                let mut s = String::from_str("Expected a valid operation; got ");
                push_dec(&mut s, *b as usize);
                s
            },
        }
    }
}

/// A sequence of bytecode operations: raw instruction bytes, one source line
/// per appended byte for diagnostics, and a pool of constant values that
/// `Constant` operands index into.
#[derive(Debug)]
pub struct Chunk {
    pub code: Vec<u8>,
    pub lines: Vec<usize>,
    pub constants: Vec<Value>,
}

/// The instructions of `code` from byte `pos` on: each element is one whole
/// instruction, its head the opcode byte and its tail that opcode's operand
/// bytes. `None` when a byte in opcode position encodes no operation or
/// announces more operand bytes than remain.
pub open spec fn spec_decode_from(code: Seq<u8>, pos: int) -> Option<Seq<Seq<u8>>>
    decreases code.len() - pos,
{
    if pos < 0 || pos >= code.len() {
        Some(Seq::empty())
    } else {
        match spec_op_of_byte(code[pos]) {
            None => None,
            Some(op) => {
                let end = pos + 1 + spec_arity(op);
                if end > code.len() {
                    None
                } else {
                    match spec_decode_from(code, end) {
                        None => None,
                        Some(rest) => Some(seq![code.subrange(pos, end)] + rest),
                    }
                }
            },
        }
    }
}

/// The whole instruction sequence of `code`, when it decodes.
pub open spec fn spec_decode(code: Seq<u8>) -> Option<Seq<Seq<u8>>> {
    spec_decode_from(code, 0)
}

/// From byte `pos` on, `code` consists of whole instructions whose `Constant`
/// operands all index inside a pool of `nconsts` entries.
pub open spec fn spec_wf_from(code: Seq<u8>, nconsts: int, pos: int) -> bool
    decreases code.len() - pos,
{
    if pos < 0 {
        false
    } else if pos >= code.len() {
        true
    } else {
        match spec_op_of_byte(code[pos]) {
            None => false,
            Some(op) => {
                let end = pos + 1 + spec_arity(op);
                &&& end <= code.len()
                &&& (op == Op::Constant ==> code[pos + 1] < nconsts)
                &&& spec_wf_from(code, nconsts, end)
            },
        }
    }
}

/// Law: a well-formed byte sequence always decodes.
pub proof fn lemma_wf_decodes(code: Seq<u8>, nconsts: int, pos: int)
    requires
        spec_wf_from(code, nconsts, pos),
    ensures
        spec_decode_from(code, pos) is Some,
    decreases code.len() - pos,
{
    if 0 <= pos < code.len() {
        let op = spec_op_of_byte(code[pos]).unwrap();
        lemma_wf_decodes(code, nconsts, pos + 1 + spec_arity(op));
    }
}

/// Law: a chunk holding exactly one appended `Return` instruction decodes to
/// exactly one instruction, whose only byte is the `Return` opcode.
pub proof fn lemma_decode_single_return(code: Seq<u8>)
    requires
        code == seq![spec_op_byte(Op::Return)],
    ensures
        spec_decode(code) == Some(seq![seq![spec_op_byte(Op::Return)]]),
{
    assert(code.subrange(0, 1) =~= seq![spec_op_byte(Op::Return)]);
    assert(spec_decode_from(code, 1) == Some(Seq::<Seq<u8>>::empty()));
    assert(seq![code.subrange(0, 1)] + Seq::<Seq<u8>>::empty() =~= seq![
        seq![spec_op_byte(Op::Return)],
    ]);
}

/// Law: a chunk holding exactly one appended `Constant` instruction with
/// operand byte `idx` decodes to exactly one two-byte instruction,
/// `[Constant opcode, idx]`.
pub proof fn lemma_decode_single_constant(code: Seq<u8>, idx: u8)
    requires
        code == seq![spec_op_byte(Op::Constant), idx],
    ensures
        spec_decode(code) == Some(seq![seq![spec_op_byte(Op::Constant), idx]]),
{
    assert(code.subrange(0, 2) =~= seq![spec_op_byte(Op::Constant), idx]);
    assert(spec_decode_from(code, 2) == Some(Seq::<Seq<u8>>::empty()));
    assert(seq![code.subrange(0, 2)] + Seq::<Seq<u8>>::empty() =~= seq![
        seq![spec_op_byte(Op::Constant), idx],
    ]);
}

impl Default for Chunk {
    /// An empty chunk: no code, no line info, no constants.
    fn default() -> (r: Self)
        ensures
            r.code@ == Seq::<u8>::empty(),
            r.lines@ == Seq::<usize>::empty(),
            r.constants@ == Seq::<Value>::empty(),
    {
        Chunk { code: Vec::new(), lines: Vec::new(), constants: Vec::new() }
    }
}

impl Chunk {
    /// All opcodes of `self`'s code are declared operations, every
    /// instruction is whole, and every `Constant` operand indexes inside the
    /// constant pool.
    pub open spec fn wf(self) -> bool {
        spec_wf_from(self.code@, self.constants@.len() as int, 0)
    }

    /// Appends one raw byte to the code and its source line to the line
    /// info. No arity checking happens here: the caller is responsible for
    /// following an opcode byte with exactly its declared operand bytes.
    pub fn push(&mut self, byte: u8, line: usize)
        ensures
            final(self).code@ == old(self).code@.push(byte),
            final(self).lines@ == old(self).lines@.push(line),
            final(self).constants@ == old(self).constants@,
    {
        self.code.push(byte);
        self.lines.push(line);
    }

    /// Appends `value` to the constant pool and returns its zero-based
    /// index. The wire format spends one byte on a constant reference, so
    /// the pool is capped at 256 entries; a full pool is refused rather
    /// than silently wrapped.
    pub fn add_constant(&mut self, value: Value) -> (r: Option<u8>)
        ensures
            old(self).constants@.len() < 256 ==> ({
                &&& r == Some(old(self).constants@.len() as u8)
                &&& final(self).constants@ == old(self).constants@.push(value)
            }),
            old(self).constants@.len() >= 256 ==> ({
                &&& r is None
                &&& final(self).constants@ == old(self).constants@
            }),
            final(self).code@ == old(self).code@,
            final(self).lines@ == old(self).lines@,
    {
        if self.constants.len() < 256 {
            self.constants.push(value);
            Some((self.constants.len() - 1) as u8)
        } else {
            None
        }
    }

    /// Begins a fresh, restartable decode of `self`'s code from byte zero.
    pub fn decode(&self) -> (r: ChunkIterator<'_>)
        ensures
            r.source == self,
            r.index == 0,
    {
        ChunkIterator { source: self, index: 0 }
    }
}

/// The line entry recorded for byte `pos`, if the line info extends that far.
pub open spec fn spec_line_entry(lines: Seq<usize>, pos: int) -> Option<usize> {
    if 0 <= pos < lines.len() {
        Some(lines[pos])
    } else {
        None
    }
}

/// The line-number column of one disassembly row: the number, right-aligned
/// to four columns, when this instruction's line differs from the previous
/// instruction's; the placeholder when it repeats it, and also when the
/// instruction's starting byte has no line entry at all.
pub open spec fn spec_line_col(cur: Option<usize>, prev: Option<usize>) -> Seq<char> {
    match cur {
        None => "  |  "@,
        Some(l) => if prev == Some(l) {
            "  |  "@
        } else {
            spec_pad_left(spec_dec(l as nat), 4, ' ') + " "@
        },
    }
}

/// The instruction-specific tail of one disassembly row: the opcode's
/// display name, and for `Constant` also the operand byte, right-aligned,
/// and the rendering of the pool entry it references.
pub open spec fn spec_instr_body(code: Seq<u8>, consts: Seq<Value>, pos: int, op: Op) -> Seq<
    char,
> {
    match op {
        Op::Return => spec_op_name(Op::Return),
        Op::Constant => spec_pad_right(spec_op_name(Op::Constant), 16, ' ') + " "@ + spec_pad_left(
            spec_dec(code[pos + 1] as nat),
            4,
            ' ',
        ) + " "@ + consts[code[pos + 1] as int]@,
    }
}

/// One disassembly row: the instruction's byte offset, zero-padded to four
/// digits, the line-number column, the instruction text, and a newline.
pub open spec fn spec_row(
    code: Seq<u8>,
    lines: Seq<usize>,
    consts: Seq<Value>,
    pos: int,
    prev: Option<usize>,
    op: Op,
) -> Seq<char> {
    spec_pad_left(spec_dec(pos as nat), 4, '0') + " "@ + spec_line_col(
        spec_line_entry(lines, pos),
        prev,
    ) + spec_instr_body(code, consts, pos, op) + "\n"@
}

/// The disassembly rows of the instructions of `code` from byte `pos` on,
/// `prev` being the line entry of the previous instruction's starting byte.
pub open spec fn spec_dis_from(
    code: Seq<u8>,
    lines: Seq<usize>,
    consts: Seq<Value>,
    pos: int,
    prev: Option<usize>,
) -> Seq<char>
    decreases code.len() - pos,
{
    if pos < 0 || pos >= code.len() {
        Seq::empty()
    } else {
        match spec_op_of_byte(code[pos]) {
            None => Seq::empty(),
            Some(op) => {
                let end = pos + 1 + spec_arity(op);
                if end > code.len() {
                    Seq::empty()
                } else {
                    spec_row(code, lines, consts, pos, prev, op) + spec_dis_from(
                        code,
                        lines,
                        consts,
                        end,
                        spec_line_entry(lines, pos),
                    )
                }
            },
        }
    }
}

/// The whole disassembly listing: the header line, then one row per
/// instruction.
pub open spec fn spec_disassemble(
    code: Seq<u8>,
    lines: Seq<usize>,
    consts: Seq<Value>,
    name: Seq<char>,
) -> Seq<char> {
    "== "@ + name + " ==\n"@ + spec_dis_from(code, lines, consts, 0, None)
}

/// Law: of two consecutive instructions on the same source line, only the
/// first row prints the line number; the second shows the placeholder.
pub proof fn lemma_disassemble_elides_repeated_line(consts: Seq<Value>, l: usize)
    ensures
        ({
            let code = seq![spec_op_byte(Op::Return), spec_op_byte(Op::Return)];
            let lines = seq![l, l];
            spec_dis_from(code, lines, consts, 0, None) == spec_pad_left(spec_dec(0), 4, '0')
                + " "@ + (spec_pad_left(spec_dec(l as nat), 4, ' ') + " "@) + "RETURN"@ + "\n"@
                + (spec_pad_left(spec_dec(1), 4, '0') + " "@ + "  |  "@ + "RETURN"@ + "\n"@)
        }),
{
    let code = seq![spec_op_byte(Op::Return), spec_op_byte(Op::Return)];
    let lines = seq![l, l];
    assert(spec_dis_from(code, lines, consts, 2, Some(l)) == Seq::<char>::empty());
    assert(spec_dis_from(code, lines, consts, 1, Some(l)) == spec_row(
        code,
        lines,
        consts,
        1,
        Some(l),
        Op::Return,
    ) + Seq::<char>::empty());
    assert(spec_dis_from(code, lines, consts, 0, None) =~= spec_pad_left(spec_dec(0), 4, '0')
        + " "@ + (spec_pad_left(spec_dec(l as nat), 4, ' ') + " "@) + "RETURN"@ + "\n"@ + (
    spec_pad_left(spec_dec(1), 4, '0') + " "@ + "  |  "@ + "RETURN"@ + "\n"@));
}

/// Law: of two consecutive instructions on different source lines, both
/// rows print their line numbers.
pub proof fn lemma_disassemble_prints_changed_line(consts: Seq<Value>, l1: usize, l2: usize)
    requires
        l1 != l2,
    ensures
        ({
            let code = seq![spec_op_byte(Op::Return), spec_op_byte(Op::Return)];
            let lines = seq![l1, l2];
            spec_dis_from(code, lines, consts, 0, None) == spec_pad_left(spec_dec(0), 4, '0')
                + " "@ + (spec_pad_left(spec_dec(l1 as nat), 4, ' ') + " "@) + "RETURN"@ + "\n"@
                + (spec_pad_left(spec_dec(1), 4, '0') + " "@ + (spec_pad_left(
                spec_dec(l2 as nat),
                4,
                ' ',
            ) + " "@) + "RETURN"@ + "\n"@)
        }),
{
    let code = seq![spec_op_byte(Op::Return), spec_op_byte(Op::Return)];
    let lines = seq![l1, l2];
    assert(spec_dis_from(code, lines, consts, 2, Some(l2)) == Seq::<char>::empty());
    assert(spec_dis_from(code, lines, consts, 1, Some(l1)) == spec_row(
        code,
        lines,
        consts,
        1,
        Some(l1),
        Op::Return,
    ) + Seq::<char>::empty());
    assert(spec_dis_from(code, lines, consts, 0, None) =~= spec_pad_left(spec_dec(0), 4, '0')
        + " "@ + (spec_pad_left(spec_dec(l1 as nat), 4, ' ') + " "@) + "RETURN"@ + "\n"@ + (
    spec_pad_left(spec_dec(1), 4, '0') + " "@ + (spec_pad_left(spec_dec(l2 as nat), 4, ' ')
        + " "@) + "RETURN"@ + "\n"@));
}

impl Chunk {
    /// Whether `self.wf()` holds, decided at run time, so that an
    /// unverified caller can test the disassembler's precondition.
    pub fn is_well_formed(&self) -> (r: bool)
        ensures
            r == self.wf(),
    {
        let len: usize = self.code.len();
        let mut pos: usize = 0;
        while pos < len
            invariant
                pos <= len,
                len == self.code@.len(),
                self.wf() == spec_wf_from(self.code@, self.constants@.len() as int, pos as int),
            decreases len - pos,
        {
            let b = self.code[pos];
            match Op::from_byte(b) {
                None => {
                    return false;
                },
                Some(op) => {
                    let arity: usize = op.arity();
                    if len - pos - 1 < arity {
                        return false;
                    }
                    if matches!(op, Op::Constant) {
                        let operand = self.code[pos + 1];
                        if operand as usize >= self.constants.len() {
                            return false;
                        }
                    }
                    pos = pos + 1 + arity;
                },
            }
        }
        true
    }

    /// Renders `self` as a human-readable listing under the header
    /// `== name ==`: per instruction, its byte offset zero-padded to four
    /// digits, the line-number column (eliding a line that repeats the
    /// previous instruction's), the opcode's display name, and for
    /// `Constant` the operand byte and the pool entry it references.
    pub fn disassemble(&self, name: &str) -> (r: String)
        requires
            self.wf(),
        ensures
            r@ == spec_disassemble(self.code@, self.lines@, self.constants@, name@),
    {
        let mut result = String::from_str("== ");
        result.append(name);
        result.append(" ==\n");
        let len: usize = self.code.len();
        let mut pos: usize = 0;
        let mut prev: Option<usize> = None;
        proof {
            assert(result@ + spec_dis_from(self.code@, self.lines@, self.constants@, 0, None)
                =~= spec_disassemble(self.code@, self.lines@, self.constants@, name@));
        }
        while pos < len
            invariant
                pos <= len,
                len == self.code@.len(),
                self.wf(),
                spec_wf_from(self.code@, self.constants@.len() as int, pos as int),
                result@ + spec_dis_from(
                    self.code@,
                    self.lines@,
                    self.constants@,
                    pos as int,
                    prev,
                ) == spec_disassemble(self.code@, self.lines@, self.constants@, name@),
            decreases len - pos,
        {
            proof {
                reveal_strlit("0");
                reveal_strlit(" ");
                reveal_strlit("CONSTANT");
                reveal_strlit("         ");
            }
            let ghost prefix = result@;
            let b = self.code[pos];
            proof {
                assert(spec_wf_from(self.code@, self.constants@.len() as int, pos as int));
                assert(spec_op_of_byte(b) is Some);
            }
            let op = Op::from_byte(b).unwrap();
            let arity: usize = op.arity();
            let end: usize = pos + 1 + arity;
            proof {
                assert(end <= len);
            }
            // offset column
            push_dec_padded(&mut result, pos, 4, "0");
            result.append(" ");
            proof {
                assert(result@ =~= prefix + (spec_pad_left(spec_dec(pos as nat), 4, '0')
                    + " "@));
            }
            let ghost with_offset = result@;
            // line column
            let cur: Option<usize> = if pos < self.lines.len() {
                Some(self.lines[pos])
            } else {
                None
            };
            proof {
                assert(cur == spec_line_entry(self.lines@, pos as int));
            }
            match cur {
                None => {
                    result.append("  |  ");
                },
                Some(l) => {
                    let same: bool = match prev {
                        Some(p) => p == l,
                        None => false,
                    };
                    if same {
                        result.append("  |  ");
                    } else {
                        push_dec_padded(&mut result, l, 4, " ");
                        result.append(" ");
                    }
                },
            }
            proof {
                assert(result@ =~= with_offset + spec_line_col(
                    spec_line_entry(self.lines@, pos as int),
                    prev,
                ));
            }
            let ghost with_line = result@;
            // instruction text
            match op {
                Op::Return => {
                    result.append("RETURN");
                },
                Op::Constant => {
                    let operand = self.code[pos + 1];
                    proof {
                        assert((operand as int) < self.constants@.len());
                    }
                    result.append("CONSTANT");
                    result.append("         ");
                    push_dec_padded(&mut result, operand as usize, 4, " ");
                    result.append(" ");
                    result.append(self.constants[operand as usize].text.as_str());
                },
            }
            proof {
                assert(result@ =~= with_line + spec_instr_body(
                    self.code@,
                    self.constants@,
                    pos as int,
                    op,
                ));
            }
            result.append("\n");
            proof {
                assert(result@ =~= prefix + spec_row(
                    self.code@,
                    self.lines@,
                    self.constants@,
                    pos as int,
                    prev,
                    op,
                ));
                assert(spec_dis_from(
                    self.code@,
                    self.lines@,
                    self.constants@,
                    pos as int,
                    prev,
                ) == spec_row(self.code@, self.lines@, self.constants@, pos as int, prev, op)
                    + spec_dis_from(
                    self.code@,
                    self.lines@,
                    self.constants@,
                    end as int,
                    spec_line_entry(self.lines@, pos as int),
                ));
                assert(result@ + spec_dis_from(
                    self.code@,
                    self.lines@,
                    self.constants@,
                    end as int,
                    cur,
                ) =~= prefix + spec_dis_from(
                    self.code@,
                    self.lines@,
                    self.constants@,
                    pos as int,
                    prev,
                ));
            }
            prev = cur;
            pos = end;
        }
        proof {
            assert(spec_dis_from(self.code@, self.lines@, self.constants@, pos as int, prev)
                == Seq::<char>::empty());
            assert(result@ =~= result@ + Seq::<char>::empty());
        }
        result
    }
}

/// A lazily-decoded walk over a chunk's instructions: each step yields one
/// whole instruction (opcode byte plus operand bytes) or the decode failure
/// that ends the walk.
pub struct ChunkIterator<'a> {
    pub source: &'a Chunk,
    pub index: usize,
}

impl<'a> ChunkIterator<'a> {
    /// Yields the next whole instruction starting at the current position,
    /// advancing past it; `None` once the position reaches the end of the
    /// code. A byte in opcode position that encodes no operation, or an
    /// opcode whose operand bytes are cut off by the end of the code, yields
    /// the matching decode error, and the walk ends there: the error is
    /// fatal, not recoverable mid-sequence.
    pub fn next(&mut self) -> (r: Option<Result<Vec<u8>, InvalidByteCode>>)
        ensures
            final(self).source == old(self).source,
            old(self).index >= old(self).source.code@.len() ==> ({
                &&& r is None
                &&& final(self).index == old(self).index
            }),
            old(self).index < old(self).source.code@.len() ==> ({
                let code = old(self).source.code@;
                let pos = old(self).index as int;
                match spec_op_of_byte(code[pos]) {
                    None => {
                        &&& r == Some(
                            Result::<Vec<u8>, InvalidByteCode>::Err(
                                InvalidByteCode::InvalidOperation(code[pos]),
                            ),
                        )
                        &&& final(self).index == code.len()
                    },
                    Some(op) => {
                        let end = pos + 1 + spec_arity(op);
                        if end > code.len() {
                            &&& r == Some(
                                Result::<Vec<u8>, InvalidByteCode>::Err(
                                    InvalidByteCode::UnexpectedOperand(code[pos]),
                                ),
                            )
                            &&& final(self).index == code.len()
                        } else {
                            &&& (r matches Some(Ok(v)) && v@ == code.subrange(pos, end))
                            &&& final(self).index == end
                        }
                    },
                }
            }),
    {
        let len: usize = self.source.code.len();
        if self.index >= len {
            return None;
        }
        let b = self.source.code[self.index];
        match Op::from_byte(b) {
            None => {
                self.index = len;
                Some(Err(InvalidByteCode::InvalidOperation(b)))
            },
            Some(op) => {
                let arity: usize = op.arity();
                if len - self.index - 1 < arity {
                    self.index = len;
                    Some(Err(InvalidByteCode::UnexpectedOperand(b)))
                } else {
                    let end: usize = self.index + 1 + arity;
                    let mut item: Vec<u8> = Vec::new();
                    let mut j: usize = self.index;
                    while j < end
                        invariant
                            self.index <= j <= end,
                            end <= self.source.code@.len(),
                            item@ == self.source.code@.subrange(self.index as int, j as int),
                        decreases end - j,
                    {
                        item.push(self.source.code[j]);
                        proof {
                            assert(item@ =~= self.source.code@.subrange(
                                self.index as int,
                                j + 1,
                            ));
                        }
                        j = j + 1;
                    }
                    self.index = end;
                    Some(Ok(item))
                }
            },
        }
    }
}

} // verus!
