//! Bytecode: opcodes, their operand layouts, encoding, decoding and listing.
use vstd::prelude::*;
use crate::text::{nat_str, push_str, push_char, nat_to_string, nat_to_chars};

verus! {

/// The instructions of the virtual machine. An instruction is its opcode byte
/// followed by its operands, each two bytes, most significant first.
#[derive(Debug, Clone, Copy, PartialEq, Eq, Structural)]
pub enum Opcode {
    Constant,
    OpAdd,
    OpPop,
    OpSub,
    OpMul,
    OpDiv,
    OpTrue,
    OpFalse,
    OpEqual,
    OpNotEqual,
    OpGreaterThan,
    OpJumpNotTruthy,
    OpJump,
    OpNone,
    OpBang,
    OpMinus,
    OpSetGlobal,
    OpGetGlobal,
}

/// The name of an opcode and the width in bytes of each of its operands.
pub struct Definition {
    pub name: &'static str,
    pub operands_widths: Vec<u16>,
}

/// The byte that encodes an opcode: its position in the list of opcodes.
pub open spec fn op_byte(op: Opcode) -> u8 {
    match op {
        Opcode::Constant => 0,
        Opcode::OpAdd => 1,
        Opcode::OpPop => 2,
        Opcode::OpSub => 3,
        Opcode::OpMul => 4,
        Opcode::OpDiv => 5,
        Opcode::OpTrue => 6,
        Opcode::OpFalse => 7,
        Opcode::OpEqual => 8,
        Opcode::OpNotEqual => 9,
        Opcode::OpGreaterThan => 10,
        Opcode::OpJumpNotTruthy => 11,
        Opcode::OpJump => 12,
        Opcode::OpNone => 13,
        Opcode::OpBang => 14,
        Opcode::OpMinus => 15,
        Opcode::OpSetGlobal => 16,
        Opcode::OpGetGlobal => 17,
    }
}

/// The opcode a byte encodes, if any.
pub open spec fn op_of_byte(b: u8) -> Option<Opcode> {
    if b == 0 { Some(Opcode::Constant) }
    else if b == 1 { Some(Opcode::OpAdd) }
    else if b == 2 { Some(Opcode::OpPop) }
    else if b == 3 { Some(Opcode::OpSub) }
    else if b == 4 { Some(Opcode::OpMul) }
    else if b == 5 { Some(Opcode::OpDiv) }
    else if b == 6 { Some(Opcode::OpTrue) }
    else if b == 7 { Some(Opcode::OpFalse) }
    else if b == 8 { Some(Opcode::OpEqual) }
    else if b == 9 { Some(Opcode::OpNotEqual) }
    else if b == 10 { Some(Opcode::OpGreaterThan) }
    else if b == 11 { Some(Opcode::OpJumpNotTruthy) }
    else if b == 12 { Some(Opcode::OpJump) }
    else if b == 13 { Some(Opcode::OpNone) }
    else if b == 14 { Some(Opcode::OpBang) }
    else if b == 15 { Some(Opcode::OpMinus) }
    else if b == 16 { Some(Opcode::OpSetGlobal) }
    else if b == 17 { Some(Opcode::OpGetGlobal) }
    else { None }
}

pub open spec fn op_name(op: Opcode) -> Seq<char> {
    match op {
        Opcode::Constant => "OpConstant"@,
        Opcode::OpAdd => "OpAdd"@,
        Opcode::OpPop => "OpPop"@,
        Opcode::OpSub => "OpSub"@,
        Opcode::OpMul => "OpMul"@,
        Opcode::OpDiv => "OpDiv"@,
        Opcode::OpTrue => "OpTrue"@,
        Opcode::OpFalse => "OpFalse"@,
        Opcode::OpEqual => "OpEqual"@,
        Opcode::OpNotEqual => "OpNotEqual"@,
        Opcode::OpGreaterThan => "OpGreaterThan"@,
        Opcode::OpJumpNotTruthy => "OpJumpNotTruthy"@,
        Opcode::OpJump => "OpJump"@,
        Opcode::OpNone => "OpNone"@,
        Opcode::OpBang => "OpBang"@,
        Opcode::OpMinus => "OpMinus"@,
        Opcode::OpGetGlobal => "OpGetGlobal"@,
        Opcode::OpSetGlobal => "OpSetGlobal"@,
    }
}

/// Opcodes that take an operand take one of two bytes; the others take none.
pub open spec fn op_widths(op: Opcode) -> Seq<u16> {
    match op {
        Opcode::Constant => seq![2u16],
        Opcode::OpJumpNotTruthy => seq![2u16],
        Opcode::OpJump => seq![2u16],
        Opcode::OpGetGlobal => seq![2u16],
        Opcode::OpSetGlobal => seq![2u16],
        _ => Seq::empty(),
    }
}

/// The two bytes of `x`, most significant first.
pub open spec fn be16(x: u16) -> Seq<u8> {
    seq![(x / 256) as u8, (x % 256) as u8]
}

/// The encoded operands from position `i` on: each operand whose width is 2 as its
/// two bytes; an operand without a width of 2 is left out.
pub open spec fn encode_ops(ws: Seq<u16>, ops: Seq<u16>, i: nat) -> Seq<u8>
    decreases ops.len() - i,
{
    if i >= ops.len() {
        Seq::empty()
    } else {
        (if i < ws.len() && ws[i as int] == 2 { be16(ops[i as int]) } else { Seq::empty() })
            + encode_ops(ws, ops, i + 1)
    }
}

/// The bytes of the instruction `op` with `operands`.
pub open spec fn make_spec(op: Opcode, operands: Seq<u16>) -> Seq<u8> {
    seq![op_byte(op)] + encode_ops(op_widths(op), operands, 0)
}

/// The sum of the first `i` widths.
pub open spec fn width_sum(ws: Seq<u16>, i: nat) -> nat
    decreases i,
{
    if i == 0 || i > ws.len() { 0 } else { width_sum(ws, (i - 1) as nat) + ws[i - 1] as nat }
}

/// Every operand of width 2 lies within `len` bytes when the operands start at
/// `start`, and the offsets fit in a `usize`.
pub open spec fn reads_fit(ws: Seq<u16>, len: nat, start: nat) -> bool {
    &&& start + width_sum(ws, ws.len()) <= usize::MAX
    &&& forall|i: nat| i < ws.len() && ws[i as int] == 2 ==> start + width_sum(ws, i) + 2 <= len
}

/// The operands of width 2 from position `i` on, read from `bytes` starting at `start`.
pub open spec fn read_vals(ws: Seq<u16>, bytes: Seq<u8>, start: nat, i: nat) -> Seq<u16>
    decreases ws.len() - i,
{
    if i >= ws.len() {
        Seq::empty()
    } else {
        let off = start + width_sum(ws, i);
        (if ws[i as int] == 2 { seq![(bytes[off as int] as int * 256 + bytes[off + 1 as int] as int) as u16] } else { Seq::empty() })
            + read_vals(ws, bytes, start, i + 1)
    }
}

/// Decoding `make_spec` gives back the opcode.
pub proof fn law_opcode_byte(op: Opcode)
    ensures
        op_of_byte(op_byte(op)) == Some(op),
{
}

/// A byte decodes to an opcode only if that opcode encodes to it.
pub proof fn law_byte_opcode(b: u8)
    ensures
        op_of_byte(b) matches Some(op) ==> op_byte(op) == b,
        op_of_byte(b) is None <==> b > 17,
{
}

/// Reading the operands of an instruction that `make` encoded gives back the
/// operands, and they take the bytes after the opcode.
pub proof fn law_make_read(op: Opcode, operands: Seq<u16>)
    requires
        operands.len() == op_widths(op).len(),
    ensures
        reads_fit(op_widths(op), make_spec(op, operands).len(), 1),
        read_vals(op_widths(op), make_spec(op, operands), 1, 0) == operands,
        1 + width_sum(op_widths(op), op_widths(op).len()) == make_spec(op, operands).len(),
{
    let ws = op_widths(op);
    let bytes = make_spec(op, operands);
    if ws.len() == 0 {
        assert(encode_ops(ws, operands, 0) =~= Seq::<u8>::empty());
        assert(read_vals(ws, bytes, 1, 0) =~= operands);
    } else {
        let x = operands[0];
        assert(encode_ops(ws, operands, 1) =~= Seq::<u8>::empty());
        assert(encode_ops(ws, operands, 0) =~= be16(x));
        assert(bytes =~= seq![op_byte(op), (x / 256) as u8, (x % 256) as u8]);
        assert(width_sum(ws, 0) == 0);
        assert(width_sum(ws, 1) == 2);
        assert(((x / 256) as u8) as int * 256 + ((x % 256) as u8) as int == x) by (nonlinear_arith)
            requires 0 <= x < 65536;
        assert(read_vals(ws, bytes, 1, 1) =~= Seq::<u16>::empty());
        assert(read_vals(ws, bytes, 1, 0) =~= seq![x]);
        assert(operands =~= seq![x]);
        assert forall|i: nat| i < ws.len() && ws[i as int] == 2 implies 1 + width_sum(ws, i) + 2 <= bytes.len() by {
            assert(i == 0);
        }
    }
}

impl Opcode {
    /// The byte of this opcode.
    pub fn to_byte(&self) -> (r: u8)
        ensures
            r == op_byte(*self),
    {
        match self {
            Opcode::Constant => 0,
            Opcode::OpAdd => 1,
            Opcode::OpPop => 2,
            Opcode::OpSub => 3,
            Opcode::OpMul => 4,
            Opcode::OpDiv => 5,
            Opcode::OpTrue => 6,
            Opcode::OpFalse => 7,
            Opcode::OpEqual => 8,
            Opcode::OpNotEqual => 9,
            Opcode::OpGreaterThan => 10,
            Opcode::OpJumpNotTruthy => 11,
            Opcode::OpJump => 12,
            Opcode::OpNone => 13,
            Opcode::OpBang => 14,
            Opcode::OpMinus => 15,
            Opcode::OpSetGlobal => 16,
            Opcode::OpGetGlobal => 17,
        }
    }

    /// The opcode of a byte, or `None` for a byte that encodes no opcode.
    pub fn from_byte(b: u8) -> (r: Option<Opcode>)
        ensures
            r == op_of_byte(b),
    {
        if b == 0 { Some(Opcode::Constant) }
        else if b == 1 { Some(Opcode::OpAdd) }
        else if b == 2 { Some(Opcode::OpPop) }
        else if b == 3 { Some(Opcode::OpSub) }
        else if b == 4 { Some(Opcode::OpMul) }
        else if b == 5 { Some(Opcode::OpDiv) }
        else if b == 6 { Some(Opcode::OpTrue) }
        else if b == 7 { Some(Opcode::OpFalse) }
        else if b == 8 { Some(Opcode::OpEqual) }
        else if b == 9 { Some(Opcode::OpNotEqual) }
        else if b == 10 { Some(Opcode::OpGreaterThan) }
        else if b == 11 { Some(Opcode::OpJumpNotTruthy) }
        else if b == 12 { Some(Opcode::OpJump) }
        else if b == 13 { Some(Opcode::OpNone) }
        else if b == 14 { Some(Opcode::OpBang) }
        else if b == 15 { Some(Opcode::OpMinus) }
        else if b == 16 { Some(Opcode::OpSetGlobal) }
        else if b == 17 { Some(Opcode::OpGetGlobal) }
        else { None }
    }

    /// The name and operand widths of this opcode.
    pub fn lookup(&self) -> (r: Definition)
        ensures
            r.name@ == op_name(*self),
            r.operands_widths@ == op_widths(*self),
    {
        let mut w: Vec<u16> = Vec::new();
        match self {
            Opcode::Constant | Opcode::OpJumpNotTruthy | Opcode::OpJump | Opcode::OpGetGlobal | Opcode::OpSetGlobal => {
                w.push(2);
            },
            _ => {},
        }
        assert(w@ =~= op_widths(*self));
        let name = match self {
            Opcode::Constant => "OpConstant",
            Opcode::OpAdd => "OpAdd",
            Opcode::OpPop => "OpPop",
            Opcode::OpSub => "OpSub",
            Opcode::OpMul => "OpMul",
            Opcode::OpDiv => "OpDiv",
            Opcode::OpTrue => "OpTrue",
            Opcode::OpFalse => "OpFalse",
            Opcode::OpEqual => "OpEqual",
            Opcode::OpNotEqual => "OpNotEqual",
            Opcode::OpGreaterThan => "OpGreaterThan",
            Opcode::OpJumpNotTruthy => "OpJumpNotTruthy",
            Opcode::OpJump => "OpJump",
            Opcode::OpNone => "OpNone",
            Opcode::OpBang => "OpBang",
            Opcode::OpMinus => "OpMinus",
            Opcode::OpGetGlobal => "OpGetGlobal",
            Opcode::OpSetGlobal => "OpSetGlobal",
        };
        Definition { name, operands_widths: w }
    }

    /// The bytes of this instruction with `operands`.
    pub fn make(&self, operands: &[u16]) -> (r: Vec<u8>)
        ensures
            r@ == make_spec(*self, operands@),
    {
        let definition = self.lookup();
        let ws = &definition.operands_widths;
        let mut instruction: Vec<u8> = Vec::new();
        instruction.push(self.to_byte());
        let ghost target = make_spec(*self, operands@);
        let mut i: usize = 0;
        while i < operands.len()
            invariant
                i <= operands@.len(),
                ws@ == op_widths(*self),
                target == make_spec(*self, operands@),
                instruction@ + encode_ops(ws@, operands@, i as nat) == target,
            decreases operands@.len() - i,
        {
            let ghost before = instruction@;
            if i < ws.len() && ws[i] == 2 {
                let o = operands[i];
                instruction.push((o / 256) as u8);
                instruction.push((o % 256) as u8);
                assert(instruction@ =~= before + be16(o));
            }
            assert(before + encode_ops(ws@, operands@, i as nat)
                =~= instruction@ + encode_ops(ws@, operands@, (i + 1) as nat));
            i += 1;
        }
        assert(instruction@ =~= target);
        instruction
    }

    /// The operands of an instruction whose operand bytes start `instructions`, and
    /// how many bytes they take.
    pub fn read_operands(definition: &Definition, instructions: &[u8]) -> (r: (Vec<u16>, usize))
        requires
            reads_fit(definition.operands_widths@, instructions@.len(), 0),
        ensures
            r.0@ == read_vals(definition.operands_widths@, instructions@, 0, 0),
            r.1 == width_sum(definition.operands_widths@, definition.operands_widths@.len()),
    {
        read_operands_at(&definition.operands_widths, instructions, 0)
    }
}

proof fn lemma_width_sum_mono(ws: Seq<u16>, i: nat, j: nat)
    requires
        i <= j <= ws.len(),
    ensures
        width_sum(ws, i) <= width_sum(ws, j),
    decreases j,
{
    if i < j {
        lemma_width_sum_mono(ws, i, (j - 1) as nat);
    }
}

/// The operands of widths `ws` read from `bytes` at `start`, and their total width.
pub fn read_operands_at(ws: &Vec<u16>, bytes: &[u8], start: usize) -> (r: (Vec<u16>, usize))
    requires
        reads_fit(ws@, bytes@.len(), start as nat),
    ensures
        r.0@ == read_vals(ws@, bytes@, start as nat, 0),
        r.1 == width_sum(ws@, ws@.len()),
{
    let mut operands: Vec<u16> = Vec::new();
    let mut offset: usize = 0;
    let mut i: usize = 0;
    let ghost target = read_vals(ws@, bytes@, start as nat, 0);
    while i < ws.len()
        invariant
            i <= ws@.len(),
            reads_fit(ws@, bytes@.len(), start as nat),
            offset == width_sum(ws@, i as nat),
            target == read_vals(ws@, bytes@, start as nat, 0),
            operands@ + read_vals(ws@, bytes@, start as nat, i as nat) == target,
        decreases ws@.len() - i,
    {
        proof { lemma_width_sum_mono(ws@, (i + 1) as nat, ws@.len()); }
        let width = ws[i];
        let ghost before = operands@;
        if width == 2 {
            assert(start + width_sum(ws@, i as nat) + 2 <= bytes@.len());
            let hi = bytes[start + offset] as u16;
            let lo = bytes[start + offset + 1] as u16;
            let value = hi * 256 + lo;
            operands.push(value);
            assert(operands@ =~= before + seq![(bytes@[start + offset] as int * 256 + bytes@[start + offset + 1 as int] as int) as u16]);
        }
        assert(before + read_vals(ws@, bytes@, start as nat, i as nat)
            =~= operands@ + read_vals(ws@, bytes@, start as nat, (i + 1) as nat));
        offset = offset + width as usize;
        i += 1;
    }
    assert(operands@ =~= target);
    (operands, offset)
}

/// The bytes from `off` on are a sequence of whole instructions.
pub open spec fn code_ok(bytes: Seq<u8>, off: nat) -> bool
    decreases bytes.len() - off,
{
    if off >= bytes.len() {
        true
    } else {
        match op_of_byte(bytes[off as int]) {
            None => false,
            Some(op) => {
                let next = off + 1 + op_len(op);
                next <= bytes.len() && code_ok(bytes, next)
            },
        }
    }
}

/// The number of operand bytes of `op`.
pub open spec fn op_len(op: Opcode) -> nat {
    width_sum(op_widths(op), op_widths(op).len())
}

pub proof fn lemma_op_len(op: Opcode)
    ensures
        op_widths(op).len() == 0 ==> op_len(op) == 0,
        op_widths(op).len() != 0 ==> op_widths(op) == seq![2u16] && op_len(op) == 2,
{
    let ws = op_widths(op);
    assert(width_sum(ws, 0) == 0);
    if ws.len() != 0 {
        assert(width_sum(ws, 1) == 2);
    }
}

/// The operands of `op` starting at `start` lie within `len` bytes.
proof fn lemma_op_reads_fit(op: Opcode, len: nat, start: nat)
    requires
        start + op_len(op) <= len <= usize::MAX,
    ensures
        reads_fit(op_widths(op), len, start),
{
    lemma_op_len(op);
    let ws = op_widths(op);
    assert forall|i: nat| i < ws.len() && ws[i as int] == 2 implies start + width_sum(ws, i) + 2 <= len by {
        assert(i == 0);
        assert(width_sum(ws, 0) == 0);
    }
}

proof fn lemma_code_ok_shift(a: Seq<u8>, b: Seq<u8>, k: nat)
    requires
        k <= b.len(),
    ensures
        code_ok(a + b, a.len() + k) == code_ok(b, k),
    decreases b.len() - k,
{
    let c = a + b;
    if k < b.len() {
        assert(c[(a.len() + k) as int] == b[k as int]);
        if let Some(op) = op_of_byte(b[k as int]) {
            let next = k + 1 + op_len(op);
            if next <= b.len() {
                lemma_code_ok_shift(a, b, next);
            }
        }
    }
}

/// Whole instructions followed by whole instructions are whole instructions.
pub proof fn lemma_code_ok_concat(a: Seq<u8>, b: Seq<u8>, off: nat)
    requires
        off <= a.len(),
        code_ok(a, off),
        code_ok(b, 0),
    ensures
        code_ok(a + b, off),
    decreases a.len() - off,
{
    if off == a.len() {
        lemma_code_ok_shift(a, b, 0);
    } else {
        assert((a + b)[off as int] == a[off as int]);
        let op = op_of_byte(a[off as int])->0;
        lemma_code_ok_concat(a, b, off + 1 + op_len(op));
    }
}

/// One instruction made by `make` is a whole instruction.
pub proof fn lemma_make_code_ok(op: Opcode, ops: Seq<u16>)
    requires
        ops.len() == op_widths(op).len(),
    ensures
        code_ok(make_spec(op, ops), 0),
        make_spec(op, ops).len() == 1 + op_len(op),
        make_spec(op, ops)[0] == op_byte(op),
{
    law_make_read(op, ops);
    law_opcode_byte(op);
    let bytes = make_spec(op, ops);
    assert(bytes[0] == op_byte(op));
    assert(code_ok(bytes, bytes.len()));
}

/// `s` padded with leading zeros to four characters.
pub open spec fn pad4(s: Seq<char>) -> Seq<char> {
    if s.len() >= 4 { s } else { Seq::new((4 - s.len()) as nat, |i: int| '0') + s }
}

/// Each operand after a space.
pub open spec fn operands_text(vals: Seq<u16>) -> Seq<char>
    decreases vals.len(),
{
    if vals.len() == 0 { Seq::empty() } else { operands_text(vals.drop_last()) + " "@ + nat_str(vals.last() as nat) }
}

/// The listing of the instructions from `off` on: one line per instruction with its
/// offset in four digits, its name and its operands.
pub open spec fn listing(bytes: Seq<u8>, off: nat) -> Seq<char>
    decreases bytes.len() - off,
{
    if off >= bytes.len() {
        Seq::empty()
    } else {
        match op_of_byte(bytes[off as int]) {
            None => Seq::empty(),
            Some(op) => {
                let ws = op_widths(op);
                let line = pad4(nat_str(off)) + " "@ + op_name(op) + operands_text(read_vals(ws, bytes, off + 1, 0)) + "\n"@;
                let next = off + 1 + width_sum(ws, ws.len());
                if next <= bytes.len() { line + listing(bytes, next) } else { line }
            },
        }
    }
}

/// One line of the listing: the offset in four digits, the name, the operands.
fn listing_line(offset: usize, name: &str, operands: &Vec<u16>) -> (r: String)
    ensures
        r@ == pad4(nat_str(offset as nat)) + " "@ + name@ + operands_text(operands@) + "\n"@,
{
    let mut out = String::new();
    let n = nat_to_string(offset as u64);
    let digits = nat_to_chars(offset as u64);
    let mut k = digits.len();
    while k < 4
        invariant
            n@.len() <= k <= 4 || (k == n@.len() && k > 4),
            out@ == Seq::new((k - n@.len()) as nat, |i: int| '0'),
        decreases 4 - k,
    {
        push_char(&mut out, '0');
        assert(out@ =~= Seq::new((k + 1 - n@.len()) as nat, |i: int| '0'));
        k += 1;
    }
    push_str(&mut out, n.as_str());
    assert(out@ =~= pad4(nat_str(offset as nat)));
    push_str(&mut out, " ");
    push_str(&mut out, name);
    let ghost mid = out@;
    let mut j: usize = 0;
    while j < operands.len()
        invariant
            j <= operands@.len(),
            out@ == mid + operands_text(operands@.subrange(0, j as int)),
        decreases operands@.len() - j,
    {
        push_str(&mut out, " ");
        let t = nat_to_string(operands[j] as u64);
        push_str(&mut out, t.as_str());
        assert(operands@.subrange(0, j + 1).drop_last() =~= operands@.subrange(0, j as int));
        assert(out@ =~= mid + operands_text(operands@.subrange(0, j + 1)));
        j += 1;
    }
    assert(operands@.subrange(0, operands@.len() as int) =~= operands@);
    push_str(&mut out, "\n");
    out
}

/// The listing of a sequence of whole instructions.
pub fn format_instructions(instructions: &Vec<u8>) -> (r: String)
    requires
        code_ok(instructions@, 0),
    ensures
        r@ == listing(instructions@, 0),
{
    let mut out = String::new();
    let mut offset: usize = 0;
    let ghost target = listing(instructions@, 0);
    while offset < instructions.len()
        invariant
            code_ok(instructions@, offset as nat),
            target == listing(instructions@, 0),
            out@ + listing(instructions@, offset as nat) == target,
        decreases instructions@.len() - offset,
    {
        let op = match Opcode::from_byte(instructions[offset]) {
            Some(op) => op,
            None => { return out; },
        };
        let definition = op.lookup();
        proof {
            lemma_op_len(op);
            lemma_op_reads_fit(op, instructions@.len(), (offset + 1) as nat);
        }
        let (operands, bytes_read) = read_operands_at(&definition.operands_widths, instructions.as_slice(), offset + 1);
        let line = listing_line(offset, definition.name, &operands);
        push_str(&mut out, line.as_str());
        offset = offset + 1 + bytes_read;
    }
    assert(out@ =~= target);
    out
}

} // verus!
