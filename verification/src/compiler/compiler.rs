//! The bytecode compiler: expression statements of numbers, booleans, negation,
//! arithmetic, comparisons and conditionals.
use vstd::prelude::*;
use crate::ast::literal::{Literal, SLit};
use crate::ast::expression::{Expression, SExpr, Operator, Prefix};
use crate::ast::statement::{Statement, SStmt};
use crate::compiler::code::{Opcode, op_of_byte, op_byte, op_widths, make_spec, code_ok, op_len, lemma_op_len, lemma_code_ok_concat, lemma_make_code_ok, law_opcode_byte};
use crate::eval::object::{Object, SObj};

verus! {

/// An instruction emitted last: its opcode and the end of the code after it.
struct EmittedInstruction {
    opcode: Opcode,
    position: usize,
}

pub struct SEmitted {
    pub opcode: Opcode,
    pub position: nat,
}

/// The compiler's state as a mathematical value: the code so far, the constants,
/// and the last two instructions emitted.
pub struct CState {
    pub code: Seq<u8>,
    pub consts: Seq<SObj>,
    pub last: Option<SEmitted>,
    pub prev: Option<SEmitted>,
}

pub struct Compiler {
    instructions: Vec<u8>,
    constants: Vec<Object>,
    last_instruction: Option<EmittedInstruction>,
    previous_instruction: Option<EmittedInstruction>,
}

/// The code and the constants it refers to.
pub struct Bytecode {
    pub instructions: Vec<u8>,
    pub constants: Vec<Object>,
}

/// The state after emitting `op` with `ops`, and where the instruction starts.
pub open spec fn c_emit(s: CState, op: Opcode, ops: Seq<u16>) -> (CState, nat) {
    let code = s.code + make_spec(op, ops);
    (CState { code, consts: s.consts, last: Some(SEmitted { opcode: op, position: code.len() }), prev: s.last }, s.code.len())
}

/// The state with the number `v` added to the constants, and its position.
pub open spec fn c_add_const(s: CState, v: i64) -> (CState, nat) {
    (CState { code: s.code, consts: s.consts.push(SObj::Number(v)), last: s.last, prev: s.prev }, s.consts.len())
}

pub open spec fn c_is_last_pop(s: CState) -> bool {
    s.last matches Some(e) && e.opcode == Opcode::OpPop
}

/// The state without its last byte (a `Pop`); the instruction before it becomes the last.
pub open spec fn c_remove_last_pop(s: CState) -> CState {
    CState {
        code: if s.code.len() > 0 { s.code.drop_last() } else { s.code },
        consts: s.consts,
        last: s.prev,
        prev: None,
    }
}

/// The state with the operand of the instruction at `pos` set to `operand`
/// (truncated to 16 bits).
pub open spec fn c_change_operand(s: CState, pos: nat, operand: nat) -> CState {
    if pos < s.code.len() {
        match op_of_byte(s.code[pos as int]) {
            Some(op) => {
                let new = make_spec(op, seq![operand as u16]);
                if pos + new.len() <= s.code.len() {
                    CState {
                        code: s.code.subrange(0, pos as int) + new + s.code.subrange((pos + new.len()) as int, s.code.len() as int),
                        consts: s.consts,
                        last: s.last,
                        prev: s.prev,
                    }
                } else {
                    s
                }
            },
            None => s,
        }
    } else {
        s
    }
}

/// The opcode of a prefix operator.
pub open spec fn prefix_opcode(p: Prefix) -> Opcode {
    match p {
        Prefix::Bang => Opcode::OpBang,
        Prefix::Minus => Opcode::OpMinus,
    }
}

/// The opcode of an arithmetic or comparison operator.
pub open spec fn infix_opcode(op: Operator) -> Opcode {
    match op {
        Operator::Plus => Opcode::OpAdd,
        Operator::Minus => Opcode::OpSub,
        Operator::Multiply => Opcode::OpMul,
        Operator::Divide => Opcode::OpDiv,
        Operator::Equal => Opcode::OpEqual,
        Operator::NotEqual => Opcode::OpNotEqual,
        _ => Opcode::OpGreaterThan,
    }
}

pub open spec fn compilable_op(op: Operator) -> bool {
    op == Operator::Plus || op == Operator::Minus || op == Operator::Multiply || op == Operator::Divide
        || op == Operator::Equal || op == Operator::NotEqual || op == Operator::GreaterThan || op == Operator::LessThan
}

/// The expressions the compiler handles: number and boolean literals, the
/// prefix operators `!` and `-`, the operators `+ - * / == != > <`, and `if`
/// with blocks it handles.
pub open spec fn compilable_expr(e: SExpr) -> bool
    decreases e,
{
    match e {
        SExpr::Infix(op, l, r) => compilable_op(op) && compilable_expr(*l) && compilable_expr(*r),
        SExpr::Prefix(p, x) => compilable_expr(*x),
        SExpr::Literal(l) => l is Number || l is Boolean,
        SExpr::If { condition, consequence, alternative } => compilable_expr(*condition) && compilable_stmts(consequence)
            && match alternative {
                Some(a) => compilable_stmts(a),
                None => true,
            },
        _ => false,
    }
}

/// Blocks of expression statements the compiler handles.
pub open spec fn compilable_stmts(s: Seq<SStmt>) -> bool
    decreases s,
{
    if s.len() == 0 {
        true
    } else {
        compilable_stmts(s.drop_last()) && match s.last() {
            SStmt::Expression(e) => compilable_expr(e),
            _ => false,
        }
    }
}

pub proof fn lemma_compilable_stmts(s: Seq<SStmt>, i: int)
    requires
        compilable_stmts(s),
        0 <= i < s.len(),
    ensures
        s[i] matches SStmt::Expression(e) && compilable_expr(e),
    decreases s.len(),
{
    if i < s.len() - 1 {
        lemma_compilable_stmts(s.drop_last(), i);
    }
}

/// The state after compiling an expression: its value is left on the stack.
pub open spec fn c_expr(s: CState, e: SExpr) -> CState
    decreases e, 0nat,
{
    match e {
        SExpr::Infix(op, l, r) => {
            if op == Operator::LessThan {
                c_emit(c_expr(c_expr(s, *r), *l), Opcode::OpGreaterThan, Seq::empty()).0
            } else {
                c_emit(c_expr(c_expr(s, *l), *r), infix_opcode(op), Seq::empty()).0
            }
        },
        SExpr::Literal(SLit::Number(v)) => {
            let (s1, pos) = c_add_const(s, v);
            c_emit(s1, Opcode::Constant, seq![pos as u16]).0
        },
        SExpr::Literal(SLit::Boolean(b)) => c_emit(s, if b { Opcode::OpTrue } else { Opcode::OpFalse }, Seq::empty()).0,
        SExpr::Prefix(p, x) => c_emit(c_expr(s, *x), prefix_opcode(p), Seq::empty()).0,
        SExpr::If { condition, consequence, alternative } => {
            let s1 = c_expr(s, *condition);
            let (s2, jnt) = c_emit(s1, Opcode::OpJumpNotTruthy, seq![9999u16]);
            let s3 = c_stmts(s2, consequence, 0);
            let s4 = if c_is_last_pop(s3) { c_remove_last_pop(s3) } else { s3 };
            match alternative {
                None => c_change_operand(s4, jnt, s4.code.len()),
                Some(alt) => {
                    let (s5, jmp) = c_emit(s4, Opcode::OpJump, seq![9999u16]);
                    let s6 = c_change_operand(s5, jnt, s5.code.len());
                    let s7 = c_stmts(s6, alt, 0);
                    let s8 = if c_is_last_pop(s7) { c_remove_last_pop(s7) } else { s7 };
                    c_change_operand(s8, jmp, s8.code.len())
                },
            }
        },
        _ => s,
    }
}

/// The state after compiling the statements from position `i` on, each followed by a `Pop`.
pub open spec fn c_stmts(s: CState, stmts: Seq<SStmt>, i: nat) -> CState
    decreases stmts, stmts.len() - i,
{
    if i >= stmts.len() {
        s
    } else {
        match stmts[i as int] {
            SStmt::Expression(e) => c_stmts(c_emit(c_expr(s, e), Opcode::OpPop, Seq::empty()).0, stmts, i + 1),
            _ => s,
        }
    }
}

fn no_ops() -> (r: Vec<u16>)
    ensures
        r@ == Seq::<u16>::empty(),
{
    Vec::new()
}

fn one_op(x: u16) -> (r: Vec<u16>)
    ensures
        r@ == seq![x],
{
    let mut r: Vec<u16> = Vec::new();
    r.push(x);
    assert(r@ =~= seq![x]);
    r
}

/// `b` is `a` followed by whole instructions.
pub open spec fn extends(a: Seq<u8>, b: Seq<u8>) -> bool {
    &&& a.len() <= b.len()
    &&& b.subrange(0, a.len() as int) == a
    &&& code_ok(b.subrange(a.len() as int, b.len() as int), 0)
}

proof fn lemma_extends_refl(a: Seq<u8>)
    ensures
        extends(a, a),
{
    assert(a.subrange(0, a.len() as int) =~= a);
    assert(a.subrange(a.len() as int, a.len() as int) =~= Seq::<u8>::empty());
}

proof fn lemma_extends_trans(a: Seq<u8>, b: Seq<u8>, c: Seq<u8>)
    requires
        extends(a, b),
        extends(b, c),
    ensures
        extends(a, c),
{
    let x = b.subrange(a.len() as int, b.len() as int);
    let y = c.subrange(b.len() as int, c.len() as int);
    assert(c.subrange(0, b.len() as int) == b);
    assert(c.subrange(0, a.len() as int) =~= b.subrange(0, a.len() as int));
    assert(c.subrange(a.len() as int, c.len() as int) =~= x + y);
    lemma_code_ok_concat(x, y, 0);
}

proof fn lemma_emit_extends(s: CState, op: Opcode, ops: Seq<u16>)
    requires
        ops.len() == op_widths(op).len(),
    ensures
        extends(s.code, c_emit(s, op, ops).0.code),
        c_emit(s, op, ops).0.code == s.code + make_spec(op, ops),
{
    lemma_make_code_ok(op, ops);
    let c = s.code + make_spec(op, ops);
    assert(c.subrange(0, s.code.len() as int) =~= s.code);
    assert(c.subrange(s.code.len() as int, c.len() as int) =~= make_spec(op, ops));
}

/// Setting the operand of the jump at the end of `pre` keeps the bytes around it.
pub proof fn lemma_patch(s: CState, pre: Seq<u8>, op: Opcode, old_ops: Seq<u16>, post: Seq<u8>, x: nat)
    requires
        op == Opcode::OpJump || op == Opcode::OpJumpNotTruthy,
        old_ops.len() == 1,
        s.code == pre + make_spec(op, old_ops) + post,
    ensures
        c_change_operand(s, pre.len(), x).code == pre + make_spec(op, seq![x as u16]) + post,
        c_change_operand(s, pre.len(), x).consts == s.consts,
        c_change_operand(s, pre.len(), x).last == s.last,
        c_change_operand(s, pre.len(), x).prev == s.prev,
{
    lemma_op_len(op);
    lemma_make_code_ok(op, old_ops);
    lemma_make_code_ok(op, seq![x as u16]);
    law_opcode_byte(op);
    let m = make_spec(op, old_ops);
    let n = make_spec(op, seq![x as u16]);
    assert(s.code[pre.len() as int] == m[0]);
    assert(s.code.subrange(0, pre.len() as int) =~= pre);
    assert(s.code.subrange((pre.len() + n.len()) as int, s.code.len() as int) =~= post);
}

/// After compiling the statements from `i` on, the code is the code before
/// followed by whole instructions; when there was a statement, the last one is
/// the `Pop` that ends it.
proof fn lemma_stmts_extends(s: CState, stmts: Seq<SStmt>, i: nat)
    requires
        compilable_stmts(stmts),
    ensures
        extends(s.code, c_stmts(s, stmts, i).code),
        i < stmts.len() ==> c_is_last_pop(c_stmts(s, stmts, i))
            && c_stmts(s, stmts, i).code.len() > s.code.len()
            && extends(s.code, c_stmts(s, stmts, i).code.drop_last()),
        i >= stmts.len() ==> c_stmts(s, stmts, i) == s,
    decreases stmts, stmts.len() - i,
{
    if i >= stmts.len() {
        lemma_extends_refl(s.code);
    } else {
        lemma_compilable_stmts(stmts, i as int);
        if let SStmt::Expression(e) = stmts[i as int] {
            assert(decreases_to!(stmts => stmts[i as int]));
            lemma_expr_extends(s, e);
            let s1 = c_expr(s, e);
            lemma_emit_extends(s1, Opcode::OpPop, Seq::empty());
            let s2 = c_emit(s1, Opcode::OpPop, Seq::empty()).0;
            lemma_extends_trans(s.code, s1.code, s2.code);
            lemma_make_code_ok(Opcode::OpPop, Seq::empty());
            lemma_op_len(Opcode::OpPop);
            assert(s2.code.drop_last() =~= s1.code);
            lemma_stmts_extends(s2, stmts, i + 1);
            let r = c_stmts(s2, stmts, i + 1);
            lemma_extends_trans(s.code, s2.code, r.code);
            if i + 1 < stmts.len() {
                assert(r.code.drop_last().len() >= s2.code.len());
                lemma_extends_trans(s.code, s2.code, r.code.drop_last());
            }
        }
    }
}

/// A block's code after its trailing `Pop` is taken off: the code before
/// followed by whole instructions.
proof fn lemma_block_extends(s: CState, stmts: Seq<SStmt>)
    requires
        compilable_stmts(stmts),
        !c_is_last_pop(s),
    ensures
        ({
            let s3 = c_stmts(s, stmts, 0);
            let s4 = if c_is_last_pop(s3) { c_remove_last_pop(s3) } else { s3 };
            extends(s.code, s4.code) && s4.consts == s3.consts
        }),
    decreases stmts, stmts.len() + 1,
{
    lemma_stmts_extends(s, stmts, 0);
}

/// Compiling an expression appends whole instructions to the code.
pub proof fn lemma_expr_extends(s: CState, e: SExpr)
    requires
        compilable_expr(e),
    ensures
        extends(s.code, c_expr(s, e).code),
    decreases e, 3nat,
{
    match e {
        SExpr::Infix(op, l, r) => {
            let (a, b) = if op == Operator::LessThan { (*r, *l) } else { (*l, *r) };
            lemma_expr_extends(s, a);
            let s1 = c_expr(s, a);
            lemma_expr_extends(s1, b);
            let s2 = c_expr(s1, b);
            lemma_extends_trans(s.code, s1.code, s2.code);
            let code = if op == Operator::LessThan { Opcode::OpGreaterThan } else { infix_opcode(op) };
            lemma_emit_extends(s2, code, Seq::empty());
            lemma_extends_trans(s.code, s2.code, c_emit(s2, code, Seq::empty()).0.code);
        },
        SExpr::Literal(SLit::Number(v)) => {
            let (s1, pos) = c_add_const(s, v);
            lemma_emit_extends(s1, Opcode::Constant, seq![pos as u16]);
        },
        SExpr::Literal(SLit::Boolean(b)) => {
            lemma_emit_extends(s, if b { Opcode::OpTrue } else { Opcode::OpFalse }, Seq::empty());
        },
        SExpr::Prefix(p, x) => {
            lemma_expr_extends(s, *x);
            let s1 = c_expr(s, *x);
            lemma_emit_extends(s1, prefix_opcode(p), Seq::empty());
            lemma_extends_trans(s.code, s1.code, c_emit(s1, prefix_opcode(p), Seq::empty()).0.code);
        },
        SExpr::If { .. } => lemma_if_extends(s, e),
        _ => {},
    }
}

/// The condition, the jump over the consequence and the consequence, whose
/// trailing `Pop` is taken off.
proof fn lemma_if_head(s: CState, e: SExpr)
    requires
        compilable_expr(e),
        e is If,
    ensures
        ({
            let condition = e->If_condition;
            let s1 = c_expr(s, *condition);
            let (s2, jnt) = c_emit(s1, Opcode::OpJumpNotTruthy, seq![9999u16]);
            let s3 = c_stmts(s2, e->If_consequence, 0);
            let s4 = if c_is_last_pop(s3) { c_remove_last_pop(s3) } else { s3 };
            &&& extends(s.code, s1.code)
            &&& jnt == s1.code.len()
            &&& s4.code == s1.code + make_spec(Opcode::OpJumpNotTruthy, seq![9999u16])
                + s4.code.subrange(s2.code.len() as int, s4.code.len() as int)
            &&& code_ok(s4.code.subrange(s2.code.len() as int, s4.code.len() as int), 0)
        }),
    decreases e, 0nat,
{
    if let SExpr::If { condition, consequence, alternative } = e {
        lemma_expr_extends(s, *condition);
        let s1 = c_expr(s, *condition);
        let j1 = make_spec(Opcode::OpJumpNotTruthy, seq![9999u16]);
        lemma_emit_extends(s1, Opcode::OpJumpNotTruthy, seq![9999u16]);
        let (s2, jnt) = c_emit(s1, Opcode::OpJumpNotTruthy, seq![9999u16]);
        lemma_block_extends(s2, consequence);
        let s3 = c_stmts(s2, consequence, 0);
        let s4 = if c_is_last_pop(s3) { c_remove_last_pop(s3) } else { s3 };
        let x = s4.code.subrange(s2.code.len() as int, s4.code.len() as int);
        assert(s4.code =~= s1.code + j1 + x);
    }
}

proof fn lemma_if_extends(s: CState, e: SExpr)
    requires
        compilable_expr(e),
        e is If,
    ensures
        extends(s.code, c_expr(s, e).code),
    decreases e, 2nat,
{
    if let SExpr::If { condition, consequence, alternative } = e {
        lemma_if_head(s, e);
        let s1 = c_expr(s, *condition);
        let j1 = make_spec(Opcode::OpJumpNotTruthy, seq![9999u16]);
        let (s2, jnt) = c_emit(s1, Opcode::OpJumpNotTruthy, seq![9999u16]);
        let s3 = c_stmts(s2, consequence, 0);
        let s4 = if c_is_last_pop(s3) { c_remove_last_pop(s3) } else { s3 };
        let x = s4.code.subrange(s2.code.len() as int, s4.code.len() as int);
        let tail = s1.code.subrange(s.code.len() as int, s1.code.len() as int);
        assert(s1.code =~= s.code + tail);
        match alternative {
            None => {
                lemma_patch(s4, s1.code, Opcode::OpJumpNotTruthy, seq![9999u16], x, s4.code.len());
                let n1 = make_spec(Opcode::OpJumpNotTruthy, seq![(s4.code.len()) as u16]);
                lemma_make_code_ok(Opcode::OpJumpNotTruthy, seq![(s4.code.len()) as u16]);
                let r = c_change_operand(s4, jnt, s4.code.len());
                lemma_code_ok_concat(tail, n1, 0);
                lemma_code_ok_concat(tail + n1, x, 0);
                assert(r.code =~= s.code + (tail + n1 + x));
                assert(r.code.subrange(0, s.code.len() as int) =~= s.code);
                assert(r.code.subrange(s.code.len() as int, r.code.len() as int) =~= tail + n1 + x);
            },
            Some(alt) => lemma_else_extends(s, e),
        }
    }
}

#[verifier::rlimit(80)]
proof fn lemma_else_extends(s: CState, e: SExpr)
    requires
        compilable_expr(e),
        e is If,
        e->If_alternative is Some,
    ensures
        extends(s.code, c_expr(s, e).code),
    decreases e, 1nat,
{
    if let SExpr::If { condition, consequence, alternative } = e {
        let alt = alternative->0;
        lemma_if_head(s, e);
        let s1 = c_expr(s, *condition);
        let j1 = make_spec(Opcode::OpJumpNotTruthy, seq![9999u16]);
        let (s2, jnt) = c_emit(s1, Opcode::OpJumpNotTruthy, seq![9999u16]);
        let s3 = c_stmts(s2, consequence, 0);
        let s4 = if c_is_last_pop(s3) { c_remove_last_pop(s3) } else { s3 };
        let x = s4.code.subrange(s2.code.len() as int, s4.code.len() as int);
        let tail = s1.code.subrange(s.code.len() as int, s1.code.len() as int);
        assert(s1.code =~= s.code + tail);
        let j2 = make_spec(Opcode::OpJump, seq![9999u16]);
        lemma_emit_extends(s4, Opcode::OpJump, seq![9999u16]);
        let (s5, jmp) = c_emit(s4, Opcode::OpJump, seq![9999u16]);
        assert(s5.code =~= s1.code + j1 + (x + j2));
        lemma_patch(s5, s1.code, Opcode::OpJumpNotTruthy, seq![9999u16], x + j2, s5.code.len());
        let n1 = make_spec(Opcode::OpJumpNotTruthy, seq![(s5.code.len()) as u16]);
        let s6 = c_change_operand(s5, jnt, s5.code.len());
        assert(s6.code =~= s1.code + n1 + x + j2);
        assert(!c_is_last_pop(s6));
        lemma_block_extends(s6, alt);
        let s7 = c_stmts(s6, alt, 0);
        let s8 = if c_is_last_pop(s7) { c_remove_last_pop(s7) } else { s7 };
        let y = s8.code.subrange(s6.code.len() as int, s8.code.len() as int);
        let pre = s1.code + n1 + x;
        assert(s8.code =~= pre + j2 + y);
        lemma_patch(s8, pre, Opcode::OpJump, seq![9999u16], y, s8.code.len());
        let n2 = make_spec(Opcode::OpJump, seq![(s8.code.len()) as u16]);
        lemma_make_code_ok(Opcode::OpJumpNotTruthy, seq![(s5.code.len()) as u16]);
        lemma_make_code_ok(Opcode::OpJump, seq![(s8.code.len()) as u16]);
        let r = c_change_operand(s8, jmp, s8.code.len());
        assert(jmp == pre.len());
        lemma_code_ok_concat(tail, n1, 0);
        lemma_code_ok_concat(tail + n1, x, 0);
        lemma_code_ok_concat(tail + n1 + x, n2, 0);
        lemma_code_ok_concat(tail + n1 + x + n2, y, 0);
        assert(r.code =~= s.code + (tail + n1 + x + n2 + y));
        assert(r.code.subrange(0, s.code.len() as int) =~= s.code);
        assert(r.code.subrange(s.code.len() as int, r.code.len() as int) =~= tail + n1 + x + n2 + y);
    }
}

/// Compiled code is a sequence of whole instructions: every opcode byte is an
/// opcode and every operand is there.
pub proof fn law_compiled_code_is_whole(stmts: Seq<SStmt>)
    requires
        compilable_stmts(stmts),
    ensures
        code_ok(c_stmts(CState { code: Seq::empty(), consts: Seq::empty(), last: None, prev: None }, stmts, 0).code, 0),
{
    let s = CState { code: Seq::empty(), consts: Seq::empty(), last: None, prev: None };
    lemma_stmts_extends(s, stmts, 0);
    let r = c_stmts(s, stmts, 0);
    assert(r.code.subrange(0, r.code.len() as int) =~= r.code);
}

impl Compiler {
    pub closed spec fn view(&self) -> CState {
        CState {
            code: self.instructions@,
            consts: Object::view_seq(self.constants@),
            last: match self.last_instruction {
                Some(e) => Some(SEmitted { opcode: e.opcode, position: e.position as nat }),
                None => None,
            },
            prev: match self.previous_instruction {
                Some(e) => Some(SEmitted { opcode: e.opcode, position: e.position as nat }),
                None => None,
            },
        }
    }

    pub fn new() -> (r: Compiler)
        ensures
            r@ == (CState { code: Seq::empty(), consts: Seq::empty(), last: None, prev: None }),
    {
        let r = Compiler { instructions: Vec::new(), constants: Vec::new(), last_instruction: None, previous_instruction: None };
        assert(r@.code =~= Seq::<u8>::empty());
        assert(r@.consts =~= Seq::<SObj>::empty());
        r
    }

    /// Compiles each statement followed by a `Pop`.
    pub fn compile(&mut self, statements: &Vec<Statement>)
        requires
            compilable_stmts(Statement::view_seq(statements@)),
        ensures
            final(self)@ == c_stmts(old(self)@, Statement::view_seq(statements@), 0),
        decreases statements,
    {
        proof { Statement::lemma_view_seq(statements@); }
        let ghost sv = Statement::view_seq(statements@);
        let ghost target = c_stmts(self@, sv, 0);
        let mut i: usize = 0;
        #[verifier::loop_isolation(false)]
        while i < statements.len()
            invariant
                i <= statements@.len(),
                c_stmts(self@, sv, i as nat) == target,
            decreases statements@.len() - i,
        {
            proof {
                assert(decreases_to!(statements => statements@[i as int]));
                lemma_compilable_stmts(sv, i as int);
            }
            match &statements[i] {
                Statement::Expression(e) => {
                    proof { assert(decreases_to!(statements => *e)) by { assert(decreases_to!(statements@[i as int] => *e)); } }
                    self.compile_expression(e);
                    self.emit(Opcode::OpPop, &no_ops());
                },
                _ => {
                    return;
                },
            }
            i += 1;
        }
    }

    fn compile_expression(&mut self, expr: &Expression)
        requires
            compilable_expr(expr@),
        ensures
            final(self)@ == c_expr(old(self)@, expr@),
        decreases expr,
    {
        match expr {
            Expression::Infix(op, l, r) => {
                if *op == Operator::LessThan {
                    self.compile_expression(r);
                    self.compile_expression(l);
                    self.emit(Opcode::OpGreaterThan, &no_ops());
                } else {
                    self.compile_expression(l);
                    self.compile_expression(r);
                    let code = match op {
                        Operator::Plus => Opcode::OpAdd,
                        Operator::Minus => Opcode::OpSub,
                        Operator::Multiply => Opcode::OpMul,
                        Operator::Divide => Opcode::OpDiv,
                        Operator::Equal => Opcode::OpEqual,
                        Operator::NotEqual => Opcode::OpNotEqual,
                        _ => Opcode::OpGreaterThan,
                    };
                    self.emit(code, &no_ops());
                }
            },
            Expression::Literal(Literal::Number(v)) => {
                let position = self.add_constant(*v);
                self.emit(Opcode::Constant, &one_op(position as u16));
            },
            Expression::Literal(Literal::Boolean(b)) => {
                if *b {
                    self.emit(Opcode::OpTrue, &no_ops());
                } else {
                    self.emit(Opcode::OpFalse, &no_ops());
                }
            },
            Expression::Prefix(p, x) => {
                self.compile_expression(x);
                let code = match p {
                    Prefix::Bang => Opcode::OpBang,
                    Prefix::Minus => Opcode::OpMinus,
                };
                self.emit(code, &no_ops());
            },
            Expression::If { condition, consequence, alternative } => {
                self.compile_expression(condition);
                let op_jump_pos = self.emit(Opcode::OpJumpNotTruthy, &one_op(9999));
                self.compile(consequence);
                if self.is_last_instruction_pop() {
                    self.remove_last_pop();
                }
                match alternative {
                    None => {
                        let after = self.instructions.len();
                        self.change_operand(op_jump_pos, after);
                    },
                    Some(alt) => {
                        let jump_pos = self.emit(Opcode::OpJump, &one_op(9999));
                        let after = self.instructions.len();
                        self.change_operand(op_jump_pos, after);
                        self.compile(alt);
                        if self.is_last_instruction_pop() {
                            self.remove_last_pop();
                        }
                        let after_alt = self.instructions.len();
                        self.change_operand(jump_pos, after_alt);
                    },
                }
            },
            _ => {},
        }
    }

    fn add_constant(&mut self, val: i64) -> (r: usize)
        ensures
            (final(self)@, r as nat) == c_add_const(old(self)@, val),
    {
        proof {
            Object::lemma_view_seq_push(self.constants@, Object::Number(val));
            Object::lemma_view_seq(self.constants@);
        }
        self.constants.push(Object::Number(val));
        self.constants.len() - 1
    }

    fn emit(&mut self, op_code: Opcode, operands: &Vec<u16>) -> (r: usize)
        ensures
            (final(self)@, r as nat) == c_emit(old(self)@, op_code, operands@),
    {
        let pos = self.instructions.len();
        let val = op_code.make(operands.as_slice());
        let ghost before = self.instructions@;
        let mut i: usize = 0;
        while i < val.len()
            invariant
                i <= val@.len(),
                self.instructions@ == before + val@.subrange(0, i as int),
                self.constants@ == old(self).constants@,
                self.last_instruction == old(self).last_instruction,
                self.previous_instruction == old(self).previous_instruction,
            decreases val@.len() - i,
        {
            self.instructions.push(val[i]);
            assert(self.instructions@ =~= before + val@.subrange(0, i + 1));
            i += 1;
        }
        assert(val@.subrange(0, val@.len() as int) =~= val@);
        self.set_last_instructions(op_code);
        pos
    }

    fn set_last_instructions(&mut self, op_code: Opcode)
        ensures
            final(self).instructions@ == old(self).instructions@,
            final(self).constants@ == old(self).constants@,
            final(self)@.prev == old(self)@.last,
            final(self)@.last == Some(SEmitted { opcode: op_code, position: old(self).instructions@.len() }),
    {
        let mut prev: Option<EmittedInstruction> = None;
        std::mem::swap(&mut prev, &mut self.last_instruction);
        self.previous_instruction = prev;
        self.last_instruction = Some(EmittedInstruction { opcode: op_code, position: self.instructions.len() });
    }

    fn is_last_instruction_pop(&self) -> (r: bool)
        ensures
            r == c_is_last_pop(self@),
    {
        match &self.last_instruction {
            Some(e) => e.opcode == Opcode::OpPop,
            None => false,
        }
    }

    fn remove_last_pop(&mut self)
        ensures
            final(self)@ == c_remove_last_pop(old(self)@),
    {
        let _ = self.instructions.pop();
        let mut prev: Option<EmittedInstruction> = None;
        std::mem::swap(&mut prev, &mut self.previous_instruction);
        self.last_instruction = prev;
    }

    fn replace_instructions(&mut self, position: usize, new_instructions: &Vec<u8>)
        requires
            position + new_instructions@.len() <= old(self).instructions@.len(),
        ensures
            final(self).instructions@ == old(self).instructions@.subrange(0, position as int) + new_instructions@
                + old(self).instructions@.subrange(position + new_instructions@.len(), old(self).instructions@.len() as int),
            final(self).constants@ == old(self).constants@,
            final(self).last_instruction == old(self).last_instruction,
            final(self).previous_instruction == old(self).previous_instruction,
    {
        let ghost before = self.instructions@;
        let total = self.instructions.len();
        let mut i: usize = 0;
        while i < new_instructions.len()
            invariant
                i <= new_instructions@.len(),
                before.len() == total,
                position + new_instructions@.len() <= before.len(),
                self.instructions@ == before.subrange(0, position as int) + new_instructions@.subrange(0, i as int)
                    + before.subrange(position + i, before.len() as int),
                self.instructions@.len() == before.len(),
                self.constants@ == old(self).constants@,
                self.last_instruction == old(self).last_instruction,
                self.previous_instruction == old(self).previous_instruction,
            decreases new_instructions@.len() - i,
        {
            self.instructions.set(position + i, new_instructions[i]);
            assert(self.instructions@ =~= before.subrange(0, position as int) + new_instructions@.subrange(0, i + 1)
                + before.subrange(position + i + 1, before.len() as int));
            i += 1;
        }
        assert(new_instructions@.subrange(0, new_instructions@.len() as int) =~= new_instructions@);
    }

    fn change_operand(&mut self, op_pos: usize, operand: usize)
        ensures
            final(self)@ == c_change_operand(old(self)@, op_pos as nat, operand as nat),
    {
        if op_pos >= self.instructions.len() {
            return;
        }
        match Opcode::from_byte(self.instructions[op_pos]) {
            Some(op) => {
                let ops = one_op(operand as u16);
                let new = op.make(ops.as_slice());
                if new.len() <= self.instructions.len() - op_pos {
                    self.replace_instructions(op_pos, &new);
                }
            },
            None => {},
        }
    }

    /// The code and constants compiled so far.
    pub fn to_bytecode(&self) -> (r: Bytecode)
        ensures
            r.instructions@ == self@.code,
            Object::view_seq(r.constants@) == self@.consts,
    {
        Bytecode { instructions: self.instructions.clone(), constants: Object::copy_vec(&self.constants) }
    }
}

} // verus!
