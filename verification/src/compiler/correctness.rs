//! Running compiled code computes what evaluation computes: for expressions of
//! numbers, booleans, the prefix operators, the compiled infix operators and
//! `if`/`else` with one expression per branch, the machine leaves the value the
//! evaluator gives.
use vstd::prelude::*;
use crate::ast::literal::SLit;
use crate::ast::expression::{SExpr, Operator, Prefix};
use crate::ast::statement::SStmt;
use crate::eval::object::SObj;
use crate::eval::env::SEnv;
use crate::eval::semantics::{ev_expr, ev_block, ev_stmt, unwrap_ret, limit_text};
use crate::compiler::code::{Opcode, op_of_byte, op_byte, make_spec, law_make_read, law_opcode_byte, read_vals, op_widths, width_sum, lemma_make_code_ok, lemma_op_len};
use crate::compiler::compiler::{CState, compilable_stmts, compilable_op, infix_opcode, prefix_opcode, c_expr, c_stmts, c_emit, c_add_const, c_is_last_pop, c_remove_last_pop, c_change_operand, lemma_patch, lemma_expr_extends, compilable_expr};
use crate::compiler::vm::{VState, v_arith, v_run, v_exec, v_read, v_binary, v_unary, v_pop, MAX_STACK_SIZE, VM_FUEL, VmError};

verus! {

/// Number and boolean literals combined by the prefix operators, the infix
/// operators the compiler handles, and `if` with an `else`, each branch one
/// expression statement.
pub open spec fn straight(e: SExpr) -> bool
    decreases e,
{
    match e {
        SExpr::Infix(op, l, r) => compilable_op(op) && straight(*l) && straight(*r),
        SExpr::Prefix(p, x) => straight(*x),
        SExpr::If { condition, consequence, alternative } => {
            &&& straight(*condition)
            &&& consequence.len() == 1
            &&& (consequence[0] matches SStmt::Expression(a) && straight(a))
            &&& (alternative matches Some(alt) && alt.len() == 1
                && (alt[0] matches SStmt::Expression(b) && straight(b)))
        },
        SExpr::Literal(l) => l is Number || l is Boolean,
        _ => false,
    }
}

/// What a binary opcode makes of its left and right operands on the machine.
pub open spec fn vm_binop(code: Opcode, left: SObj, right: SObj) -> Option<SObj> {
    if code == Opcode::OpEqual {
        Some(SObj::Boolean(left == right))
    } else if code == Opcode::OpNotEqual {
        Some(SObj::Boolean(left != right))
    } else {
        match (left, right) {
            (SObj::Number(a), SObj::Number(b)) => {
                if code == Opcode::OpGreaterThan {
                    Some(SObj::Boolean(a > b))
                } else {
                    match v_arith(code, a, b) {
                        Some(v) => Some(SObj::Number(v)),
                        None => None,
                    }
                }
            },
            _ => None,
        }
    }
}

/// What a prefix opcode makes of its operand on the machine.
pub open spec fn vm_unop(p: Prefix, v: SObj) -> Option<SObj> {
    match (p, v) {
        (Prefix::Bang, SObj::Boolean(b)) => Some(SObj::Boolean(!b)),
        (Prefix::Bang, SObj::Nil) => Some(SObj::Boolean(true)),
        (Prefix::Minus, SObj::Number(n)) => match 0i64.checked_sub(n) {
            Some(m) => Some(SObj::Number(m)),
            None => None,
        },
        _ => None,
    }
}

/// The value the machine computes for an expression, if no operation fails.
pub open spec fn vm_value(e: SExpr) -> Option<SObj>
    decreases e,
{
    match e {
        SExpr::Literal(SLit::Number(n)) => Some(SObj::Number(n)),
        SExpr::Literal(SLit::Boolean(b)) => Some(SObj::Boolean(b)),
        SExpr::Infix(op, l, r) => match (vm_value(*l), vm_value(*r)) {
            (Some(a), Some(b)) => if op == Operator::LessThan {
                vm_binop(Opcode::OpGreaterThan, b, a)
            } else {
                vm_binop(infix_opcode(op), a, b)
            },
            _ => None,
        },
        SExpr::Prefix(p, x) => match vm_value(*x) {
            Some(v) => vm_unop(p, v),
            None => None,
        },
        SExpr::If { condition, consequence, alternative } => match vm_value(*condition) {
            Some(SObj::Boolean(true)) => if consequence.len() == 1 {
                match consequence[0] {
                    SStmt::Expression(a) => vm_value(a),
                    _ => None,
                }
            } else {
                None
            },
            Some(SObj::Boolean(false)) => match alternative {
                Some(alt) => if alt.len() == 1 {
                    match alt[0] {
                        SStmt::Expression(b) => vm_value(b),
                        _ => None,
                    }
                } else {
                    None
                },
                None => None,
            },
            _ => None,
        },
        _ => None,
    }
}

/// A block of the one expression statement `a`: it gives what `a` gives with one
/// step less, or the error of a spent step limit.
proof fn lemma_branch_eval(b: Seq<SStmt>, a: SExpr, env: SEnv, fid: nat, names: Seq<Seq<char>>, g: nat)
    requires
        b.len() == 1,
        b[0] == SStmt::Expression(a),
        straight(a),
    ensures
        ev_block(b, 0, SObj::Nil, env, fid, names, g).1 == env,
        ev_block(b, 0, SObj::Nil, env, fid, names, g).0 is Error
            || (g >= 2 && ev_block(b, 0, SObj::Nil, env, fid, names, g).0 == ev_expr(a, env, fid, names, (g - 1) as nat).0),
        ev_block(b, 0, SObj::Nil, env, fid, names, g).0 is Number || ev_block(b, 0, SObj::Nil, env, fid, names, g).0 is Boolean
            || ev_block(b, 0, SObj::Nil, env, fid, names, g).0 is Error,
    decreases a, 2nat,
{
    if g > 0 {
        let h = (g - 1) as nat;
        lemma_straight_values(a, env, fid, names, h);
        let (r, e1) = ev_stmt(b[0], env, fid, names, h);
        assert((r, e1) == ev_expr(a, env, fid, names, h));
        assert(!(r is Return));
        assert(ev_block(b, 1, r, e1, fid, names, h) == (if h == 0 { (SObj::Error(limit_text()), env) } else { (r, env) }));
    }
}

proof fn lemma_straight_values(e: SExpr, env: SEnv, fid: nat, names: Seq<Seq<char>>, f: nat)
    requires
        straight(e),
    ensures
        ev_expr(e, env, fid, names, f).1 == env,
        ev_expr(e, env, fid, names, f).0 is Number || ev_expr(e, env, fid, names, f).0 is Boolean
            || ev_expr(e, env, fid, names, f).0 is Error,
    decreases e, 1nat,
{
    if f > 0 {
        let g = (f - 1) as nat;
        match e {
            SExpr::Infix(op, l, r) => {
                lemma_straight_values(*l, env, fid, names, g);
                lemma_straight_values(*r, env, fid, names, g);
            },
            SExpr::Prefix(p, x) => lemma_straight_values(*x, env, fid, names, g),
            SExpr::If { condition, consequence, alternative } => {
                lemma_straight_values(*condition, env, fid, names, g);
                let alt = alternative->0;
                if let SStmt::Expression(a) = consequence[0] {
                    assert(decreases_to!(e => consequence));
                    assert(decreases_to!(consequence => consequence[0]));
                    lemma_branch_eval(consequence, a, env, fid, names, g);
                }
                if let SStmt::Expression(b) = alt[0] {
                    assert(decreases_to!(e => alternative));
                    assert(decreases_to!(alternative => alt));
                    assert(decreases_to!(alt => alt[0]));
                    lemma_branch_eval(alt, b, env, fid, names, g);
                }
            },
            _ => {},
        }
    }
}

/// Where evaluation of an expression of numbers, booleans, the prefix operators,
/// the compiled infix operators and `if`/`else` with one expression per branch
/// gives a value and not an error, the machine computes that value.
pub proof fn law_vm_agrees_with_eval(e: SExpr, env: SEnv, fid: nat, names: Seq<Seq<char>>, f: nat)
    requires
        straight(e),
        !(ev_expr(e, env, fid, names, f).0 is Error),
    ensures
        vm_value(e) == Some(ev_expr(e, env, fid, names, f).0),
    decreases e,
{
    lemma_straight_values(e, env, fid, names, f);
    if let SExpr::Infix(op, l, r) = e {
        let g = (f - 1) as nat;
        let (a, e1) = ev_expr(*l, env, fid, names, g);
        let (b, e2) = ev_expr(*r, e1, fid, names, g);
        lemma_straight_values(*l, env, fid, names, g);
        lemma_straight_values(*r, e1, fid, names, g);
        assert(unwrap_ret(a) == a);
        assert(unwrap_ret(b) == b);
        if !(a is Error) {
            law_vm_agrees_with_eval(*l, env, fid, names, g);
        }
        if !(b is Error) {
            law_vm_agrees_with_eval(*r, e1, fid, names, g);
        }
        assert(!(a is Error) && !(b is Error));
    }
    if let SExpr::Prefix(p, x) = e {
        let g = (f - 1) as nat;
        let (a, e1) = ev_expr(*x, env, fid, names, g);
        lemma_straight_values(*x, env, fid, names, g);
        assert(!(a is Error));
        law_vm_agrees_with_eval(*x, env, fid, names, g);
    }
    if let SExpr::If { condition, consequence, alternative } = e {
        let g = (f - 1) as nat;
        let (v, e1) = ev_expr(*condition, env, fid, names, g);
        lemma_straight_values(*condition, env, fid, names, g);
        assert(v is Boolean);
        law_vm_agrees_with_eval(*condition, env, fid, names, g);
        let alt = alternative->0;
        if v == SObj::Boolean(true) {
            if let SStmt::Expression(a) = consequence[0] {
                assert(decreases_to!(e => consequence));
                assert(decreases_to!(consequence => consequence[0]));
                lemma_branch_eval(consequence, a, env, fid, names, g);
                law_vm_agrees_with_eval(a, env, fid, names, (g - 1) as nat);
            }
        } else {
            if let SStmt::Expression(b) = alt[0] {
                assert(decreases_to!(e => alternative));
                assert(decreases_to!(alternative => alt));
                assert(decreases_to!(alt => alt[0]));
                lemma_branch_eval(alt, b, env, fid, names, g);
                law_vm_agrees_with_eval(b, env, fid, names, (g - 1) as nat);
            }
        }
    }
}

/// How many instructions the code of an expression executes.
pub open spec fn steps(e: SExpr) -> nat
    decreases e,
{
    match e {
        SExpr::Infix(op, l, r) => steps(*l) + steps(*r) + 1,
        SExpr::Prefix(p, x) => steps(*x) + 1,
        SExpr::If { condition, consequence, alternative } => {
            let branch: nat = if vm_value(*condition) == Some(SObj::Boolean(true)) {
                if consequence.len() == 1 {
                    match consequence[0] {
                        SStmt::Expression(a) => steps(a) + 1,
                        _ => 0,
                    }
                } else {
                    0
                }
            } else {
                match alternative {
                    Some(alt) => if alt.len() == 1 {
                        match alt[0] {
                            SStmt::Expression(b) => steps(b),
                            _ => 0,
                        }
                    } else {
                        0
                    },
                    None => 0,
                }
            };
            steps(*condition) + 1 + branch
        },
        _ => 1,
    }
}

/// The two operands of an infix expression in the order their code runs.
pub open spec fn operand_order(op: Operator, l: SExpr, r: SExpr) -> (SExpr, SExpr) {
    if op == Operator::LessThan { (r, l) } else { (l, r) }
}

/// How many stack slots evaluating an expression needs.
pub open spec fn height(e: SExpr) -> nat
    decreases e,
{
    match e {
        SExpr::Infix(op, l, r) => {
            let (a, b) = operand_order(op, *l, *r);
            let ha = height(a);
            let hb = height(b) + 1;
            if ha >= hb { ha } else { hb }
        },
        SExpr::Prefix(p, x) => height(*x),
        SExpr::If { condition, consequence, alternative } => {
            let ha: nat = if consequence.len() == 1 {
                match consequence[0] {
                    SStmt::Expression(a) => height(a),
                    _ => 0,
                }
            } else {
                0
            };
            let hb: nat = match alternative {
                Some(alt) => if alt.len() == 1 {
                    match alt[0] {
                        SStmt::Expression(b) => height(b),
                        _ => 0,
                    }
                } else {
                    0
                },
                None => 0,
            };
            let hc = height(*condition);
            let hab = if ha >= hb { ha } else { hb };
            if hc >= hab { hc } else { hab }
        },
        _ => 1,
    }
}

proof fn lemma_height_pos(e: SExpr)
    ensures
        height(e) >= 1,
    decreases e,
{
    match e {
        SExpr::Prefix(p, x) => lemma_height_pos(*x),
        SExpr::If { condition, .. } => lemma_height_pos(*condition),
        _ => {},
    }
}

/// Whether an expression holds an `if`, whose code holds jumps.
pub open spec fn has_if(e: SExpr) -> bool
    decreases e,
{
    match e {
        SExpr::Infix(op, l, r) => has_if(*l) || has_if(*r),
        SExpr::Prefix(p, x) => has_if(*x),
        SExpr::If { .. } => true,
        _ => false,
    }
}

/// The last popped value after the code of an expression runs.
pub open spec fn last_after(e: SExpr, last: Option<SObj>) -> Option<SObj>
    decreases e,
{
    match e {
        SExpr::Infix(op, l, r) => vm_value(operand_order(op, *l, *r).0),
        SExpr::Prefix(p, x) => vm_value(*x),
        SExpr::If { condition, consequence, alternative } => {
            let c = vm_value(*condition);
            if c == Some(SObj::Boolean(true)) {
                if consequence.len() == 1 {
                    match consequence[0] {
                        SStmt::Expression(a) => last_after(a, c),
                        _ => last,
                    }
                } else {
                    last
                }
            } else {
                match alternative {
                    Some(alt) => if alt.len() == 1 {
                        match alt[0] {
                            SStmt::Expression(b) => last_after(b, c),
                            _ => last,
                        }
                    } else {
                        last
                    },
                    None => last,
                }
            }
        },
        _ => last,
    }
}

proof fn lemma_straight_compilable(e: SExpr)
    requires
        straight(e),
    ensures
        compilable_expr(e),
    decreases e,
{
    match e {
        SExpr::Infix(op, l, r) => {
            lemma_straight_compilable(*l);
            lemma_straight_compilable(*r);
        },
        SExpr::Prefix(p, x) => lemma_straight_compilable(*x),
        SExpr::If { condition, consequence, alternative } => {
            lemma_straight_compilable(*condition);
            let alt = alternative->0;
            if let SStmt::Expression(a) = consequence[0] {
                assert(decreases_to!(e => consequence));
                assert(decreases_to!(consequence => consequence[0]));
                lemma_straight_compilable(a);
                assert(consequence.drop_last() =~= Seq::<SStmt>::empty());
                assert(compilable_stmts(consequence.drop_last()));
                assert(consequence.last() == consequence[0]);
                assert(compilable_stmts(consequence));
            }
            if let SStmt::Expression(b) = alt[0] {
                assert(decreases_to!(e => alternative));
                assert(decreases_to!(alternative => alt));
                assert(decreases_to!(alt => alt[0]));
                lemma_straight_compilable(b);
                assert(alt.drop_last() =~= Seq::<SStmt>::empty());
                assert(compilable_stmts(alt.drop_last()));
                assert(alt.last() == alt[0]);
                assert(compilable_stmts(alt));
            }
            assert(compilable_stmts(consequence));
            assert(compilable_expr(*condition));
        },
        _ => {},
    }
}

/// Compiling only adds constants.
proof fn lemma_consts_grow(cs: CState, e: SExpr)
    requires
        straight(e),
    ensures
        c_expr(cs, e).consts.len() >= cs.consts.len(),
        c_expr(cs, e).consts.subrange(0, cs.consts.len() as int) == cs.consts,
    decreases e,
{
    match e {
        SExpr::Infix(op, l, r) => {
            let (a, b) = operand_order(op, *l, *r);
            lemma_consts_grow(cs, a);
            let c1 = c_expr(cs, a);
            lemma_consts_grow(c1, b);
            let c2 = c_expr(c1, b);
            assert(c2.consts.subrange(0, cs.consts.len() as int) =~= c1.consts.subrange(0, cs.consts.len() as int));
        },
        SExpr::Prefix(p, x) => {
            lemma_consts_grow(cs, *x);
        },
        SExpr::If { condition, consequence, alternative } => {
            lemma_if_layout(cs, e);
            let (s1, ca, s6, cb) = if_states(cs, e);
            let s2 = c_emit(s1, Opcode::OpJumpNotTruthy, seq![9999u16]).0;
            let alt = alternative->0;
            lemma_consts_grow(cs, *condition);
            if let SStmt::Expression(a) = consequence[0] {
                assert(decreases_to!(e => consequence));
                assert(decreases_to!(consequence => consequence[0]));
                lemma_consts_grow(s2, a);
            }
            if let SStmt::Expression(b) = alt[0] {
                assert(decreases_to!(e => alternative));
                assert(decreases_to!(alternative => alt));
                assert(decreases_to!(alt => alt[0]));
                lemma_consts_grow(s6, b);
            }
            let n = cs.consts.len() as int;
            assert(cb.consts.subrange(0, n) =~= ca.consts.subrange(0, n)) by {
                assert(cb.consts.subrange(0, ca.consts.len() as int).subrange(0, n) =~= cb.consts.subrange(0, n));
            }
            assert(ca.consts.subrange(0, n) =~= s1.consts.subrange(0, n)) by {
                assert(ca.consts.subrange(0, s1.consts.len() as int).subrange(0, n) =~= ca.consts.subrange(0, n));
            }
        },
        _ => {
            assert(c_expr(cs, e).consts.subrange(0, cs.consts.len() as int) =~= cs.consts);
        },
    }
}

/// The expression of a block of one expression statement.
pub open spec fn block_expr(b: Seq<SStmt>) -> SExpr {
    match b[0] {
        SStmt::Expression(a) => a,
        _ => SExpr::Error(Seq::empty()),
    }
}

/// The compiler's states while it compiles `if (c) { a } else { b }` from `s`:
/// after the condition, after the consequence, after the patched jump over it,
/// after the alternative.
pub open spec fn if_states(s: CState, e: SExpr) -> (CState, CState, CState, CState) {
    let s1 = c_expr(s, *e->If_condition);
    let s2 = c_emit(s1, Opcode::OpJumpNotTruthy, seq![9999u16]).0;
    let ca = c_expr(s2, block_expr(e->If_consequence));
    let s5 = c_emit(ca, Opcode::OpJump, seq![9999u16]).0;
    let s6 = c_change_operand(s5, s1.code.len(), s5.code.len());
    let cb = c_expr(s6, block_expr(e->If_alternative->0));
    (s1, ca, s6, cb)
}

/// A jump is three bytes: its opcode and its target, most significant byte first.
proof fn lemma_jump_bytes(op: Opcode, x: u16)
    requires
        op == Opcode::OpJump || op == Opcode::OpJumpNotTruthy,
    ensures
        make_spec(op, seq![x]).len() == 3,
        make_spec(op, seq![x])[0] == op_byte(op),
        v_read(make_spec(op, seq![x]), 1) == Some(x),
{
    law_make_read(op, seq![x]);
    lemma_make_code_ok(op, seq![x]);
    lemma_op_len(op);
    assert(width_sum(op_widths(op), 0) == 0);
    assert(read_vals(op_widths(op), make_spec(op, seq![x]), 1, 0)[0] == x);
}

/// The code of `if (c) { a } else { b }`: the condition, a jump past the
/// consequence when it is not `true`, the consequence, a jump past the
/// alternative, the alternative.
#[verifier::rlimit(80)]
proof fn lemma_if_layout(s: CState, e: SExpr)
    requires
        straight(e),
        e is If,
    ensures
        ({
            let (s1, ca, s6, cb) = if_states(s, e);
            let ce = c_expr(s, e);
            &&& s1 == c_expr(s, *e->If_condition)
            &&& ca == c_expr(c_emit(s1, Opcode::OpJumpNotTruthy, seq![9999u16]).0, block_expr(e->If_consequence))
            &&& cb == c_expr(s6, block_expr(e->If_alternative->0))
            &&& c_emit(s1, Opcode::OpJumpNotTruthy, seq![9999u16]).0.consts == s1.consts
            &&& c_emit(s1, Opcode::OpJumpNotTruthy, seq![9999u16]).0.code.len() == s1.code.len() + 3
            &&& s6.consts == ca.consts
            &&& s6.code.len() == ca.code.len() + 3
            &&& ce.consts == cb.consts
            &&& ce.code == s1.code + make_spec(Opcode::OpJumpNotTruthy, seq![(ca.code.len() + 3) as u16])
                    + ca.code.subrange(s1.code.len() + 3int, ca.code.len() as int)
                    + make_spec(Opcode::OpJump, seq![cb.code.len() as u16])
                    + cb.code.subrange(ca.code.len() + 3int, cb.code.len() as int)
            &&& s.code.len() <= s1.code.len()
            &&& s1.code.len() + 3 <= ca.code.len()
            &&& ca.code.len() + 3 <= cb.code.len()
        }),
{
    lemma_straight_compilable(e);
    if let SExpr::If { condition, consequence, alternative } = e {
        let alt = alternative->0;
        let a = block_expr(consequence);
        let b = block_expr(alt);
        assert(consequence[0] == SStmt::Expression(a));
        assert(alt[0] == SStmt::Expression(b));
        lemma_straight_compilable(a);
        lemma_straight_compilable(b);
        let j1 = make_spec(Opcode::OpJumpNotTruthy, seq![9999u16]);
        let j2 = make_spec(Opcode::OpJump, seq![9999u16]);
        lemma_jump_bytes(Opcode::OpJumpNotTruthy, 9999u16);
        lemma_jump_bytes(Opcode::OpJump, 9999u16);
        lemma_make_code_ok(Opcode::OpPop, Seq::empty());
        lemma_op_len(Opcode::OpPop);
        lemma_expr_extends(s, *condition);
        let s1 = c_expr(s, *condition);
        let (s2, jnt) = c_emit(s1, Opcode::OpJumpNotTruthy, seq![9999u16]);
        lemma_expr_extends(s2, a);
        let ca = c_expr(s2, a);
        reveal_with_fuel(c_stmts, 2);
        let s3 = c_stmts(s2, consequence, 0);
        assert(s3 == c_emit(ca, Opcode::OpPop, Seq::empty()).0);
        assert(c_is_last_pop(s3));
        let s4 = c_remove_last_pop(s3);
        assert(s4.code =~= ca.code);
        let (s5, jmp) = c_emit(s4, Opcode::OpJump, seq![9999u16]);
        let xa = ca.code.subrange(s2.code.len() as int, ca.code.len() as int);
        assert(ca.code =~= s2.code + xa);
        assert(s5.code =~= s1.code + j1 + (xa + j2));
        lemma_patch(s5, s1.code, Opcode::OpJumpNotTruthy, seq![9999u16], xa + j2, s5.code.len());
        let n1 = make_spec(Opcode::OpJumpNotTruthy, seq![(s5.code.len()) as u16]);
        lemma_jump_bytes(Opcode::OpJumpNotTruthy, (s5.code.len()) as u16);
        let s6 = c_change_operand(s5, jnt, s5.code.len());
        assert(s6.code =~= s1.code + n1 + xa + j2);
        lemma_expr_extends(s6, b);
        let cb = c_expr(s6, b);
        let s7 = c_stmts(s6, alt, 0);
        assert(s7 == c_emit(cb, Opcode::OpPop, Seq::empty()).0);
        let s8 = c_remove_last_pop(s7);
        assert(s8.code =~= cb.code);
        let xb = cb.code.subrange(s6.code.len() as int, cb.code.len() as int);
        let pre = s1.code + n1 + xa;
        assert(cb.code =~= s6.code + xb);
        assert(s8.code =~= pre + j2 + xb);
        assert(jmp == pre.len());
        lemma_patch(s8, pre, Opcode::OpJump, seq![9999u16], xb, s8.code.len());
        assert(xa =~= ca.code.subrange(s1.code.len() + 3int, ca.code.len() as int));
        assert(xb =~= cb.code.subrange(ca.code.len() + 3int, cb.code.len() as int));
        assert(if_states(s, e) == (s1, ca, s6, cb));
    }
}

/// The code of `e`, compiled from state `cs`, lies in the machine's code where the
/// compiler put it, and the constants it refers to are the machine's.
pub open spec fn placed(e: SExpr, cs: CState, vs: VState) -> bool {
    let ce = c_expr(cs, e);
    &&& cs.code.len() <= ce.code.len() <= vs.code.len()
    &&& vs.code.subrange(cs.code.len() as int, ce.code.len() as int)
            == ce.code.subrange(cs.code.len() as int, ce.code.len() as int)
    &&& ce.consts.len() <= 65536
    &&& (has_if(e) ==> ce.code.len() <= 65535)
    &&& ce.consts.len() <= vs.consts.len()
    &&& forall|i: int| cs.consts.len() <= i < ce.consts.len() ==> vs.consts[i] == ce.consts[i]
}

/// The machine state after the code of `e` ran: its value pushed.
pub open spec fn after(e: SExpr, vs: VState) -> VState {
    VState { stack: vs.stack.push(vm_value(e)->0), last: last_after(e, vs.last), ..vs }
}

/// The machine runs the code of an expression, found in its code at the place
/// the compiler put it, and leaves the expression's value on the stack.
proof fn lemma_run_expr(e: SExpr, cs: CState, vs: VState, fuel: nat)
    requires
        straight(e),
        vm_value(e) is Some,
        placed(e, cs, vs),
        vs.stack.len() + height(e) <= MAX_STACK_SIZE,
        fuel >= steps(e),
    ensures
        v_run(vs, cs.code.len(), fuel) == v_run(after(e, vs), c_expr(cs, e).code.len(), (fuel - steps(e)) as nat),
    decreases e, 1nat,
{
    match e {
        SExpr::Literal(SLit::Number(n)) => lemma_run_number(e, cs, vs, fuel),
        SExpr::Literal(SLit::Boolean(b)) => lemma_run_boolean(e, cs, vs, fuel),
        SExpr::Infix(op, l, r) => lemma_run_infix(e, cs, vs, fuel),
        SExpr::Prefix(p, x) => lemma_run_prefix(e, cs, vs, fuel),
        SExpr::If { .. } => lemma_run_if(e, cs, vs, fuel),
        _ => {},
    }
}

proof fn lemma_run_number(e: SExpr, cs: CState, vs: VState, fuel: nat)
    requires
        e matches SExpr::Literal(SLit::Number(_)),
        straight(e),
        vm_value(e) is Some,
        placed(e, cs, vs),
        vs.stack.len() + height(e) <= MAX_STACK_SIZE,
        fuel >= steps(e),
    ensures
        v_run(vs, cs.code.len(), fuel) == v_run(after(e, vs), c_expr(cs, e).code.len(), (fuel - steps(e)) as nat),
    decreases e, 0nat,
{
    let p = cs.code.len();
    lemma_straight_compilable(e);
    lemma_expr_extends(cs, e);
    let ce = c_expr(cs, e);
    if let SExpr::Literal(SLit::Number(n)) = e {
        let (c1, pos) = c_add_const(cs, n);
        let mk = make_spec(Opcode::Constant, seq![pos as u16]);
        law_make_read(Opcode::Constant, seq![pos as u16]);
        law_opcode_byte(Opcode::Constant);
        assert(ce.code =~= cs.code + mk);
        assert(mk.len() == 3) by {
            assert(width_sum(op_widths(Opcode::Constant), 0) == 0);
            assert(width_sum(op_widths(Opcode::Constant), 1) == 2);
        }
        let vsub = vs.code.subrange(p as int, ce.code.len() as int);
        let csub = ce.code.subrange(p as int, ce.code.len() as int);
        assert(csub =~= mk);
        assert(vs.code[p as int] == vsub[0]);
        assert(vs.code[p + 1 as int] == vsub[1]);
        assert(vs.code[p + 2 as int] == vsub[2]);
        assert(vs.code[p as int] == mk[0]);
        assert(vs.code[p + 1 as int] == mk[1]);
        assert(vs.code[p + 2 as int] == mk[2]);
        assert(read_vals(op_widths(Opcode::Constant), mk, 1, 0)[0] == pos as u16);
        assert(width_sum(op_widths(Opcode::Constant), 0) == 0);
        assert(v_read(vs.code, p + 1) == Some(pos as u16));
        assert((pos as u16) as nat == pos);
        assert(vs.consts[pos as int] == SObj::Number(n));
        assert(op_of_byte(vs.code[p as int]) == Some(Opcode::Constant));
        let (s1, r1) = v_exec(vs, Opcode::Constant, p + 1);
        assert(r1 == Ok::<nat, VmError>(p + 3));
        assert(s1 == after(e, vs));
        assert(ce.code.len() == p + 3);
        assert(v_run(vs, p, fuel) == v_run(s1, p + 3, (fuel - 1) as nat));
    }
}

proof fn lemma_run_boolean(e: SExpr, cs: CState, vs: VState, fuel: nat)
    requires
        e matches SExpr::Literal(SLit::Boolean(_)),
        straight(e),
        vm_value(e) is Some,
        placed(e, cs, vs),
        vs.stack.len() + height(e) <= MAX_STACK_SIZE,
        fuel >= steps(e),
    ensures
        v_run(vs, cs.code.len(), fuel) == v_run(after(e, vs), c_expr(cs, e).code.len(), (fuel - steps(e)) as nat),
    decreases e, 0nat,
{
    let p = cs.code.len();
    lemma_straight_compilable(e);
    lemma_expr_extends(cs, e);
    let ce = c_expr(cs, e);
    if let SExpr::Literal(SLit::Boolean(b)) = e {
        let code = if b { Opcode::OpTrue } else { Opcode::OpFalse };
        let mk = make_spec(code, Seq::empty());
        law_make_read(code, Seq::empty());
        law_opcode_byte(code);
        assert(ce.code =~= cs.code + mk);
        assert(vs.code[p as int] == mk[0]);
        assert(width_sum(op_widths(code), 0) == 0);
    
    }
}

#[verifier::rlimit(60)]
proof fn lemma_run_infix(e: SExpr, cs: CState, vs: VState, fuel: nat)
    requires
        e is Infix,
        straight(e),
        vm_value(e) is Some,
        placed(e, cs, vs),
        vs.stack.len() + height(e) <= MAX_STACK_SIZE,
        fuel >= steps(e),
    ensures
        v_run(vs, cs.code.len(), fuel) == v_run(after(e, vs), c_expr(cs, e).code.len(), (fuel - steps(e)) as nat),
    decreases e, 0nat,
{
    let p = cs.code.len();
    lemma_straight_compilable(e);
    lemma_expr_extends(cs, e);
    let ce = c_expr(cs, e);
    if let SExpr::Infix(op, l, r) = e {
        let (a, b) = operand_order(op, *l, *r);
        let code = if op == Operator::LessThan { Opcode::OpGreaterThan } else { infix_opcode(op) };
        let c1 = c_expr(cs, a);
        let c2 = c_expr(c1, b);
        lemma_straight_compilable(a);
        lemma_straight_compilable(b);
        lemma_expr_extends(cs, a);
        lemma_expr_extends(c1, b);
        lemma_consts_grow(cs, a);
        lemma_consts_grow(c1, b);
        let mk = make_spec(code, Seq::empty());
        law_make_read(code, Seq::empty());
        law_opcode_byte(code);
        assert(width_sum(op_widths(code), 0) == 0);
        assert(ce.code =~= c2.code + mk);
        assert(c2.code.subrange(0, c1.code.len() as int) == c1.code);
        assert(c1.code.subrange(0, p as int) == cs.code);
        let va = vm_value(a)->0;
        let vb = vm_value(b)->0;
        // The code of `a` lies where the compiler put it.
        assert(vs.code.subrange(p as int, c1.code.len() as int) =~= c1.code.subrange(p as int, c1.code.len() as int)) by {
            assert(vs.code.subrange(p as int, c1.code.len() as int)
                =~= vs.code.subrange(p as int, ce.code.len() as int).subrange(0, c1.code.len() - p));
            assert(c1.code.subrange(p as int, c1.code.len() as int)
                =~= ce.code.subrange(p as int, ce.code.len() as int).subrange(0, c1.code.len() - p));
        }
        assert forall|i: int| cs.consts.len() <= i < c1.consts.len() implies vs.consts[i] == c1.consts[i] by {
            assert(c2.consts.subrange(0, c1.consts.len() as int)[i] == c2.consts[i]);
        }
        lemma_run_expr(a, cs, vs, fuel);
        let vs1 = VState { stack: vs.stack.push(va), last: last_after(a, vs.last), ..vs };
        let f1 = (fuel - steps(a)) as nat;
        assert(vs1.code.subrange(c1.code.len() as int, c2.code.len() as int) =~= c2.code.subrange(c1.code.len() as int, c2.code.len() as int)) by {
            assert(vs.code.subrange(c1.code.len() as int, c2.code.len() as int)
                =~= vs.code.subrange(p as int, ce.code.len() as int).subrange(c1.code.len() - p, c2.code.len() - p));
            assert(c2.code.subrange(c1.code.len() as int, c2.code.len() as int)
                =~= ce.code.subrange(p as int, ce.code.len() as int).subrange(c1.code.len() - p, c2.code.len() - p));
        }
        lemma_run_expr(b, c1, vs1, f1);
        let vs2 = VState { stack: vs1.stack.push(vb), last: last_after(b, vs1.last), ..vs1 };
        let f2 = (f1 - steps(b)) as nat;
        let q = c2.code.len();
        assert(vs.code[q as int] == mk[0]) by {
            assert(vs.code[q as int] == vs.code.subrange(p as int, ce.code.len() as int)[q - p]);
            assert(ce.code[q as int] == ce.code.subrange(p as int, ce.code.len() as int)[q - p]);
        }
        assert(op_of_byte(vs2.code[q as int]) == Some(code));
        let (s1, r1) = v_pop(vs2);
        assert(s1.stack =~= vs.stack.push(va));
        let (s2, r2) = v_pop(s1);
        assert(s2.stack =~= vs.stack);
        assert(v_binary(vs2, code).0 == VState { stack: vs.stack.push(vm_value(e)->0), last: Some(va), ..vs });
    
    }
}

#[verifier::rlimit(40)]
proof fn lemma_run_prefix(e: SExpr, cs: CState, vs: VState, fuel: nat)
    requires
        e is Prefix,
        straight(e),
        vm_value(e) is Some,
        placed(e, cs, vs),
        vs.stack.len() + height(e) <= MAX_STACK_SIZE,
        fuel >= steps(e),
    ensures
        v_run(vs, cs.code.len(), fuel) == v_run(after(e, vs), c_expr(cs, e).code.len(), (fuel - steps(e)) as nat),
    decreases e, 0nat,
{
    let p = cs.code.len();
    lemma_straight_compilable(e);
    lemma_expr_extends(cs, e);
    let ce = c_expr(cs, e);
    if let SExpr::Prefix(pre, x) = e {
        let code = prefix_opcode(pre);
        let c1 = c_expr(cs, *x);
        lemma_straight_compilable(*x);
        lemma_expr_extends(cs, *x);
        lemma_consts_grow(cs, *x);
        let mk = make_spec(code, Seq::empty());
        law_make_read(code, Seq::empty());
        law_opcode_byte(code);
        assert(width_sum(op_widths(code), 0) == 0);
        assert(ce.code =~= c1.code + mk);
        assert(c1.code.subrange(0, p as int) == cs.code);
        let va = vm_value(*x)->0;
        assert(vs.code.subrange(p as int, c1.code.len() as int) =~= c1.code.subrange(p as int, c1.code.len() as int)) by {
            assert(vs.code.subrange(p as int, c1.code.len() as int)
                =~= vs.code.subrange(p as int, ce.code.len() as int).subrange(0, c1.code.len() - p));
            assert(c1.code.subrange(p as int, c1.code.len() as int)
                =~= ce.code.subrange(p as int, ce.code.len() as int).subrange(0, c1.code.len() - p));
        }
        lemma_run_expr(*x, cs, vs, fuel);
        let vs1 = VState { stack: vs.stack.push(va), last: last_after(*x, vs.last), ..vs };
        let q = c1.code.len();
        assert(vs.code[q as int] == mk[0]) by {
            assert(vs.code[q as int] == vs.code.subrange(p as int, ce.code.len() as int)[q - p]);
            assert(ce.code[q as int] == ce.code.subrange(p as int, ce.code.len() as int)[q - p]);
        }
        assert(op_of_byte(vs1.code[q as int]) == Some(code));
        let (s1, r1) = v_pop(vs1);
        assert(s1.stack =~= vs.stack);
        assert(s1 == VState { last: Some(va), ..vs });
        lemma_height_pos(*x);
        assert(vs.stack.len() < MAX_STACK_SIZE);
        match pre {
            Prefix::Bang => assert(code == Opcode::OpBang),
            Prefix::Minus => assert(code == Opcode::OpMinus),
        }
        assert(v_unary(vs1, code).0 == VState { stack: vs.stack.push(vm_value(e)->0), last: Some(va), ..vs });
    }
}

/// The machine runs the code of `if (c) { a } else { b }`: the condition, the
/// jump that pops it, then the branch it picks and, after the consequence, the
/// jump past the alternative.
#[verifier::rlimit(100)]
proof fn lemma_run_if(e: SExpr, cs: CState, vs: VState, fuel: nat)
    requires
        e is If,
        straight(e),
        vm_value(e) is Some,
        placed(e, cs, vs),
        vs.stack.len() + height(e) <= MAX_STACK_SIZE,
        fuel >= steps(e),
    ensures
        v_run(vs, cs.code.len(), fuel) == v_run(after(e, vs), c_expr(cs, e).code.len(), (fuel - steps(e)) as nat),
    decreases e, 0nat,
{
    lemma_if_layout(cs, e);
    lemma_consts_grow(cs, e);
    let (s1, ca, s6, cb) = if_states(cs, e);
    let s2 = c_emit(s1, Opcode::OpJumpNotTruthy, seq![9999u16]).0;
    let ce = c_expr(cs, e);
    let p = cs.code.len();
    let a0 = block_expr(e->If_consequence);
    let b0 = block_expr(e->If_alternative->0);
    assert(e->If_consequence[0] == SStmt::Expression(a0));
    assert(e->If_alternative->0[0] == SStmt::Expression(b0));
    lemma_consts_grow(cs, *e->If_condition);
    lemma_consts_grow(s2, a0);
    lemma_consts_grow(s6, b0);
    let q = s1.code.len();
    let t1 = ca.code.len() + 3;
    let t2 = cb.code.len();
    let n1 = make_spec(Opcode::OpJumpNotTruthy, seq![t1 as u16]);
    let n2 = make_spec(Opcode::OpJump, seq![t2 as u16]);
    lemma_jump_bytes(Opcode::OpJumpNotTruthy, t1 as u16);
    lemma_jump_bytes(Opcode::OpJump, t2 as u16);
    law_opcode_byte(Opcode::OpJumpNotTruthy);
    law_opcode_byte(Opcode::OpJump);
    assert(ce.code.len() == t2);
    assert(t2 <= 65535);
    // Every byte of the expression's code is the machine's.
    assert forall|i: int| p <= i < t2 implies vs.code[i] == ce.code[i] by {
        assert(vs.code[i] == vs.code.subrange(p as int, t2 as int)[i - p]);
        assert(ce.code[i] == ce.code.subrange(p as int, t2 as int)[i - p]);
    }
    assert forall|i: int| p <= i < q implies ce.code[i] == s1.code[i] by {}
    assert forall|i: int| q + 3 <= i < ca.code.len() implies ce.code[i] == ca.code[i] by {}
    assert forall|i: int| ca.code.len() + 3 <= i < t2 implies ce.code[i] == cb.code[i] by {}
    assert(vs.code[q as int] == n1[0]);
    assert(vs.code[q + 1int] == n1[1]);
    assert(vs.code[q + 2int] == n1[2]);
    assert(v_read(vs.code, q + 1) == Some(t1 as u16));
    assert(vs.code[ca.code.len() as int] == n2[0]);
    assert(vs.code[ca.code.len() + 1int] == n2[1]);
    assert(vs.code[ca.code.len() + 2int] == n2[2]);
    assert(v_read(vs.code, ca.code.len() + 1) == Some(t2 as u16));
    // The constants of each part are the machine's.
    let n = cs.consts.len() as int;
    assert(ce.consts == cb.consts);
    assert forall|i: int| s1.consts.len() <= i < ca.consts.len() implies vs.consts[i] == ca.consts[i] by {
        assert(cb.consts.subrange(0, s6.consts.len() as int)[i] == cb.consts[i]);
    }
    assert forall|i: int| n <= i < s1.consts.len() implies vs.consts[i] == s1.consts[i] by {
        assert(cb.consts.subrange(0, s6.consts.len() as int)[i] == cb.consts[i]);
        assert(ca.consts.subrange(0, s2.consts.len() as int)[i] == ca.consts[i]);
    }
    if let SExpr::If { condition, consequence, alternative } = e {
        let alt = alternative->0;
        let c = *condition;
        assert(vs.code.subrange(p as int, q as int) =~= s1.code.subrange(p as int, q as int));
        lemma_run_expr(c, cs, vs, fuel);
        let vc = vm_value(c)->0;
        let vs1 = after(c, vs);
        let f1 = (fuel - steps(c)) as nat;
        lemma_height_pos(c);
        let vs2 = VState { last: Some(vc), ..vs };
        assert(v_pop(vs1) == (vs2, Ok::<SObj, VmError>(vc))) by {
            assert(vs1.stack.drop_last() =~= vs.stack);
        }
        assert(op_of_byte(vs1.code[q as int]) == Some(Opcode::OpJumpNotTruthy));
        let f2 = (f1 - 1) as nat;
        if vc == SObj::Boolean(true) {
            if let SStmt::Expression(a) = consequence[0] {
                assert(decreases_to!(e => consequence));
                assert(decreases_to!(consequence => consequence[0]));
                assert(v_run(vs1, q, f1) == v_run(vs2, q + 3, f2));
                assert(vs2.code.subrange(q + 3int, ca.code.len() as int) =~= ca.code.subrange(q + 3int, ca.code.len() as int));
                lemma_run_expr(a, s2, vs2, f2);
                let vs3 = after(a, vs2);
                let f3 = (f2 - steps(a)) as nat;
                assert(op_of_byte(vs3.code[ca.code.len() as int]) == Some(Opcode::OpJump));
                assert(v_run(vs3, ca.code.len(), f3) == v_run(vs3, t2, (f3 - 1) as nat));
                assert(vs3 == after(e, vs));
            }
        } else {
            if let SStmt::Expression(b) = alt[0] {
                assert(decreases_to!(e => alternative));
                assert(decreases_to!(alternative => alt));
                assert(decreases_to!(alt => alt[0]));
                assert(v_run(vs1, q, f1) == v_run(vs2, t1, f2));
                assert(vs2.code.subrange(t1 as int, t2 as int) =~= cb.code.subrange(t1 as int, t2 as int));
                lemma_run_expr(b, s6, vs2, f2);
                assert(after(b, vs2) == after(e, vs));
            }
        }
    }
}

/// A program of one expression statement whose machine value exists, compiled and
/// run, ends without error and leaves that value as the last one popped (when the
/// code holds jumps, their 16-bit targets must reach its end).
pub proof fn law_compiled_expression_runs(e: SExpr)
    requires
        straight(e),
        vm_value(e) is Some,
        height(e) <= MAX_STACK_SIZE,
        c_expr(CState { code: Seq::empty(), consts: Seq::empty(), last: None, prev: None }, e).consts.len() <= 65536,
        has_if(e) ==> c_expr(CState { code: Seq::empty(), consts: Seq::empty(), last: None, prev: None }, e).code.len() <= 65535,
        steps(e) + 1 <= VM_FUEL,
    ensures
        ({
            let cs = c_stmts(CState { code: Seq::empty(), consts: Seq::empty(), last: None, prev: None }, seq![SStmt::Expression(e)], 0);
            let run = v_run(VState { consts: cs.consts, code: cs.code, stack: Seq::empty(), last: None }, 0, VM_FUEL as nat);
            run.1 == Ok::<(), VmError>(()) && run.0.last == vm_value(e) && run.0.stack.len() == 0
        }),
{
    let empty = CState { code: Seq::empty(), consts: Seq::empty(), last: None, prev: None };
    let ce = c_expr(empty, e);
    let stmts = seq![SStmt::Expression(e)];
    let cs = c_stmts(empty, stmts, 0);
    let mk = make_spec(Opcode::OpPop, Seq::empty());
    law_make_read(Opcode::OpPop, Seq::empty());
    law_opcode_byte(Opcode::OpPop);
    assert(width_sum(op_widths(Opcode::OpPop), 0) == 0);
    assert(stmts[0] == SStmt::Expression(e));
    reveal_with_fuel(c_stmts, 2);
    assert(cs == c_emit(ce, Opcode::OpPop, Seq::empty()).0);
    assert(cs.code =~= ce.code + mk);
    let vs = VState { consts: cs.consts, code: cs.code, stack: Seq::empty(), last: None };
    assert(vs.code.subrange(0, ce.code.len() as int) =~= ce.code.subrange(0, ce.code.len() as int));
    lemma_run_expr(e, empty, vs, VM_FUEL as nat);
    let v = vm_value(e)->0;
    let vs1 = VState { stack: vs.stack.push(v), last: last_after(e, vs.last), ..vs };
    let f1 = (VM_FUEL - steps(e)) as nat;
    assert(vs1.code[ce.code.len() as int] == mk[0]);
    let (s1, r1) = v_pop(vs1);
    assert(s1.stack =~= Seq::<SObj>::empty());
    assert(v_run(s1, ce.code.len() + 1, (f1 - 1) as nat) == (s1, Ok::<(), VmError>(())));
}

/// Compiling and running an expression of numbers, booleans, the prefix operators,
/// the compiled infix operators and `if`/`else` with one expression per branch
/// gives the value its evaluation gives, when evaluation gives a value (and, when
/// the code holds jumps, their 16-bit targets reach its end).
pub proof fn law_compile_run_matches_eval(e: SExpr, env: SEnv, fid: nat, names: Seq<Seq<char>>, f: nat)
    requires
        straight(e),
        !(ev_expr(e, env, fid, names, f).0 is Error),
        height(e) <= MAX_STACK_SIZE,
        c_expr(CState { code: Seq::empty(), consts: Seq::empty(), last: None, prev: None }, e).consts.len() <= 65536,
        has_if(e) ==> c_expr(CState { code: Seq::empty(), consts: Seq::empty(), last: None, prev: None }, e).code.len() <= 65535,
        steps(e) + 1 <= VM_FUEL,
    ensures
        ({
            let cs = c_stmts(CState { code: Seq::empty(), consts: Seq::empty(), last: None, prev: None }, seq![SStmt::Expression(e)], 0);
            let run = v_run(VState { consts: cs.consts, code: cs.code, stack: Seq::empty(), last: None }, 0, VM_FUEL as nat);
            run.1 == Ok::<(), VmError>(()) && run.0.last == Some(ev_expr(e, env, fid, names, f).0)
        }),
{
    law_vm_agrees_with_eval(e, env, fid, names, f);
    law_compiled_expression_runs(e);
}

} // verus!
