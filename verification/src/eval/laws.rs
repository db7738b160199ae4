//! Properties of evaluation that hold for every program.
use vstd::prelude::*;
use crate::intern::interner::Symbol;
use crate::ast::expression::{SExpr, Operator, Prefix};
use crate::ast::statement::SStmt;
use crate::ast::literal::SLit;
use crate::eval::object::SObj;
use crate::eval::env::{SEnv, env_get, env_set, env_enclose, law_env_set_get};
use crate::eval::semantics::{ev_expr, ev_stmt, ev_prefix, ev_infix, ev_if, ev_call, ev_apply, ev_index, ev_dot, ev_list, ev_hash, ev_block, ev_fn_block, ev_while, bind_params, unwrap_ret, entry_insert, limit_text, infix_obj};

verus! {

/// A value with its return layers removed is not a return value.
pub proof fn law_unwrap_ret(o: SObj)
    ensures
        !(unwrap_ret(o) is Return),
        !(o is Return) ==> unwrap_ret(o) == o,
    decreases o,
{
    if let SObj::Return(r) = o {
        law_unwrap_ret(*r);
    }
}

/// A function call never hands back a return signal: the value of a function body
/// is the value of its first return statement with the return removed.
pub proof fn law_fn_block_unwrapped(stmts: Seq<SStmt>, i: nat, env: SEnv, fid: nat, names: Seq<Seq<char>>, f: nat)
    ensures
        ev_fn_block(stmts, i, env, fid, names, f).0 matches Some(v) ==> !(v is Return),
    decreases f,
{
    if f > 0 && i < stmts.len() {
        let g = (f - 1) as nat;
        let (r, e1) = ev_stmt(stmts[i as int], env, fid, names, g);
        if r is Return {
            law_unwrap_ret(r);
        } else {
            law_fn_block_unwrapped(stmts, i + 1, e1, fid, names, g);
        }
    }
}

/// `e2` has every frame of `e`, and those other than `fid` are as they were.
pub open spec fn keeps_frames(e: SEnv, e2: SEnv, fid: nat) -> bool {
    &&& e2.frames.len() >= e.frames.len()
    &&& forall|j: int| 0 <= j < e.frames.len() && j != fid ==> #[trigger] e2.frames[j] == e.frames[j]
}

/// `e2` has every frame of `e`, all as they were.
pub open spec fn keeps_all_frames(e: SEnv, e2: SEnv) -> bool {
    &&& e2.frames.len() >= e.frames.len()
    &&& forall|j: int| 0 <= j < e.frames.len() ==> #[trigger] e2.frames[j] == e.frames[j]
}

proof fn lemma_keeps_trans(e1: SEnv, e2: SEnv, e3: SEnv, fid: nat)
    requires
        keeps_frames(e1, e2, fid),
        keeps_frames(e2, e3, fid),
    ensures
        keeps_frames(e1, e3, fid),
{
    assert forall|j: int| 0 <= j < e1.frames.len() && j != fid implies #[trigger] e3.frames[j] == e1.frames[j] by {
        assert(e2.frames[j] == e1.frames[j]);
    }
}

proof fn lemma_set_keeps(e: SEnv, fid: nat, n: Symbol, v: SObj)
    ensures
        keeps_frames(e, env_set(e, fid, n, v), fid),
{
}

proof fn lemma_bind_keeps(params: Seq<Symbol>, args: Seq<SObj>, i: nat, env: SEnv, frame: nat)
    ensures
        keeps_frames(env, bind_params(params, args, i, env, frame).1, frame),
    decreases params.len() - i,
{
    if i < params.len() && i < args.len() {
        let e1 = env_set(env, frame, params[i as int], args[i as int]);
        lemma_bind_keeps(params, args, i + 1, e1, frame);
        lemma_keeps_trans(env, e1, bind_params(params, args, i, env, frame).1, frame);
    }
}

/// Evaluating an expression in frame `fid` only adds frames and changes no frame
/// there was but `fid`.
pub proof fn law_expr_keeps_frames(e: SExpr, env: SEnv, fid: nat, names: Seq<Seq<char>>, f: nat)
    ensures
        keeps_frames(env, ev_expr(e, env, fid, names, f).1, fid),
    decreases f, 0nat,
{
    if f > 0 {
        let g = (f - 1) as nat;
        match e {
            SExpr::Prefix(p, x) => lemma_prefix_keeps(p, *x, env, fid, names, g),
            SExpr::Infix(op, l, r) => lemma_infix_keeps(op, *l, *r, env, fid, names, g),
            SExpr::If { condition, consequence, alternative } =>
                lemma_if_keeps(*condition, consequence, alternative, env, fid, names, g),
            SExpr::Function { identifier, parameters, body } => {
                if let Some(i) = identifier {
                    lemma_set_keeps(env, fid, i, SObj::Function { name: identifier, parameters, body, env: fid });
                }
            },
            SExpr::Call { function, arguments } => lemma_call_keeps(e, *function, arguments, env, fid, names, g),
            SExpr::Array(es) => lemma_list_keeps(es, 0, Seq::empty(), env, fid, names, g),
            SExpr::Index { left, index } => lemma_index_keeps(*left, *index, env, fid, names, g),
            SExpr::HashMap { pairs } => lemma_hash_keeps(pairs, 0, Seq::empty(), env, fid, names, g),
            SExpr::Dot { identifier, attribute } => lemma_dot_keeps(*identifier, attribute, env, fid, names, g),
            _ => {},
        }
    }
}

proof fn lemma_prefix_keeps(p: Prefix, x: SExpr, env: SEnv, fid: nat, names: Seq<Seq<char>>, f: nat)
    ensures
        keeps_frames(env, ev_prefix(p, x, env, fid, names, f).1, fid),
    decreases f, 5nat,
{
    law_expr_keeps_frames(x, env, fid, names, f);
}

proof fn lemma_infix_keeps(op: Operator, l: SExpr, r: SExpr, env: SEnv, fid: nat, names: Seq<Seq<char>>, f: nat)
    ensures
        keeps_frames(env, ev_infix(op, l, r, env, fid, names, f).1, fid),
    decreases f, 5nat,
{
    let (a, e1) = ev_expr(l, env, fid, names, f);
    let (b, e2) = ev_expr(r, e1, fid, names, f);
    law_expr_keeps_frames(l, env, fid, names, f);
    law_expr_keeps_frames(r, e1, fid, names, f);
    lemma_keeps_trans(env, e1, e2, fid);
}

proof fn lemma_if_keeps(c: SExpr, cons: Seq<SStmt>, alt: Option<Seq<SStmt>>, env: SEnv, fid: nat, names: Seq<Seq<char>>, f: nat)
    ensures
        keeps_frames(env, ev_if(c, cons, alt, env, fid, names, f).1, fid),
    decreases f, 5nat,
{
    let (v, e1) = ev_expr(c, env, fid, names, f);
    law_expr_keeps_frames(c, env, fid, names, f);
    lemma_block_keeps(cons, 0, SObj::Nil, e1, fid, names, f);
    lemma_keeps_trans(env, e1, ev_block(cons, 0, SObj::Nil, e1, fid, names, f).1, fid);
    if let Some(a) = alt {
        lemma_block_keeps(a, 0, SObj::Nil, e1, fid, names, f);
        lemma_keeps_trans(env, e1, ev_block(a, 0, SObj::Nil, e1, fid, names, f).1, fid);
    }
}

proof fn lemma_call_keeps(call: SExpr, function: SExpr, arguments: Seq<SExpr>, env: SEnv, fid: nat, names: Seq<Seq<char>>, f: nat)
    ensures
        keeps_frames(env, ev_call(call, function, arguments, env, fid, names, f).1, fid),
    decreases f, 5nat,
{
    let (fv, e1) = ev_expr(function, env, fid, names, f);
    law_expr_keeps_frames(function, env, fid, names, f);
    let (args, e2) = ev_list(arguments, 0, Seq::empty(), e1, fid, names, f);
    lemma_list_keeps(arguments, 0, Seq::empty(), e1, fid, names, f);
    lemma_keeps_trans(env, e1, e2, fid);
    let text = crate::ast::expression::pretty_expr(call, names);
    law_apply_keeps_frames(fv, args, e2, names, text, f);
    lemma_keeps_trans(env, e2, ev_apply(fv, args, e2, names, text, f).1, fid);
}

/// Applying a value changes no frame there was: a function's body runs in a new
/// frame, and a builtin changes no frame.
pub proof fn law_apply_keeps_frames(fv: SObj, args: Seq<SObj>, env: SEnv, names: Seq<Seq<char>>, call_text: Seq<char>, f: nat)
    ensures
        keeps_all_frames(env, ev_apply(fv, args, env, names, call_text, f).1),
    decreases f, 4nat,
{
    if let SObj::Function { name, parameters, body, env: closure } = fv {
        let (e1, frame) = crate::eval::env::env_enclose(env, closure);
        lemma_bind_keeps(parameters, args, 0, e1, frame);
        let (missing, e2) = bind_params(parameters, args, 0, e1, frame);
        lemma_fn_block_keeps(body, 0, e2, frame, names, f);
        lemma_keeps_trans(e1, e2, ev_fn_block(body, 0, e2, frame, names, f).1, frame);
        let e3 = ev_fn_block(body, 0, e2, frame, names, f).1;
        assert forall|j: int| 0 <= j < env.frames.len() implies #[trigger] e3.frames[j] == env.frames[j] by {
            assert(e1.frames[j] == env.frames[j]);
            assert(j != frame);
        }
    }
}

proof fn lemma_index_keeps(l: SExpr, i: SExpr, env: SEnv, fid: nat, names: Seq<Seq<char>>, f: nat)
    ensures
        keeps_frames(env, ev_index(l, i, env, fid, names, f).1, fid),
    decreases f, 5nat,
{
    let (a, e1) = ev_expr(l, env, fid, names, f);
    law_expr_keeps_frames(l, env, fid, names, f);
    law_expr_keeps_frames(i, e1, fid, names, f);
    lemma_keeps_trans(env, e1, ev_expr(i, e1, fid, names, f).1, fid);
}

proof fn lemma_dot_keeps(x: SExpr, attr: Symbol, env: SEnv, fid: nat, names: Seq<Seq<char>>, f: nat)
    ensures
        keeps_frames(env, ev_dot(x, attr, env, fid, names, f).1, fid),
    decreases f, 5nat,
{
    law_expr_keeps_frames(x, env, fid, names, f);
}

proof fn lemma_list_keeps(es: Seq<SExpr>, i: nat, acc: Seq<SObj>, env: SEnv, fid: nat, names: Seq<Seq<char>>, f: nat)
    ensures
        keeps_frames(env, ev_list(es, i, acc, env, fid, names, f).1, fid),
    decreases f, 2nat,
{
    if f > 0 && i < es.len() {
        let g = (f - 1) as nat;
        let (v, e1) = ev_expr(es[i as int], env, fid, names, g);
        law_expr_keeps_frames(es[i as int], env, fid, names, g);
        lemma_list_keeps(es, i + 1, acc.push(v), e1, fid, names, g);
        lemma_keeps_trans(env, e1, ev_list(es, i + 1, acc.push(v), e1, fid, names, g).1, fid);
    }
}

proof fn lemma_hash_keeps(pairs: Seq<(SExpr, SExpr)>, i: nat, acc: Seq<(Seq<char>, SObj)>, env: SEnv, fid: nat, names: Seq<Seq<char>>, f: nat)
    ensures
        keeps_frames(env, ev_hash(pairs, i, acc, env, fid, names, f).1, fid),
    decreases f, 2nat,
{
    if f > 0 && i < pairs.len() {
        let g = (f - 1) as nat;
        let (k, e1) = ev_expr(pairs[i as int].0, env, fid, names, g);
        law_expr_keeps_frames(pairs[i as int].0, env, fid, names, g);
        if let Some(key) = crate::eval::object::spec_hash(k) {
            let (v, e2) = ev_expr(pairs[i as int].1, e1, fid, names, g);
            law_expr_keeps_frames(pairs[i as int].1, e1, fid, names, g);
            lemma_keeps_trans(env, e1, e2, fid);
            lemma_hash_keeps(pairs, i + 1, entry_insert(acc, key, v), e2, fid, names, g);
            lemma_keeps_trans(env, e2, ev_hash(pairs, i + 1, entry_insert(acc, key, v), e2, fid, names, g).1, fid);
        }
    }
}

proof fn lemma_block_keeps(stmts: Seq<SStmt>, i: nat, acc: SObj, env: SEnv, fid: nat, names: Seq<Seq<char>>, f: nat)
    ensures
        keeps_frames(env, ev_block(stmts, i, acc, env, fid, names, f).1, fid),
    decreases f, 3nat,
{
    if f > 0 && i < stmts.len() {
        let g = (f - 1) as nat;
        let (r, e1) = ev_stmt(stmts[i as int], env, fid, names, g);
        law_stmt_keeps_frames(stmts[i as int], env, fid, names, g);
        if !(r is Return) {
            lemma_block_keeps(stmts, i + 1, r, e1, fid, names, g);
            lemma_keeps_trans(env, e1, ev_block(stmts, i + 1, r, e1, fid, names, g).1, fid);
        }
    }
}

proof fn lemma_fn_block_keeps(stmts: Seq<SStmt>, i: nat, env: SEnv, fid: nat, names: Seq<Seq<char>>, f: nat)
    ensures
        keeps_frames(env, ev_fn_block(stmts, i, env, fid, names, f).1, fid),
    decreases f, 3nat,
{
    if f > 0 && i < stmts.len() {
        let g = (f - 1) as nat;
        let (r, e1) = ev_stmt(stmts[i as int], env, fid, names, g);
        law_stmt_keeps_frames(stmts[i as int], env, fid, names, g);
        if !(r is Return) {
            lemma_fn_block_keeps(stmts, i + 1, e1, fid, names, g);
            lemma_keeps_trans(env, e1, ev_fn_block(stmts, i + 1, e1, fid, names, g).1, fid);
        }
    }
}

/// Running a statement in frame `fid` only adds frames and changes no frame there
/// was but `fid`.
pub proof fn law_stmt_keeps_frames(s: SStmt, env: SEnv, fid: nat, names: Seq<Seq<char>>, f: nat)
    ensures
        keeps_frames(env, ev_stmt(s, env, fid, names, f).1, fid),
    decreases f, 5nat,
{
    match s {
        SStmt::Expression(e) => law_expr_keeps_frames(e, env, fid, names, f),
        SStmt::Return(e) => law_expr_keeps_frames(e, env, fid, names, f),
        SStmt::Let(i, e) => {
            let (v, e1) = ev_expr(e, env, fid, names, f);
            law_expr_keeps_frames(e, env, fid, names, f);
            lemma_set_keeps(e1, fid, i, v);
            lemma_keeps_trans(env, e1, env_set(e1, fid, i, v), fid);
        },
        SStmt::Assignment(i, e) => {
            let (v, e1) = ev_expr(e, env, fid, names, f);
            law_expr_keeps_frames(e, env, fid, names, f);
            lemma_set_keeps(e1, fid, i, v);
            lemma_keeps_trans(env, e1, env_set(e1, fid, i, v), fid);
        },
        SStmt::Error(m) => {},
        SStmt::While { condition, body } => lemma_while_keeps(condition, body, env, fid, names, f),
    }
}

proof fn lemma_while_keeps(c: SExpr, body: Seq<SStmt>, env: SEnv, fid: nat, names: Seq<Seq<char>>, f: nat)
    ensures
        keeps_frames(env, ev_while(c, body, env, fid, names, f).1, fid),
    decreases f, 4nat,
{
    if f > 0 {
        let g = (f - 1) as nat;
        let (v, e1) = ev_expr(c, env, fid, names, g);
        law_expr_keeps_frames(c, env, fid, names, g);
        if v == SObj::Boolean(true) {
            let (r, e2) = ev_block(body, 0, SObj::Nil, e1, fid, names, g);
            lemma_block_keeps(body, 0, SObj::Nil, e1, fid, names, g);
            lemma_keeps_trans(env, e1, e2, fid);
            lemma_while_keeps(c, body, e2, fid, names, g);
            lemma_keeps_trans(env, e2, ev_while(c, body, e2, fid, names, g).1, fid);
        }
    }
}

/// After `let x = e` in a frame, the name `x` evaluates in that frame to the value
/// the statement produced, and the environment is left as it is.
pub proof fn law_let_then_lookup(x: Symbol, e: SExpr, env: SEnv, fid: nat, names: Seq<Seq<char>>, f: nat, g: nat)
    requires
        fid < env.frames.len(),
        g > 0,
    ensures
        ev_expr(SExpr::Identifier(x), ev_stmt(SStmt::Let(x, e), env, fid, names, f).1, fid, names, g)
            == ev_stmt(SStmt::Let(x, e), env, fid, names, f),
{
    let (v, e1) = ev_expr(e, env, fid, names, f);
    law_expr_keeps_frames(e, env, fid, names, f);
    law_env_set_get(e1, fid, x, v, x);
}

/// A while loop's value is `None` (or the error for a run past the evaluation limit).
pub proof fn law_while_value(c: SExpr, body: Seq<SStmt>, env: SEnv, fid: nat, names: Seq<Seq<char>>, f: nat)
    ensures
        ev_while(c, body, env, fid, names, f).0 == SObj::Nil
            || ev_while(c, body, env, fid, names, f).0 == SObj::Error(limit_text()),
    decreases f,
{
    if f > 0 {
        let g = (f - 1) as nat;
        let (v, e1) = ev_expr(c, env, fid, names, g);
        if v == SObj::Boolean(true) {
            let (r, e2) = ev_block(body, 0, SObj::Nil, e1, fid, names, g);
            law_while_value(c, body, e2, fid, names, g);
        }
    }
}


/// Comparisons of two numbers follow the order of the integers: `<`, `<=`, `>`,
/// `>=`, `==` and `!=` on numbers `a` and `b` give the truth of that comparison.
pub proof fn law_number_comparisons(op: Operator, a: i64, b: i64, names: Seq<Seq<char>>)
    ensures
        op == Operator::LessThan ==> infix_obj(op, SObj::Number(a), SObj::Number(b), names) == SObj::Boolean(a < b),
        op == Operator::LessThanOrEqual ==> infix_obj(op, SObj::Number(a), SObj::Number(b), names) == SObj::Boolean(a <= b),
        op == Operator::GreaterThan ==> infix_obj(op, SObj::Number(a), SObj::Number(b), names) == SObj::Boolean(a > b),
        op == Operator::GreaterThanOrEqual ==> infix_obj(op, SObj::Number(a), SObj::Number(b), names) == SObj::Boolean(a >= b),
        op == Operator::Equal ==> infix_obj(op, SObj::Number(a), SObj::Number(b), names) == SObj::Boolean(a == b),
        op == Operator::NotEqual ==> infix_obj(op, SObj::Number(a), SObj::Number(b), names) == SObj::Boolean(a != b),
{
}

/// Evaluating `l <= r` where both operands evaluate to numbers `a` and `b` gives
/// `true` exactly when `a` is at most `b`; `<` gives `true` exactly when `a` is below
/// `b`.
pub proof fn law_eval_less_equal(l: SExpr, r: SExpr, env: SEnv, fid: nat, names: Seq<Seq<char>>, f: nat, a: i64, b: i64)
    requires
        f > 0,
        unwrap_ret(ev_expr(l, env, fid, names, (f - 1) as nat).0) == SObj::Number(a),
        unwrap_ret(ev_expr(r, ev_expr(l, env, fid, names, (f - 1) as nat).1, fid, names, (f - 1) as nat).0) == SObj::Number(b),
    ensures
        ev_expr(SExpr::Infix(Operator::LessThanOrEqual, Box::new(l), Box::new(r)), env, fid, names, f).0 == SObj::Boolean(a <= b),
        ev_expr(SExpr::Infix(Operator::LessThan, Box::new(l), Box::new(r)), env, fid, names, f).0 == SObj::Boolean(a < b),
{
}

/// A number is at most itself and not below itself: `n <= n` evaluates to `true`,
/// `n < n` to `false`, for every number `n`.
pub proof fn law_less_equal_reflexive(n: i64, env: SEnv, fid: nat, names: Seq<Seq<char>>, f: nat)
    requires
        f >= 2,
    ensures
        ev_expr(SExpr::Infix(Operator::LessThanOrEqual, Box::new(SExpr::Literal(SLit::Number(n))),
            Box::new(SExpr::Literal(SLit::Number(n)))), env, fid, names, f).0 == SObj::Boolean(true),
        ev_expr(SExpr::Infix(Operator::GreaterThanOrEqual, Box::new(SExpr::Literal(SLit::Number(n))),
            Box::new(SExpr::Literal(SLit::Number(n)))), env, fid, names, f).0 == SObj::Boolean(true),
        ev_expr(SExpr::Infix(Operator::LessThan, Box::new(SExpr::Literal(SLit::Number(n))),
            Box::new(SExpr::Literal(SLit::Number(n)))), env, fid, names, f).0 == SObj::Boolean(false),
{
    let x = SExpr::Literal(SLit::Number(n));
    let g = (f - 1) as nat;
    assert(ev_expr(x, env, fid, names, g) == (SObj::Number(n), env));
    assert(unwrap_ret(SObj::Number(n)) == SObj::Number(n));
}

proof fn lemma_bind_gets(params: Seq<Symbol>, args: Seq<SObj>, i: nat, env: SEnv, frame: nat)
    requires
        frame < env.frames.len(),
        params.no_duplicates(),
        params.len() <= args.len(),
        i <= params.len(),
        forall|j: int| 0 <= j < i ==> env_get(env, frame, #[trigger] params[j]) == Some(args[j]),
    ensures
        bind_params(params, args, i, env, frame).0 is None,
        bind_params(params, args, i, env, frame).1.frames.len() == env.frames.len(),
        forall|j: int| 0 <= j < params.len() ==> env_get(bind_params(params, args, i, env, frame).1, frame, #[trigger] params[j]) == Some(args[j]),
    decreases params.len() - i,
{
    if i < params.len() {
        let e1 = env_set(env, frame, params[i as int], args[i as int]);
        assert forall|j: int| 0 <= j < i + 1 implies env_get(e1, frame, #[trigger] params[j]) == Some(args[j]) by {
            law_env_set_get(env, frame, params[i as int], args[i as int], params[j]);
        }
        lemma_bind_gets(params, args, i + 1, e1, frame);
    }
}

/// In a call, parameter `j` is bound to argument `j`: after the parameters (all
/// different) are bound in the new frame of the call, the `j`-th parameter
/// evaluates there to the `j`-th argument, and no parameter is reported missing.
pub proof fn law_params_bound_in_order(params: Seq<Symbol>, args: Seq<SObj>, env: SEnv, closure: nat, names: Seq<Seq<char>>, f: nat, j: int)
    requires
        closure < env.frames.len(),
        params.no_duplicates(),
        params.len() <= args.len(),
        0 <= j < params.len(),
        f > 0,
    ensures
        ({
            let (e1, frame) = env_enclose(env, closure);
            let (missing, e2) = bind_params(params, args, 0, e1, frame);
            &&& missing is None
            &&& ev_expr(SExpr::Identifier(params[j]), e2, frame, names, f).0 == args[j]
        }),
{
    let (e1, frame) = env_enclose(env, closure);
    lemma_bind_gets(params, args, 0, e1, frame);
    let e2 = bind_params(params, args, 0, e1, frame).1;
    assert(env_get(e2, frame, params[j]) == Some(args[j]));
}

} // verus!
