//! What evaluation computes: the value of each expression and statement and the
//! environment afterwards, as functions of the tree, the environment, the frame
//! the evaluation runs in, the interned names and a bound on the evaluation depth.
use vstd::prelude::*;
use vstd::arithmetic::power::pow;
use vstd::utf8::encode_utf8;
use crate::intern::interner::{Symbol, spec_name};
use crate::ast::literal::SLit;
use crate::ast::expression::{SExpr, Operator, Prefix, op_str, pretty_expr};
use crate::ast::statement::SStmt;
use crate::eval::object::{SObj, Builtin, spec_hash, obj_text, obj_texts, obj_debug, list_debug};
use crate::eval::env::{SEnv, env_get, env_set, env_enclose, env_print};
use crate::text::{seq_join, nat_str};

verus! {

/// How deep evaluation may go (nested calls, loop rounds); far beyond any run that ends.
pub const EVAL_FUEL: u64 = 0xFFFF_FFFF_FFFF_FFFF;

pub open spec fn limit_text() -> Seq<char> {
    "evaluation limit reached"@
}

/// The value of a literal.
pub open spec fn lit_obj(l: SLit) -> SObj {
    match l {
        SLit::Number(n) => SObj::Number(n),
        SLit::Str(s) => SObj::Str(s),
        SLit::Boolean(b) => SObj::Boolean(b),
    }
}

/// The value a return value carries, through any number of `Return` layers.
pub open spec fn unwrap_ret(o: SObj) -> SObj
    decreases o,
{
    match o {
        SObj::Return(r) => unwrap_ret(*r),
        _ => o,
    }
}

/// `base` raised to `exp`, when it fits in an `i64` (`i64::checked_pow`).
pub open spec fn checked_pow_spec(base: i64, exp: u32) -> Option<i64> {
    let p = pow(base as int, exp as nat);
    if i64::MIN <= p <= i64::MAX { Some(p as i64) } else { None }
}

/// The value of a prefix operator applied to `r`.
pub open spec fn prefix_obj(p: Prefix, r: SObj, names: Seq<Seq<char>>) -> SObj {
    match p {
        Prefix::Bang => match r {
            SObj::Boolean(b) => SObj::Boolean(!b),
            _ => SObj::Error("expected Boolean, got: "@ + obj_text(r, names)),
        },
        Prefix::Minus => match r {
            SObj::Number(n) => match 0i64.checked_sub(n) {
                Some(m) => SObj::Number(m),
                None => SObj::Error("Can only perform operation - on (numbers), got: "@ + obj_text(r, names)),
            },
            _ => SObj::Error("expected Number, got: "@ + obj_text(r, names)),
        },
    }
}

/// The error of an infix operator: the operator, what it accepts, and both operands.
pub open spec fn infix_error(op: Operator, accepts: Seq<char>, l: SObj, r: SObj, names: Seq<Seq<char>>) -> SObj {
    SObj::Error("Can only perform operation "@ + op_str(op) + " on "@ + accepts + ", got: "@
        + obj_text(l, names) + " and "@ + obj_text(r, names) + " "@)
}

/// A number, or the error for a result that does not fit in an `i64`.
pub open spec fn checked_number(c: Option<i64>, op: Operator, l: SObj, r: SObj, names: Seq<Seq<char>>) -> SObj {
    match c {
        Some(v) => SObj::Number(v),
        None => infix_error(op, "(numbers)"@, l, r, names),
    }
}

/// The value of an infix operator applied to two values (return values already unwrapped).
/// Arithmetic that overflows, and division by zero, give an error.
pub open spec fn infix_obj(op: Operator, l: SObj, r: SObj, names: Seq<Seq<char>>) -> SObj {
    let nums = "numbers"@;
    let both = "(numbers | boolean)"@;
    match (l, r) {
        (SObj::Number(a), SObj::Number(b)) => match op {
            Operator::Plus => checked_number(a.checked_add(b), op, l, r, names),
            Operator::Minus => checked_number(a.checked_sub(b), op, l, r, names),
            Operator::Multiply => checked_number(a.checked_mul(b), op, l, r, names),
            Operator::Divide => checked_number(a.checked_div(b), op, l, r, names),
            Operator::GreaterThan => SObj::Boolean(a > b),
            Operator::LessThan => SObj::Boolean(a < b),
            Operator::GreaterThanOrEqual => SObj::Boolean(a >= b),
            Operator::LessThanOrEqual => SObj::Boolean(a <= b),
            Operator::Equal => SObj::Boolean(a == b),
            Operator::NotEqual => SObj::Boolean(a != b),
            Operator::And => infix_error(op, both, l, r, names),
            Operator::Or => infix_error(op, both, l, r, names),
            Operator::Exponent => checked_number(checked_pow_spec(a, b as u32), op, l, r, names),
        },
        (SObj::Boolean(a), SObj::Boolean(b)) => match op {
            Operator::Equal => SObj::Boolean(a == b),
            Operator::NotEqual => SObj::Boolean(a != b),
            Operator::And => SObj::Boolean(a && b),
            Operator::Or => SObj::Boolean(a || b),
            Operator::Exponent => infix_error(op, both, l, r, names),
            _ => infix_error(op, nums, l, r, names),
        },
        _ => match op {
            Operator::Equal => infix_error(op, both, l, r, names),
            Operator::NotEqual => infix_error(op, both, l, r, names),
            Operator::And => infix_error(op, both, l, r, names),
            Operator::Or => infix_error(op, both, l, r, names),
            Operator::Exponent => infix_error(op, both, l, r, names),
            _ => infix_error(op, nums, l, r, names),
        },
    }
}

/// The position of key `k` among the entries of a hash map, or -1.
pub open spec fn entry_index(ps: Seq<(Seq<char>, SObj)>, k: Seq<char>) -> int
    decreases ps.len(),
{
    if ps.len() == 0 {
        -1
    } else if ps.last().0 == k {
        ps.len() - 1
    } else {
        entry_index(ps.drop_last(), k)
    }
}

/// The value stored under `k`.
pub open spec fn entry_get(ps: Seq<(Seq<char>, SObj)>, k: Seq<char>) -> Option<SObj> {
    let i = entry_index(ps, k);
    if i >= 0 { Some(ps[i].1) } else { None }
}

/// The entries with `k` mapped to `v`: the entry is replaced where there is one, else added.
pub open spec fn entry_insert(ps: Seq<(Seq<char>, SObj)>, k: Seq<char>, v: SObj) -> Seq<(Seq<char>, SObj)> {
    let i = entry_index(ps, k);
    if i >= 0 { ps.update(i, (k, v)) } else { ps.push((k, v)) }
}

/// The value of `a[b]`; an index is written as a one-element array.
pub open spec fn index_obj(a: SObj, b: SObj) -> SObj {
    match (a, b) {
        (SObj::Array(arr), SObj::Array(idx)) => {
            if idx.len() != 1 {
                SObj::Error("invalid index, got "@ + list_debug(idx))
            } else {
                match idx[0] {
                    SObj::Number(n) => if 0 <= n < arr.len() { arr[n as int] } else { SObj::Nil },
                    _ => SObj::Error("invalid index, got "@ + list_debug(idx)),
                }
            }
        },
        (SObj::HashMap(ps), SObj::Array(idx)) => {
            if idx.len() != 1 {
                SObj::Error("invalid index, got "@ + list_debug(idx))
            } else {
                match spec_hash(idx[0]) {
                    Some(k) => match entry_get(ps, k) {
                        Some(v) => v,
                        None => SObj::Nil,
                    },
                    None => SObj::Error("Index is not hashable, got "@ + list_debug(idx)),
                }
            }
        },
        _ => SObj::Error("not supported, got: "@ + obj_debug(a) + ", "@ + obj_debug(b)),
    }
}

/// The value of `x.attr`, where `a` is the value of `x`.
pub open spec fn dot_obj(a: SObj, attr: Symbol, x: SExpr, names: Seq<Seq<char>>) -> SObj {
    match a {
        SObj::HashMap(ps) => match entry_get(ps, spec_name(names, attr)) {
            Some(v) => v,
            None => SObj::Nil,
        },
        _ => SObj::Error("Cannot read "@ + "Symbol("@ + nat_str(attr.0 as nat) + ")"@ + " propertie of "@ + pretty_expr(x, names)),
    }
}

/// The environment after binding the parameters from position `i` on to the
/// arguments in frame `frame`, and the first position that has no argument.
pub open spec fn bind_params(params: Seq<Symbol>, args: Seq<SObj>, i: nat, env: SEnv, frame: nat) -> (Option<nat>, SEnv)
    decreases params.len() - i,
{
    if i >= params.len() {
        (None, env)
    } else if i < args.len() {
        bind_params(params, args, i + 1, env_set(env, frame, params[i as int], args[i as int]), frame)
    } else {
        (Some(i), env)
    }
}

/// What a builtin returns for `args`, and the environment afterwards.
pub open spec fn builtin_call(b: Builtin, args: Seq<SObj>, env: SEnv, names: Seq<Seq<char>>) -> (SObj, SEnv) {
    let invalid = SObj::Error("invalid argument, got: "@ + list_debug(args));
    match b {
        Builtin::Len => if args.len() != 1 {
            (SObj::Error("'len' does not accept more than 1 argument, got: "@ + list_debug(args)), env)
        } else {
            match args[0] {
                SObj::Str(s) => (SObj::Number((encode_utf8(s).len() as usize) as i64), env),
                SObj::Array(a) => (SObj::Number(a.len() as i64), env),
                _ => (invalid, env),
            }
        },
        Builtin::First => if args.len() != 1 {
            (SObj::Error("'first' does not accept more than 1 argument, got: "@ + list_debug(args)), env)
        } else {
            match args[0] {
                SObj::Array(a) => (if a.len() == 0 { SObj::Nil } else { a[0] }, env),
                _ => (invalid, env),
            }
        },
        Builtin::Last => if args.len() != 1 {
            (SObj::Error("'last' does not accept more than 1 argument, got: "@ + list_debug(args)), env)
        } else {
            match args[0] {
                SObj::Array(a) => (if a.len() == 0 { SObj::Nil } else { a.last() }, env),
                _ => (invalid, env),
            }
        },
        Builtin::Print => (SObj::Nil, env_print(env, seq_join(obj_texts(args, names), " "@))),
    }
}

/// The value of an expression evaluated in frame `fid`, and the environment afterwards.
pub open spec fn ev_expr(e: SExpr, env: SEnv, fid: nat, names: Seq<Seq<char>>, f: nat) -> (SObj, SEnv)
    decreases f, 0nat,
{
    if f == 0 {
        (SObj::Error(limit_text()), env)
    } else {
        let g = (f - 1) as nat;
        match e {
            SExpr::Error(s) => (SObj::Error(s), env),
            SExpr::Literal(l) => (lit_obj(l), env),
            SExpr::Identifier(i) => (match env_get(env, fid, i) {
                Some(o) => o,
                None => SObj::Error("identifier not found: "@ + spec_name(names, i)),
            }, env),
            SExpr::Prefix(p, x) => ev_prefix(p, *x, env, fid, names, g),
            SExpr::Infix(op, l, r) => ev_infix(op, *l, *r, env, fid, names, g),
            SExpr::If { condition, consequence, alternative } => ev_if(*condition, consequence, alternative, env, fid, names, g),
            SExpr::Function { identifier, parameters, body } => {
                let fun = SObj::Function { name: identifier, parameters, body, env: fid };
                (fun, match identifier {
                    Some(i) => env_set(env, fid, i, fun),
                    None => env,
                })
            },
            SExpr::Call { function, arguments } => ev_call(e, *function, arguments, env, fid, names, g),
            SExpr::Array(es) => {
                let (vs, e1) = ev_list(es, 0, Seq::empty(), env, fid, names, g);
                (SObj::Array(vs), e1)
            },
            SExpr::Index { left, index } => ev_index(*left, *index, env, fid, names, g),
            SExpr::HashMap { pairs } => ev_hash(pairs, 0, Seq::empty(), env, fid, names, g),
            SExpr::Dot { identifier, attribute } => ev_dot(*identifier, attribute, env, fid, names, g),
        }
    }
}

pub open spec fn ev_prefix(p: Prefix, x: SExpr, env: SEnv, fid: nat, names: Seq<Seq<char>>, f: nat) -> (SObj, SEnv)
    decreases f, 5nat,
{
    let (r, e1) = ev_expr(x, env, fid, names, f);
    (prefix_obj(p, r, names), e1)
}

/// Both operands are evaluated, left first; return values among them are unwrapped.
pub open spec fn ev_infix(op: Operator, l: SExpr, r: SExpr, env: SEnv, fid: nat, names: Seq<Seq<char>>, f: nat) -> (SObj, SEnv)
    decreases f, 5nat,
{
    let (a, e1) = ev_expr(l, env, fid, names, f);
    let (b, e2) = ev_expr(r, e1, fid, names, f);
    (infix_obj(op, unwrap_ret(a), unwrap_ret(b), names), e2)
}

pub open spec fn ev_if(c: SExpr, cons: Seq<SStmt>, alt: Option<Seq<SStmt>>, env: SEnv, fid: nat, names: Seq<Seq<char>>, f: nat) -> (SObj, SEnv)
    decreases f, 5nat,
{
    let (v, e1) = ev_expr(c, env, fid, names, f);
    match v {
        SObj::Boolean(true) => ev_block(cons, 0, SObj::Nil, e1, fid, names, f),
        SObj::Boolean(false) => match alt {
            Some(a) => ev_block(a, 0, SObj::Nil, e1, fid, names, f),
            None => (SObj::Nil, e1),
        },
        _ => (SObj::Error("condition did not evaluate to boolean"@), e1),
    }
}

/// The function is evaluated, then the arguments from left to right, then it is applied.
pub open spec fn ev_call(call: SExpr, function: SExpr, arguments: Seq<SExpr>, env: SEnv, fid: nat, names: Seq<Seq<char>>, f: nat) -> (SObj, SEnv)
    decreases f, 5nat,
{
    let (fv, e1) = ev_expr(function, env, fid, names, f);
    let (args, e2) = ev_list(arguments, 0, Seq::empty(), e1, fid, names, f);
    ev_apply(fv, args, e2, names, pretty_expr(call, names), f)
}

/// Applies a value to arguments. A function runs in a new frame enclosed by the
/// frame it was made in, with its parameters bound to the arguments.
pub open spec fn ev_apply(fv: SObj, args: Seq<SObj>, env: SEnv, names: Seq<Seq<char>>, call_text: Seq<char>, f: nat) -> (SObj, SEnv)
    decreases f, 4nat,
{
    match fv {
        SObj::Function { name, parameters, body, env: closure } => {
            let (e1, frame) = env_enclose(env, closure);
            let (missing, e2) = bind_params(parameters, args, 0, e1, frame);
            match missing {
                Some(i) => (SObj::Error("Missing parameter: "@ + nat_str(i)), e2),
                None => {
                    let (r, e3) = ev_fn_block(body, 0, e2, frame, names, f);
                    (match r {
                        Some(o) => o,
                        None => SObj::Nil,
                    }, e3)
                },
            }
        },
        SObj::Builtin(b) => builtin_call(b, args, env, names),
        _ => (SObj::Error("not a valid call "@ + call_text + " "@), env),
    }
}

pub open spec fn ev_index(l: SExpr, i: SExpr, env: SEnv, fid: nat, names: Seq<Seq<char>>, f: nat) -> (SObj, SEnv)
    decreases f, 5nat,
{
    let (a, e1) = ev_expr(l, env, fid, names, f);
    let (b, e2) = ev_expr(i, e1, fid, names, f);
    (index_obj(a, b), e2)
}

pub open spec fn ev_dot(x: SExpr, attr: Symbol, env: SEnv, fid: nat, names: Seq<Seq<char>>, f: nat) -> (SObj, SEnv)
    decreases f, 5nat,
{
    let (a, e1) = ev_expr(x, env, fid, names, f);
    (dot_obj(a, attr, x, names), e1)
}

/// The values of the expressions from position `i` on, appended to `acc`.
pub open spec fn ev_list(es: Seq<SExpr>, i: nat, acc: Seq<SObj>, env: SEnv, fid: nat, names: Seq<Seq<char>>, f: nat) -> (Seq<SObj>, SEnv)
    decreases f, 2nat,
{
    if f == 0 || i >= es.len() {
        (acc, env)
    } else {
        let g = (f - 1) as nat;
        let (v, e1) = ev_expr(es[i as int], env, fid, names, g);
        ev_list(es, i + 1, acc.push(v), e1, fid, names, g)
    }
}

/// The hash map of the entries from position `i` on added to `acc`; each key is
/// evaluated before its value, and a key that is not hashable ends with an error.
pub open spec fn ev_hash(pairs: Seq<(SExpr, SExpr)>, i: nat, acc: Seq<(Seq<char>, SObj)>, env: SEnv, fid: nat, names: Seq<Seq<char>>, f: nat) -> (SObj, SEnv)
    decreases f, 2nat,
{
    if f == 0 {
        (SObj::Error(limit_text()), env)
    } else if i >= pairs.len() {
        (SObj::HashMap(acc), env)
    } else {
        let g = (f - 1) as nat;
        let (k, e1) = ev_expr(pairs[i as int].0, env, fid, names, g);
        match spec_hash(k) {
            None => (SObj::Error("Key is not hashable, got "@ + obj_text(k, names)), e1),
            Some(key) => {
                let (v, e2) = ev_expr(pairs[i as int].1, e1, fid, names, g);
                ev_hash(pairs, i + 1, entry_insert(acc, key, v), e2, fid, names, g)
            },
        }
    }
}

/// A block from statement `i` on: the value of its last statement (`acc` before
/// any), or the first return value, which ends it.
pub open spec fn ev_block(stmts: Seq<SStmt>, i: nat, acc: SObj, env: SEnv, fid: nat, names: Seq<Seq<char>>, f: nat) -> (SObj, SEnv)
    decreases f, 3nat,
{
    if f == 0 {
        (SObj::Error(limit_text()), env)
    } else if i >= stmts.len() {
        (acc, env)
    } else {
        let g = (f - 1) as nat;
        let (r, e1) = ev_stmt(stmts[i as int], env, fid, names, g);
        if r is Return {
            (r, e1)
        } else {
            ev_block(stmts, i + 1, r, e1, fid, names, g)
        }
    }
}

/// A function body from statement `i` on: the value of the first return statement,
/// unwrapped, or nothing when no statement returns.
pub open spec fn ev_fn_block(stmts: Seq<SStmt>, i: nat, env: SEnv, fid: nat, names: Seq<Seq<char>>, f: nat) -> (Option<SObj>, SEnv)
    decreases f, 3nat,
{
    if f == 0 {
        (Some(SObj::Error(limit_text())), env)
    } else if i >= stmts.len() {
        (None, env)
    } else {
        let g = (f - 1) as nat;
        let (r, e1) = ev_stmt(stmts[i as int], env, fid, names, g);
        if r is Return {
            (Some(unwrap_ret(r)), e1)
        } else {
            ev_fn_block(stmts, i + 1, e1, fid, names, g)
        }
    }
}

/// The value of a statement evaluated in frame `fid`, and the environment afterwards.
pub open spec fn ev_stmt(s: SStmt, env: SEnv, fid: nat, names: Seq<Seq<char>>, f: nat) -> (SObj, SEnv)
    decreases f, 5nat,
{
    match s {
        SStmt::Expression(e) => ev_expr(e, env, fid, names, f),
        SStmt::Return(e) => {
            let (v, e1) = ev_expr(e, env, fid, names, f);
            (SObj::Return(Box::new(v)), e1)
        },
        SStmt::Let(i, e) => {
            let (v, e1) = ev_expr(e, env, fid, names, f);
            (v, env_set(e1, fid, i, v))
        },
        SStmt::Assignment(i, e) => {
            let (v, e1) = ev_expr(e, env, fid, names, f);
            match env_get(e1, fid, i) {
                Some(_) => (v, env_set(e1, fid, i, v)),
                None => (SObj::Error("Identifier not found: "@ + spec_name(names, i)), e1),
            }
        },
        SStmt::Error(m) => (SObj::Error(m), env),
        SStmt::While { condition, body } => ev_while(condition, body, env, fid, names, f),
    }
}

/// A while loop: the body runs while the condition is `true`; the loop's value is
/// `None`.
pub open spec fn ev_while(c: SExpr, body: Seq<SStmt>, env: SEnv, fid: nat, names: Seq<Seq<char>>, f: nat) -> (SObj, SEnv)
    decreases f, 4nat,
{
    if f == 0 {
        (SObj::Error(limit_text()), env)
    } else {
        let g = (f - 1) as nat;
        let (v, e1) = ev_expr(c, env, fid, names, g);
        if v == SObj::Boolean(true) {
            let (r, e2) = ev_block(body, 0, SObj::Nil, e1, fid, names, g);
            ev_while(c, body, e2, fid, names, g)
        } else {
            (SObj::Nil, e1)
        }
    }
}

/// A program from statement `i` on, in the global frame: the value of the last
/// statement run, which is the first return value if there is one.
pub open spec fn ev_program(stmts: Seq<SStmt>, i: nat, acc: SObj, env: SEnv, names: Seq<Seq<char>>) -> (SObj, SEnv)
    decreases stmts.len() - i,
{
    if i >= stmts.len() {
        (acc, env)
    } else {
        let (r, e1) = ev_stmt(stmts[i as int], env, 0, names, EVAL_FUEL as nat);
        if r is Return {
            (r, e1)
        } else {
            ev_program(stmts, i + 1, r, e1, names)
        }
    }
}

} // verus!
