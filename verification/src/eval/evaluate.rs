//! The tree-walking evaluator, proved to compute what `semantics` says.
use vstd::prelude::*;
use crate::intern::interner::{Interner, Symbol};
use crate::ast::literal::Literal;
use crate::ast::expression::{Expression, Operator, Prefix, op_string, copy_symbols};
use crate::ast::statement::Statement;
use crate::eval::object::{Object, HashKey, Builtin, CustomHash};
use crate::eval::env::Environment;
use crate::eval::program::Program;
use crate::eval::semantics::{EVAL_FUEL, limit_text, lit_obj, unwrap_ret, checked_pow_spec, prefix_obj, infix_error, checked_number, infix_obj, entry_index, entry_get, entry_insert, index_obj, dot_obj, bind_params, builtin_call, ev_expr, ev_prefix, ev_infix, ev_if, ev_call, ev_apply, ev_index, ev_dot, ev_list, ev_hash, ev_block, ev_fn_block, ev_stmt, ev_while, ev_program};
use crate::eval::object::{SObj, list_debug};
use crate::ast::expression::pretty_expr;
use crate::text::{push_str, string_of, copy_string, string_eq, int_to_string, nat_to_string, join};

verus! {

/// `i64::checked_pow`: `base` raised to `exp`, or `None` when the result does not
/// fit in an `i64`.
#[verifier::external_body]
fn checked_pow(base: i64, exp: u32) -> (r: Option<i64>)
    ensures
        r == checked_pow_spec(base, exp),
{
    base.checked_pow(exp)
}

fn limit_error() -> (r: Object)
    ensures
        r@ == SObj::Error(limit_text()),
{
    Object::Error(string_of("evaluation limit reached"))
}

/// An error whose message is `a` followed by `b`.
fn error2(a: &str, b: &str) -> (r: Object)
    ensures
        r@ == SObj::Error(a@ + b@),
{
    let mut m = string_of(a);
    push_str(&mut m, b);
    Object::Error(m)
}

fn lit_eval(l: &Literal) -> (r: Object)
    ensures
        r@ == lit_obj(l@),
{
    match l {
        Literal::Number(n) => Object::Number(*n),
        Literal::String(s) => Object::String(copy_string(s)),
        Literal::Boolean(b) => Object::Boolean(*b),
    }
}

fn unwrap_return(o: Object) -> (r: Object)
    ensures
        r@ == unwrap_ret(o@),
    decreases o,
{
    match o {
        Object::Return(b) => unwrap_return(*b),
        other => other,
    }
}

fn prefix_eval(p: Prefix, r: Object, interner: &Interner) -> (o: Object)
    ensures
        o@ == prefix_obj(p, r@, interner@),
{
    match p {
        Prefix::Bang => match r {
            Object::Boolean(b) => Object::Boolean(!b),
            _ => {
                let t = r.text(interner);
                error2("expected Boolean, got: ", t.as_str())
            },
        },
        Prefix::Minus => match r {
            Object::Number(n) => match 0i64.checked_sub(n) {
                Some(m) => Object::Number(m),
                None => {
                    let t = r.text(interner);
                    error2("Can only perform operation - on (numbers), got: ", t.as_str())
                },
            },
            _ => {
                let t = r.text(interner);
                error2("expected Number, got: ", t.as_str())
            },
        },
    }
}

fn make_infix_error(op: Operator, accepts: &str, l: &Object, r: &Object, interner: &Interner) -> (o: Object)
    ensures
        o@ == infix_error(op, accepts@, l@, r@, interner@),
{
    let mut m = string_of("Can only perform operation ");
    push_str(&mut m, op_string(op));
    push_str(&mut m, " on ");
    push_str(&mut m, accepts);
    push_str(&mut m, ", got: ");
    let lt = l.text(interner);
    push_str(&mut m, lt.as_str());
    push_str(&mut m, " and ");
    let rt = r.text(interner);
    push_str(&mut m, rt.as_str());
    push_str(&mut m, " ");
    Object::Error(m)
}

fn number_or_error(c: Option<i64>, op: Operator, l: &Object, r: &Object, interner: &Interner) -> (o: Object)
    ensures
        o@ == checked_number(c, op, l@, r@, interner@),
{
    match c {
        Some(v) => Object::Number(v),
        None => make_infix_error(op, "(numbers)", l, r, interner),
    }
}

/// The value of `l op r`, for operands whose return values were unwrapped.
pub fn infix_eval(op: Operator, l: &Object, r: &Object, interner: &Interner) -> (o: Object)
    ensures
        o@ == infix_obj(op, l@, r@, interner@),
{
    match (l, r) {
        (Object::Number(a), Object::Number(b)) => {
            let a = *a;
            let b = *b;
            match op {
                Operator::Plus => number_or_error(a.checked_add(b), op, l, r, interner),
                Operator::Minus => number_or_error(a.checked_sub(b), op, l, r, interner),
                Operator::Multiply => number_or_error(a.checked_mul(b), op, l, r, interner),
                Operator::Divide => number_or_error(a.checked_div(b), op, l, r, interner),
                Operator::GreaterThan => Object::Boolean(a > b),
                Operator::LessThan => Object::Boolean(a < b),
                Operator::GreaterThanOrEqual => Object::Boolean(a >= b),
                Operator::LessThanOrEqual => Object::Boolean(a <= b),
                Operator::Equal => Object::Boolean(a == b),
                Operator::NotEqual => Object::Boolean(a != b),
                Operator::And => make_infix_error(op, "(numbers | boolean)", l, r, interner),
                Operator::Or => make_infix_error(op, "(numbers | boolean)", l, r, interner),
                Operator::Exponent => number_or_error(checked_pow(a, b as u32), op, l, r, interner),
            }
        },
        (Object::Boolean(a), Object::Boolean(b)) => {
            let a = *a;
            let b = *b;
            match op {
                Operator::Equal => Object::Boolean(a == b),
                Operator::NotEqual => Object::Boolean(a != b),
                Operator::And => Object::Boolean(a && b),
                Operator::Or => Object::Boolean(a || b),
                Operator::Exponent => make_infix_error(op, "(numbers | boolean)", l, r, interner),
                _ => make_infix_error(op, "numbers", l, r, interner),
            }
        },
        _ => match op {
            Operator::Equal => make_infix_error(op, "(numbers | boolean)", l, r, interner),
            Operator::NotEqual => make_infix_error(op, "(numbers | boolean)", l, r, interner),
            Operator::And => make_infix_error(op, "(numbers | boolean)", l, r, interner),
            Operator::Or => make_infix_error(op, "(numbers | boolean)", l, r, interner),
            Operator::Exponent => make_infix_error(op, "(numbers | boolean)", l, r, interner),
            _ => make_infix_error(op, "numbers", l, r, interner),
        },
    }
}

/// The position of key `k` among the entries, if it is there.
fn entry_find(ps: &Vec<(HashKey, Object)>, k: &String) -> (r: Option<usize>)
    ensures
        match r {
            Some(i) => i < ps@.len() && entry_index(Object::view_pairs(ps@), k@) == i,
            None => entry_index(Object::view_pairs(ps@), k@) == -1,
        },
{
    let ghost vp = Object::view_pairs(ps@);
    proof { Object::lemma_view_pairs(ps@); }
    let mut i = ps.len();
    assert(vp.subrange(0, i as int) =~= vp);
    while i > 0
        invariant
            i <= ps.len(),
            vp == Object::view_pairs(ps@),
            vp.len() == ps@.len(),
            forall|j: int| 0 <= j < ps@.len() ==> #[trigger] vp[j] == (ps@[j].0.value@, ps@[j].1@),
            entry_index(vp, k@) == entry_index(vp.subrange(0, i as int), k@),
        decreases i,
    {
        let ghost sub = vp.subrange(0, i as int);
        assert(sub.drop_last() =~= vp.subrange(0, i - 1));
        assert(sub.last() == vp[i - 1]);
        if string_eq(&ps[i - 1].0.value, k) {
            return Some(i - 1);
        }
        i -= 1;
    }
    assert(vp.subrange(0, 0) =~= Seq::<(Seq<char>, SObj)>::empty());
    None
}

/// Stores `v` under `k`, replacing the entry for `k` if there is one.
fn entry_put(ps: &mut Vec<(HashKey, Object)>, k: String, v: Object)
    ensures
        Object::view_pairs(final(ps)@) == entry_insert(Object::view_pairs(old(ps)@), k@, v@),
{
    match entry_find(ps, &k) {
        Some(i) => {
            proof { Object::lemma_view_pairs_update(ps@, i as int, (HashKey { value: k }, v)); }
            ps.set(i, (HashKey { value: k }, v));
        },
        None => {
            proof { Object::lemma_view_pairs_push(ps@, (HashKey { value: k }, v)); }
            ps.push((HashKey { value: k }, v));
        },
    }
}

/// The value stored under `k`.
fn entry_value(ps: &Vec<(HashKey, Object)>, k: &String) -> (r: Object)
    ensures
        r@ == (match entry_get(Object::view_pairs(ps@), k@) { Some(v) => v, None => SObj::Nil }),
{
    proof { Object::lemma_view_pairs(ps@); }
    match entry_find(ps, k) {
        Some(i) => ps[i].1.copy(),
        None => Object::Nil,
    }
}

fn invalid_index(idx: &Vec<Object>) -> (r: Object)
    ensures
        r@ == SObj::Error("invalid index, got "@ + list_debug(Object::view_seq(idx@))),
{
    let t = Object::list_debug_text(idx);
    error2("invalid index, got ", t.as_str())
}

/// The value of `a[b]`.
pub fn index_eval(a: &Object, b: &Object) -> (r: Object)
    ensures
        r@ == index_obj(a@, b@),
{
    match (a, b) {
        (Object::Array(arr), Object::Array(idx)) => {
            proof { Object::lemma_view_seq(idx@); Object::lemma_view_seq(arr@); }
            if idx.len() != 1 {
                return invalid_index(idx);
            }
            match &idx[0] {
                Object::Number(n) => {
                    let n = *n;
                    if 0 <= n && (n as u64) < (arr.len() as u64) {
                        arr[n as usize].copy()
                    } else {
                        Object::Nil
                    }
                },
                _ => invalid_index(idx),
            }
        },
        (Object::HashMap { pairs }, Object::Array(idx)) => {
            proof { Object::lemma_view_seq(idx@); }
            if idx.len() != 1 {
                return invalid_index(idx);
            }
            match idx[0].hash() {
                Some(k) => entry_value(pairs, &k.value),
                None => {
                    let t = Object::list_debug_text(idx);
                    error2("Index is not hashable, got ", t.as_str())
                },
            }
        },
        _ => {
            let mut m = string_of("not supported, got: ");
            let x = a.debug_text();
            push_str(&mut m, x.as_str());
            push_str(&mut m, ", ");
            let y = b.debug_text();
            push_str(&mut m, y.as_str());
            Object::Error(m)
        },
    }
}

/// The value of `x.attr`, where `a` is the value of `x`.
pub fn dot_eval(a: &Object, attr: Symbol, x: &Expression, interner: &Interner) -> (r: Object)
    ensures
        r@ == dot_obj(a@, attr, x@, interner@),
{
    match a {
        Object::HashMap { pairs } => {
            let k = interner.name_of(attr);
            entry_value(pairs, &k)
        },
        _ => {
            let mut m = string_of("Cannot read ");
            push_str(&mut m, "Symbol(");
            let n = nat_to_string(attr.0 as u64);
            push_str(&mut m, n.as_str());
            push_str(&mut m, ")");
            push_str(&mut m, " propertie of ");
            let t = x.pretty(interner);
            push_str(&mut m, t.as_str());
            Object::Error(m)
        },
    }
}

/// Binds the parameters to the arguments in frame `frame`; the first parameter
/// without an argument, if any.
fn bind_parameters(params: &Vec<Symbol>, args: &Vec<Object>, env: &mut Environment, frame: usize) -> (r: Option<usize>)
    ensures
        (match r { Some(i) => Some(i as nat), None => None }, final(env)@)
            == bind_params(params@, Object::view_seq(args@), 0, old(env)@, frame as nat),
{
    proof { Object::lemma_view_seq(args@); }
    let ghost av = Object::view_seq(args@);
    let ghost target = bind_params(params@, av, 0, env@, frame as nat);
    let mut i: usize = 0;
    while i < params.len()
        invariant
            i <= params.len(),
            av == Object::view_seq(args@),
            av.len() == args@.len(),
            forall|j: int| 0 <= j < args@.len() ==> #[trigger] av[j] == args@[j]@,
            target == bind_params(params@, av, 0, old(env)@, frame as nat),
            bind_params(params@, av, i as nat, env@, frame as nat) == target,
        decreases params.len() - i,
    {
        if i >= args.len() {
            return Some(i);
        }
        env.set(frame, params[i], args[i].copy());
        i += 1;
    }
    None
}

/// What builtin `b` returns for `args`.
pub fn call_builtin(b: Builtin, args: &Vec<Object>, env: &mut Environment, interner: &Interner) -> (r: Object)
    ensures
        (r@, final(env)@) == builtin_call(b, Object::view_seq(args@), old(env)@, interner@),
{
    proof { Object::lemma_view_seq(args@); }
    match b {
        Builtin::Print => {
            let ts = Object::text_vec(args, interner);
            let line = join(&ts, " ");
            env.print_line(line);
            return Object::Nil;
        },
        _ => {},
    }
    if args.len() != 1 {
        let t = Object::list_debug_text(args);
        let head = match b {
            Builtin::Len => "'len' does not accept more than 1 argument, got: ",
            Builtin::First => "'first' does not accept more than 1 argument, got: ",
            _ => "'last' does not accept more than 1 argument, got: ",
        };
        return error2(head, t.as_str());
    }
    match (b, &args[0]) {
        (Builtin::Len, Object::String(s)) => {
            let n = s.as_str().len();
            Object::Number(n as i64)
        },
        (Builtin::Len, Object::Array(a)) => {
            proof { Object::lemma_view_seq(a@); }
            Object::Number(a.len() as i64)
        },
        (Builtin::First, Object::Array(a)) => {
            proof { Object::lemma_view_seq(a@); }
            if a.len() == 0 { Object::Nil } else { a[0].copy() }
        },
        (Builtin::Last, Object::Array(a)) => {
            proof { Object::lemma_view_seq(a@); }
            if a.len() == 0 { Object::Nil } else { a[a.len() - 1].copy() }
        },
        _ => {
            let t = Object::list_debug_text(args);
            error2("invalid argument, got: ", t.as_str())
        },
    }
}

impl Expression {
    /// The value of this expression in frame `frame`, evaluating at most `fuel` levels deep.
    pub fn eval_fuel(&self, env: &mut Environment, frame: usize, interner: &Interner, fuel: u64) -> (r: Object)
        ensures
            (r@, final(env)@) == ev_expr(self@, old(env)@, frame as nat, interner@, fuel as nat),
        decreases fuel, 0nat,
    {
        if fuel == 0 {
            return limit_error();
        }
        let g = fuel - 1;
        match self {
            Expression::Error(s) => Object::Error(copy_string(s)),
            Expression::Literal(l) => lit_eval(l),
            Expression::Identifier(i) => match env.get(frame, *i) {
                Some(o) => o,
                None => {
                    let n = interner.name_of(*i);
                    error2("identifier not found: ", n.as_str())
                },
            },
            Expression::Prefix(p, x) => eval_prefix(*p, &**x, env, frame, interner, g),
            Expression::Infix(op, l, r) => eval_infix(*op, &**l, &**r, env, frame, interner, g),
            Expression::If { condition, consequence, alternative } =>
                eval_if(&**condition, consequence, alternative, env, frame, interner, g),
            Expression::Function { identifier, parameters, body } => {
                let fun = Object::Function {
                    name: *identifier,
                    parameters: copy_symbols(parameters),
                    body: Statement::copy_vec(body),
                    env: frame,
                };
                match identifier {
                    Some(i) => { env.set(frame, *i, fun.copy()); },
                    None => {},
                }
                fun
            },
            Expression::Call { function, arguments } => eval_call(self, &**function, arguments, env, frame, interner, g),
            Expression::Array(es) => Object::Array(eval_list(es, env, frame, interner, g)),
            Expression::Index { left, index } => eval_index(&**left, &**index, env, frame, interner, g),
            Expression::HashMap { pairs } => eval_hash(pairs, env, frame, interner, g),
            Expression::Dot { identifier, attribute } => eval_dot(&**identifier, *attribute, env, frame, interner, g),
        }
    }
}

fn eval_prefix(p: Prefix, x: &Expression, env: &mut Environment, frame: usize, interner: &Interner, fuel: u64) -> (r: Object)
    ensures
        (r@, final(env)@) == ev_prefix(p, x@, old(env)@, frame as nat, interner@, fuel as nat),
    decreases fuel, 5nat,
{
    let v = x.eval_fuel(env, frame, interner, fuel);
    prefix_eval(p, v, interner)
}

fn eval_infix(op: Operator, l: &Expression, r: &Expression, env: &mut Environment, frame: usize, interner: &Interner, fuel: u64) -> (o: Object)
    ensures
        (o@, final(env)@) == ev_infix(op, l@, r@, old(env)@, frame as nat, interner@, fuel as nat),
    decreases fuel, 5nat,
{
    let a = l.eval_fuel(env, frame, interner, fuel);
    let b = r.eval_fuel(env, frame, interner, fuel);
    let a = unwrap_return(a);
    let b = unwrap_return(b);
    infix_eval(op, &a, &b, interner)
}

fn eval_if(c: &Expression, cons: &Vec<Statement>, alt: &Option<Vec<Statement>>, env: &mut Environment, frame: usize, interner: &Interner, fuel: u64) -> (r: Object)
    ensures
        (r@, final(env)@) == ev_if(c@, Statement::view_seq(cons@),
            match alt { Some(a) => Some(Statement::view_seq(a@)), None => None },
            old(env)@, frame as nat, interner@, fuel as nat),
    decreases fuel, 5nat,
{
    let v = c.eval_fuel(env, frame, interner, fuel);
    match v {
        Object::Boolean(true) => run_block(cons, env, frame, interner, fuel),
        Object::Boolean(false) => match alt {
            Some(a) => run_block(a, env, frame, interner, fuel),
            None => Object::Nil,
        },
        _ => Object::Error(string_of("condition did not evaluate to boolean")),
    }
}

fn eval_call(call: &Expression, function: &Expression, arguments: &Vec<Expression>, env: &mut Environment, frame: usize, interner: &Interner, fuel: u64) -> (r: Object)
    ensures
        (r@, final(env)@) == ev_call(call@, function@, Expression::view_seq(arguments@), old(env)@, frame as nat, interner@, fuel as nat),
    decreases fuel, 5nat,
{
    let fv = function.eval_fuel(env, frame, interner, fuel);
    let args = eval_list(arguments, env, frame, interner, fuel);
    apply(fv, &args, env, interner, call, fuel)
}

/// Applies `fv` to `args`; `call` is the call expression, for the error message.
fn apply(fv: Object, args: &Vec<Object>, env: &mut Environment, interner: &Interner, call: &Expression, fuel: u64) -> (r: Object)
    ensures
        (r@, final(env)@) == ev_apply(fv@, Object::view_seq(args@), old(env)@, interner@, pretty_expr(call@, interner@), fuel as nat),
    decreases fuel, 4nat,
{
    match fv {
        Object::Function { name, parameters, body, env: closure } => {
            let nf = env.new_enclosed(closure);
            match bind_parameters(&parameters, args, env, nf) {
                Some(i) => {
                    let n = nat_to_string(i as u64);
                    error2("Missing parameter: ", n.as_str())
                },
                None => match run_fn_block(&body, env, nf, interner, fuel) {
                    Some(o) => o,
                    None => Object::Nil,
                },
            }
        },
        Object::Builtin { func } => call_builtin(func, args, env, interner),
        _ => {
            let mut m = string_of("not a valid call ");
            let t = call.pretty(interner);
            push_str(&mut m, t.as_str());
            push_str(&mut m, " ");
            Object::Error(m)
        },
    }
}

fn eval_index(l: &Expression, i: &Expression, env: &mut Environment, frame: usize, interner: &Interner, fuel: u64) -> (r: Object)
    ensures
        (r@, final(env)@) == ev_index(l@, i@, old(env)@, frame as nat, interner@, fuel as nat),
    decreases fuel, 5nat,
{
    let a = l.eval_fuel(env, frame, interner, fuel);
    let b = i.eval_fuel(env, frame, interner, fuel);
    index_eval(&a, &b)
}

fn eval_dot(x: &Expression, attr: Symbol, env: &mut Environment, frame: usize, interner: &Interner, fuel: u64) -> (r: Object)
    ensures
        (r@, final(env)@) == ev_dot(x@, attr, old(env)@, frame as nat, interner@, fuel as nat),
    decreases fuel, 5nat,
{
    let a = x.eval_fuel(env, frame, interner, fuel);
    dot_eval(&a, attr, x, interner)
}

/// The values of a list of expressions, evaluated from left to right.
fn eval_list(es: &Vec<Expression>, env: &mut Environment, frame: usize, interner: &Interner, fuel: u64) -> (r: Vec<Object>)
    ensures
        (Object::view_seq(r@), final(env)@) == ev_list(Expression::view_seq(es@), 0, Seq::empty(), old(env)@, frame as nat, interner@, fuel as nat),
    decreases fuel, 2nat,
{
    proof { Expression::lemma_view_seq(es@); }
    let ghost ev = Expression::view_seq(es@);
    let ghost target = ev_list(ev, 0, Seq::empty(), env@, frame as nat, interner@, fuel as nat);
    let mut acc: Vec<Object> = Vec::new();
    let mut i: usize = 0;
    let mut f = fuel;
    assert(Object::view_seq(acc@) =~= Seq::<SObj>::empty());
    loop
        invariant
            f <= fuel,
            ev == Expression::view_seq(es@),
            ev.len() == es@.len(),
            forall|j: int| 0 <= j < es@.len() ==> #[trigger] ev[j] == es@[j]@,
            target == ev_list(ev, 0, Seq::empty(), old(env)@, frame as nat, interner@, fuel as nat),
            ev_list(ev, i as nat, Object::view_seq(acc@), env@, frame as nat, interner@, f as nat) == target,
        decreases f,
    {
        if f == 0 || i >= es.len() {
            return acc;
        }
        let v = es[i].eval_fuel(env, frame, interner, f - 1);
        proof { Object::lemma_view_seq_push(acc@, v); }
        acc.push(v);
        i += 1;
        f -= 1;
    }
}

fn eval_hash(pairs: &Vec<(Expression, Expression)>, env: &mut Environment, frame: usize, interner: &Interner, fuel: u64) -> (r: Object)
    ensures
        (r@, final(env)@) == ev_hash(Expression::view_pairs(pairs@), 0, Seq::empty(), old(env)@, frame as nat, interner@, fuel as nat),
    decreases fuel, 2nat,
{
    proof { Expression::lemma_view_pairs(pairs@); }
    let ghost pv = Expression::view_pairs(pairs@);
    let ghost target = ev_hash(pv, 0, Seq::empty(), env@, frame as nat, interner@, fuel as nat);
    let mut acc: Vec<(HashKey, Object)> = Vec::new();
    let mut i: usize = 0;
    let mut f = fuel;
    assert(Object::view_pairs(acc@) =~= Seq::<(Seq<char>, SObj)>::empty());
    loop
        invariant
            f <= fuel,
            pv == Expression::view_pairs(pairs@),
            pv.len() == pairs@.len(),
            forall|j: int| 0 <= j < pairs@.len() ==> #[trigger] pv[j] == (pairs@[j].0@, pairs@[j].1@),
            target == ev_hash(pv, 0, Seq::empty(), old(env)@, frame as nat, interner@, fuel as nat),
            ev_hash(pv, i as nat, Object::view_pairs(acc@), env@, frame as nat, interner@, f as nat) == target,
        decreases f,
    {
        if f == 0 {
            return limit_error();
        }
        if i >= pairs.len() {
            return Object::HashMap { pairs: acc };
        }
        let g = f - 1;
        let k = pairs[i].0.eval_fuel(env, frame, interner, g);
        match k.hash() {
            None => {
                let t = k.text(interner);
                return error2("Key is not hashable, got ", t.as_str());
            },
            Some(key) => {
                let v = pairs[i].1.eval_fuel(env, frame, interner, g);
                entry_put(&mut acc, key.value, v);
            },
        }
        i += 1;
        f = g;
    }
}

/// Runs a block: the value of its last statement, or the first return value.
fn run_block(stmts: &Vec<Statement>, env: &mut Environment, frame: usize, interner: &Interner, fuel: u64) -> (r: Object)
    ensures
        (r@, final(env)@) == ev_block(Statement::view_seq(stmts@), 0, SObj::Nil, old(env)@, frame as nat, interner@, fuel as nat),
    decreases fuel, 3nat,
{
    proof { Statement::lemma_view_seq(stmts@); }
    let ghost sv = Statement::view_seq(stmts@);
    let ghost target = ev_block(sv, 0, SObj::Nil, env@, frame as nat, interner@, fuel as nat);
    let mut acc = Object::Nil;
    let mut i: usize = 0;
    let mut f = fuel;
    loop
        invariant
            f <= fuel,
            sv == Statement::view_seq(stmts@),
            sv.len() == stmts@.len(),
            forall|j: int| 0 <= j < stmts@.len() ==> #[trigger] sv[j] == stmts@[j]@,
            target == ev_block(sv, 0, SObj::Nil, old(env)@, frame as nat, interner@, fuel as nat),
            ev_block(sv, i as nat, acc@, env@, frame as nat, interner@, f as nat) == target,
        decreases f,
    {
        if f == 0 {
            return limit_error();
        }
        if i >= stmts.len() {
            return acc;
        }
        let r = stmts[i].eval_fuel(env, frame, interner, f - 1);
        if let Object::Return(_) = r {
            return r;
        }
        acc = r;
        i += 1;
        f -= 1;
    }
}

/// Runs a function body: the value of the first return statement, unwrapped.
fn run_fn_block(stmts: &Vec<Statement>, env: &mut Environment, frame: usize, interner: &Interner, fuel: u64) -> (r: Option<Object>)
    ensures
        (match r { Some(o) => Some(o@), None => None }, final(env)@)
            == ev_fn_block(Statement::view_seq(stmts@), 0, old(env)@, frame as nat, interner@, fuel as nat),
    decreases fuel, 3nat,
{
    proof { Statement::lemma_view_seq(stmts@); }
    let ghost sv = Statement::view_seq(stmts@);
    let ghost target = ev_fn_block(sv, 0, env@, frame as nat, interner@, fuel as nat);
    let mut i: usize = 0;
    let mut f = fuel;
    loop
        invariant
            f <= fuel,
            sv == Statement::view_seq(stmts@),
            sv.len() == stmts@.len(),
            forall|j: int| 0 <= j < stmts@.len() ==> #[trigger] sv[j] == stmts@[j]@,
            target == ev_fn_block(sv, 0, old(env)@, frame as nat, interner@, fuel as nat),
            ev_fn_block(sv, i as nat, env@, frame as nat, interner@, f as nat) == target,
        decreases f,
    {
        if f == 0 {
            return Some(limit_error());
        }
        if i >= stmts.len() {
            return None;
        }
        let r = stmts[i].eval_fuel(env, frame, interner, f - 1);
        if let Object::Return(_) = r {
            return Some(unwrap_return(r));
        }
        i += 1;
        f -= 1;
    }
}

fn eval_while(c: &Expression, body: &Vec<Statement>, env: &mut Environment, frame: usize, interner: &Interner, fuel: u64) -> (r: Object)
    ensures
        (r@, final(env)@) == ev_while(c@, Statement::view_seq(body@), old(env)@, frame as nat, interner@, fuel as nat),
    decreases fuel, 4nat,
{
    let ghost bv = Statement::view_seq(body@);
    let ghost target = ev_while(c@, bv, env@, frame as nat, interner@, fuel as nat);
    let mut f = fuel;
    loop
        invariant
            f <= fuel,
            bv == Statement::view_seq(body@),
            target == ev_while(c@, bv, old(env)@, frame as nat, interner@, fuel as nat),
            ev_while(c@, bv, env@, frame as nat, interner@, f as nat) == target,
        decreases f,
    {
        if f == 0 {
            return limit_error();
        }
        let g = f - 1;
        let v = c.eval_fuel(env, frame, interner, g);
        match v {
            Object::Boolean(true) => {
                let _ = run_block(body, env, frame, interner, g);
            },
            _ => {
                return Object::Nil;
            },
        }
        f = g;
    }
}

impl Statement {
    /// The value of this statement in frame `frame`, evaluating at most `fuel` levels deep.
    pub fn eval_fuel(&self, env: &mut Environment, frame: usize, interner: &Interner, fuel: u64) -> (r: Object)
        ensures
            (r@, final(env)@) == ev_stmt(self@, old(env)@, frame as nat, interner@, fuel as nat),
        decreases fuel, 5nat,
    {
        match self {
            Statement::Expression(e) => e.eval_fuel(env, frame, interner, fuel),
            Statement::Return(e) => {
                let v = e.eval_fuel(env, frame, interner, fuel);
                Object::Return(Box::new(v))
            },
            Statement::Let(i, e) => {
                let v = e.eval_fuel(env, frame, interner, fuel);
                env.set(frame, *i, v.copy());
                v
            },
            Statement::Assignment(i, e) => {
                let v = e.eval_fuel(env, frame, interner, fuel);
                match env.get(frame, *i) {
                    Some(_) => {
                        env.set(frame, *i, v.copy());
                        v
                    },
                    None => {
                        let n = interner.name_of(*i);
                        error2("Identifier not found: ", n.as_str())
                    },
                }
            },
            Statement::Error(m) => Object::Error(copy_string(m)),
            Statement::While { condition, body } => eval_while(condition, body, env, frame, interner, fuel),
        }
    }

    /// The value of this statement in frame `frame`.
    pub fn eval(&self, env: &mut Environment, frame: usize, interner: &Interner) -> (r: Object)
        ensures
            (r@, final(env)@) == ev_stmt(self@, old(env)@, frame as nat, interner@, EVAL_FUEL as nat),
    {
        self.eval_fuel(env, frame, interner, EVAL_FUEL)
    }
}

impl Expression {
    /// The value of this expression in frame `frame`.
    pub fn eval(&self, env: &mut Environment, frame: usize, interner: &Interner) -> (r: Object)
        ensures
            (r@, final(env)@) == ev_expr(self@, old(env)@, frame as nat, interner@, EVAL_FUEL as nat),
    {
        self.eval_fuel(env, frame, interner, EVAL_FUEL)
    }
}

/// Runs a block in frame `frame`: the value of its last statement, or the first
/// return value, still wrapped.
pub fn eval_block(block: &Vec<Statement>, env: &mut Environment, frame: usize, interner: &Interner) -> (r: Object)
    ensures
        (r@, final(env)@) == ev_block(Statement::view_seq(block@), 0, SObj::Nil, old(env)@, frame as nat, interner@, EVAL_FUEL as nat),
{
    run_block(block, env, frame, interner, EVAL_FUEL)
}

/// Runs a function body in frame `frame`: the value of the first return
/// statement, unwrapped, or `None` when no statement returns.
pub fn eval_function_block(block: &Vec<Statement>, env: &mut Environment, frame: usize, interner: &Interner) -> (r: Option<Object>)
    ensures
        (match r { Some(o) => Some(o@), None => None }, final(env)@)
            == ev_fn_block(Statement::view_seq(block@), 0, old(env)@, frame as nat, interner@, EVAL_FUEL as nat),
{
    run_fn_block(block, env, frame, interner, EVAL_FUEL)
}

impl Program {
    /// Runs the statements in the global frame until one returns; the value of the
    /// last statement run.
    pub fn eval_statements(&self, env: &mut Environment, interner: &mut Interner) -> (r: Object)
        ensures
            final(interner)@ == old(interner)@,
            (r@, final(env)@) == ev_program(self@, 0, SObj::Nil, old(env)@, old(interner)@),
    {
        proof { Statement::lemma_view_seq(self.statements@); }
        let ghost sv = self@;
        let ghost target = ev_program(sv, 0, SObj::Nil, env@, interner@);
        let mut result = Object::Nil;
        let mut i: usize = 0;
        while i < self.statements.len()
            invariant
                i <= self.statements@.len(),
                sv == self@,
                sv.len() == self.statements@.len(),
                forall|j: int| 0 <= j < self.statements@.len() ==> #[trigger] sv[j] == self.statements@[j]@,
                target == ev_program(sv, 0, SObj::Nil, old(env)@, old(interner)@),
                interner@ == old(interner)@,
                ev_program(sv, i as nat, result@, env@, interner@) == target,
            decreases self.statements@.len() - i,
        {
            result = self.statements[i].eval(env, 0, interner);
            if let Object::Return(_) = result {
                return result;
            }
            i += 1;
        }
        result
    }
}

} // verus!
