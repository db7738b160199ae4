//! The ordering of expressions that keys of hash map literals are sorted by:
//! variants in declaration order, then fields from first to last, sequences
//! lexicographically, text by character codes.
use vstd::prelude::*;
use crate::intern::interner::Symbol;
use crate::ast::literal::{Literal, SLit};
use crate::ast::expression::{Expression, SExpr, Operator, Prefix};
use crate::ast::statement::{Statement, SStmt};

verus! {

pub open spec fn order_int(a: int, b: int) -> int {
    if a < b { -1 } else if a > b { 1 } else { 0 }
}

/// Lexicographic combination: `c` unless it is a tie, then `d`.
pub open spec fn then(c: int, d: int) -> int {
    if c != 0 { c } else { d }
}

pub open spec fn order_bool(a: bool, b: bool) -> int {
    order_int(if a { 1 } else { 0 }, if b { 1 } else { 0 })
}

pub open spec fn order_chars(a: Seq<char>, b: Seq<char>) -> int
    decreases a.len(),
{
    if a.len() == 0 {
        if b.len() == 0 { 0 } else { -1 }
    } else if b.len() == 0 {
        1
    } else {
        then(order_int(a[0] as int, b[0] as int), order_chars(a.drop_first(), b.drop_first()))
    }
}

pub open spec fn lit_tag(l: SLit) -> int {
    match l {
        SLit::Number(_) => 0,
        SLit::Str(_) => 1,
        SLit::Boolean(_) => 2,
    }
}

pub open spec fn order_lit(a: SLit, b: SLit) -> int {
    match (a, b) {
        (SLit::Number(x), SLit::Number(y)) => order_int(x as int, y as int),
        (SLit::Str(x), SLit::Str(y)) => order_chars(x, y),
        (SLit::Boolean(x), SLit::Boolean(y)) => order_bool(x, y),
        _ => order_int(lit_tag(a), lit_tag(b)),
    }
}

pub open spec fn op_tag(o: Operator) -> int {
    match o {
        Operator::Plus => 0,
        Operator::Minus => 1,
        Operator::Multiply => 2,
        Operator::Divide => 3,
        Operator::Equal => 4,
        Operator::NotEqual => 5,
        Operator::GreaterThan => 6,
        Operator::LessThan => 7,
        Operator::GreaterThanOrEqual => 8,
        Operator::LessThanOrEqual => 9,
        Operator::And => 10,
        Operator::Or => 11,
        Operator::Exponent => 12,
    }
}

pub open spec fn prefix_tag(p: Prefix) -> int {
    match p {
        Prefix::Bang => 0,
        Prefix::Minus => 1,
    }
}

pub open spec fn order_sym(a: Symbol, b: Symbol) -> int {
    order_int(a.0 as int, b.0 as int)
}

pub open spec fn order_opt_sym(a: Option<Symbol>, b: Option<Symbol>) -> int {
    match (a, b) {
        (None, None) => 0,
        (None, Some(_)) => -1,
        (Some(_), None) => 1,
        (Some(x), Some(y)) => order_sym(x, y),
    }
}

pub open spec fn order_syms(a: Seq<Symbol>, b: Seq<Symbol>) -> int
    decreases a.len(),
{
    if a.len() == 0 {
        if b.len() == 0 { 0 } else { -1 }
    } else if b.len() == 0 {
        1
    } else {
        then(order_sym(a[0], b[0]), order_syms(a.drop_first(), b.drop_first()))
    }
}

pub open spec fn expr_tag(e: SExpr) -> int {
    match e {
        SExpr::Error(_) => 0,
        SExpr::Literal(_) => 1,
        SExpr::Identifier(_) => 2,
        SExpr::Infix(..) => 3,
        SExpr::Prefix(..) => 4,
        SExpr::If { .. } => 5,
        SExpr::Function { .. } => 6,
        SExpr::Call { .. } => 7,
        SExpr::Array(_) => 8,
        SExpr::Index { .. } => 9,
        SExpr::HashMap { .. } => 10,
        SExpr::Dot { .. } => 11,
    }
}

pub open spec fn stmt_tag(s: SStmt) -> int {
    match s {
        SStmt::Let(..) => 0,
        SStmt::Assignment(..) => 1,
        SStmt::Return(_) => 2,
        SStmt::Expression(_) => 3,
        SStmt::Error(_) => 4,
        SStmt::While { .. } => 5,
    }
}

/// The order of expressions: -1, 0 or 1.
pub open spec fn order_expr(a: SExpr, b: SExpr) -> int
    decreases a,
{
    match (a, b) {
        (SExpr::Error(x), SExpr::Error(y)) => order_chars(x, y),
        (SExpr::Literal(x), SExpr::Literal(y)) => order_lit(x, y),
        (SExpr::Identifier(x), SExpr::Identifier(y)) => order_sym(x, y),
        (SExpr::Infix(o1, l1, r1), SExpr::Infix(o2, l2, r2)) =>
            then(order_int(op_tag(o1), op_tag(o2)), then(order_expr(*l1, *l2), order_expr(*r1, *r2))),
        (SExpr::Prefix(p1, e1), SExpr::Prefix(p2, e2)) =>
            then(order_int(prefix_tag(p1), prefix_tag(p2)), order_expr(*e1, *e2)),
        (SExpr::If { condition: c1, consequence: s1, alternative: a1 },
         SExpr::If { condition: c2, consequence: s2, alternative: a2 }) =>
            then(order_expr(*c1, *c2), then(order_stmts(s1, s2), order_opt_stmts(a1, a2))),
        (SExpr::Function { identifier: i1, parameters: p1, body: b1 },
         SExpr::Function { identifier: i2, parameters: p2, body: b2 }) =>
            then(order_opt_sym(i1, i2), then(order_syms(p1, p2), order_stmts(b1, b2))),
        (SExpr::Call { function: f1, arguments: a1 }, SExpr::Call { function: f2, arguments: a2 }) =>
            then(order_expr(*f1, *f2), order_exprs(a1, a2)),
        (SExpr::Array(x), SExpr::Array(y)) => order_exprs(x, y),
        (SExpr::Index { left: l1, index: i1 }, SExpr::Index { left: l2, index: i2 }) =>
            then(order_expr(*l1, *l2), order_expr(*i1, *i2)),
        (SExpr::HashMap { pairs: p1 }, SExpr::HashMap { pairs: p2 }) => order_pairs(p1, p2),
        (SExpr::Dot { identifier: i1, attribute: a1 }, SExpr::Dot { identifier: i2, attribute: a2 }) =>
            then(order_expr(*i1, *i2), order_sym(a1, a2)),
        _ => order_int(expr_tag(a), expr_tag(b)),
    }
}

pub open spec fn order_exprs(a: Seq<SExpr>, b: Seq<SExpr>) -> int
    decreases a,
{
    if a.len() == 0 {
        if b.len() == 0 { 0 } else { -1 }
    } else if b.len() == 0 {
        1
    } else {
        then(order_expr(a[0], b[0]), order_exprs(a.drop_first(), b.drop_first()))
    }
}

pub open spec fn order_pairs(a: Seq<(SExpr, SExpr)>, b: Seq<(SExpr, SExpr)>) -> int
    decreases a,
{
    if a.len() == 0 {
        if b.len() == 0 { 0 } else { -1 }
    } else if b.len() == 0 {
        1
    } else {
        then(order_expr(a[0].0, b[0].0), then(order_expr(a[0].1, b[0].1), order_pairs(a.drop_first(), b.drop_first())))
    }
}

pub open spec fn order_stmt(a: SStmt, b: SStmt) -> int
    decreases a,
{
    match (a, b) {
        (SStmt::Let(i1, e1), SStmt::Let(i2, e2)) => then(order_sym(i1, i2), order_expr(e1, e2)),
        (SStmt::Assignment(i1, e1), SStmt::Assignment(i2, e2)) => then(order_sym(i1, i2), order_expr(e1, e2)),
        (SStmt::Return(e1), SStmt::Return(e2)) => order_expr(e1, e2),
        (SStmt::Expression(e1), SStmt::Expression(e2)) => order_expr(e1, e2),
        (SStmt::Error(x), SStmt::Error(y)) => order_chars(x, y),
        (SStmt::While { condition: c1, body: b1 }, SStmt::While { condition: c2, body: b2 }) =>
            then(order_expr(c1, c2), order_stmts(b1, b2)),
        _ => order_int(stmt_tag(a), stmt_tag(b)),
    }
}

pub open spec fn order_stmts(a: Seq<SStmt>, b: Seq<SStmt>) -> int
    decreases a,
{
    if a.len() == 0 {
        if b.len() == 0 { 0 } else { -1 }
    } else if b.len() == 0 {
        1
    } else {
        then(order_stmt(a[0], b[0]), order_stmts(a.drop_first(), b.drop_first()))
    }
}

pub open spec fn order_opt_stmts(a: Option<Seq<SStmt>>, b: Option<Seq<SStmt>>) -> int
    decreases a,
{
    match (a, b) {
        (None, None) => 0,
        (None, Some(_)) => -1,
        (Some(_), None) => 1,
        (Some(x), Some(y)) => order_stmts(x, y),
    }
}

/// The pairs after inserting `k` with `v`: kept sorted by key, and the value of
/// an equal key replaced.
pub open spec fn map_insert(p: Seq<(SExpr, SExpr)>, k: SExpr, v: SExpr) -> Seq<(SExpr, SExpr)>
    decreases p.len(),
{
    if p.len() == 0 {
        seq![(k, v)]
    } else {
        let c = order_expr(k, p[0].0);
        if c < 0 {
            seq![(k, v)] + p
        } else if c == 0 {
            seq![(p[0].0, v)] + p.drop_first()
        } else {
            seq![p[0]] + map_insert(p.drop_first(), k, v)
        }
    }
}

pub fn order_i(a: i64, b: i64) -> (r: i8)
    ensures
        r as int == order_int(a as int, b as int),
{
    if a < b { -1 } else if a > b { 1 } else { 0 }
}

pub fn order_u(a: u32, b: u32) -> (r: i8)
    ensures
        r as int == order_int(a as int, b as int),
{
    if a < b { -1 } else if a > b { 1 } else { 0 }
}

pub fn order_c(a: char, b: char) -> (r: i8)
    ensures
        r as int == order_int(a as int, b as int),
{
    if a < b { -1 } else if a > b { 1 } else { 0 }
}

pub fn order_string(a: &String, b: &String) -> (r: i8)
    ensures
        r as int == order_chars(a@, b@),
{
    let x = crate::text::chars_of(a.as_str());
    let y = crate::text::chars_of(b.as_str());
    let mut i: usize = 0;
    assert(x@.skip(0) =~= x@);
    assert(y@.skip(0) =~= y@);
    while i < x.len() && i < y.len()
        invariant
            x@ == a@,
            y@ == b@,
            i <= x.len(),
            i <= y.len(),
            order_chars(x@, y@) == order_chars(x@.skip(i as int), y@.skip(i as int)),
        decreases x.len() - i,
    {
        let c = order_c(x[i], y[i]);
        proof {
            let xs = x@.skip(i as int);
            let ys = y@.skip(i as int);
            assert(xs.len() > 0 && ys.len() > 0);
            assert(order_chars(xs, ys) == then(order_int(xs[0] as int, ys[0] as int), order_chars(xs.drop_first(), ys.drop_first())));
            assert(x@.skip(i as int)[0] == x@[i as int]);
            assert(y@.skip(i as int)[0] == y@[i as int]);
            assert(x@.skip(i as int).drop_first() =~= x@.skip(i + 1));
            assert(y@.skip(i as int).drop_first() =~= y@.skip(i + 1));
        }
        if c != 0 {
            return c;
        }
        i += 1;
    }
    if i < x.len() { 1 } else if i < y.len() { -1 } else { 0 }
}

fn lit_tag_of(l: &Literal) -> (r: i64)
    ensures
        r as int == lit_tag(l@),
{
    match l {
        Literal::Number(_) => 0,
        Literal::String(_) => 1,
        Literal::Boolean(_) => 2,
    }
}

pub fn order_literal(a: &Literal, b: &Literal) -> (r: i8)
    ensures
        r as int == order_lit(a@, b@),
{
    match (a, b) {
        (Literal::Number(x), Literal::Number(y)) => order_i(*x, *y),
        (Literal::String(x), Literal::String(y)) => order_string(x, y),
        (Literal::Boolean(x), Literal::Boolean(y)) => order_i(if *x { 1 } else { 0 }, if *y { 1 } else { 0 }),
        _ => order_i(lit_tag_of(a), lit_tag_of(b)),
    }
}

fn op_tag_of(o: Operator) -> (r: i64)
    ensures
        r as int == op_tag(o),
{
    match o {
        Operator::Plus => 0,
        Operator::Minus => 1,
        Operator::Multiply => 2,
        Operator::Divide => 3,
        Operator::Equal => 4,
        Operator::NotEqual => 5,
        Operator::GreaterThan => 6,
        Operator::LessThan => 7,
        Operator::GreaterThanOrEqual => 8,
        Operator::LessThanOrEqual => 9,
        Operator::And => 10,
        Operator::Or => 11,
        Operator::Exponent => 12,
    }
}

fn prefix_tag_of(p: Prefix) -> (r: i64)
    ensures
        r as int == prefix_tag(p),
{
    match p {
        Prefix::Bang => 0,
        Prefix::Minus => 1,
    }
}

fn order_opt_symbol(a: Option<Symbol>, b: Option<Symbol>) -> (r: i8)
    ensures
        r as int == order_opt_sym(a, b),
{
    match (a, b) {
        (None, None) => 0,
        (None, Some(_)) => -1,
        (Some(_), None) => 1,
        (Some(x), Some(y)) => order_u(x.0, y.0),
    }
}

fn expr_tag_of(e: &Expression) -> (r: i64)
    ensures
        r as int == expr_tag(e@),
{
    match e {
        Expression::Error(_) => 0,
        Expression::Literal(_) => 1,
        Expression::Identifier(_) => 2,
        Expression::Infix(..) => 3,
        Expression::Prefix(..) => 4,
        Expression::If { .. } => 5,
        Expression::Function { .. } => 6,
        Expression::Call { .. } => 7,
        Expression::Array(_) => 8,
        Expression::Index { .. } => 9,
        Expression::HashMap { .. } => 10,
        Expression::Dot { .. } => 11,
    }
}

fn stmt_tag_of(s: &Statement) -> (r: i64)
    ensures
        r as int == stmt_tag(s@),
{
    match s {
        Statement::Let(..) => 0,
        Statement::Assignment(..) => 1,
        Statement::Return(_) => 2,
        Statement::Expression(_) => 3,
        Statement::Error(_) => 4,
        Statement::While { .. } => 5,
    }
}

pub fn order_symbols(a: &Vec<Symbol>, b: &Vec<Symbol>) -> (r: i8)
    ensures
        r as int == order_syms(a@, b@),
{
    let mut i: usize = 0;
    assert(a@.skip(0) =~= a@);
    assert(b@.skip(0) =~= b@);
    while i < a.len() && i < b.len()
        invariant
            i <= a.len(),
            i <= b.len(),
            order_syms(a@, b@) == order_syms(a@.skip(i as int), b@.skip(i as int)),
        decreases a.len() - i,
    {
        let c = order_u(a[i].0, b[i].0);
        proof {
            assert(a@.skip(i as int)[0] == a@[i as int]);
            assert(b@.skip(i as int)[0] == b@[i as int]);
            assert(a@.skip(i as int).drop_first() =~= a@.skip(i + 1));
            assert(b@.skip(i as int).drop_first() =~= b@.skip(i + 1));
        }
        if c != 0 {
            return c;
        }
        i += 1;
    }
    if i < a.len() { 1 } else if i < b.len() { -1 } else { 0 }
}

/// Lexicographic combination in executable code.
fn then_i(c: i8, d: i8) -> (r: i8)
    ensures
        r as int == then(c as int, d as int),
{
    if c != 0 { c } else { d }
}

impl Expression {
    /// Compares two expressions in the order of hash map keys.
    pub fn compare(&self, other: &Expression) -> (r: i8)
        ensures
            r as int == order_expr(self@, other@),
        decreases self,
    {
        match (self, other) {
            (Expression::Error(x), Expression::Error(y)) => order_string(x, y),
            (Expression::Literal(x), Expression::Literal(y)) => order_literal(x, y),
            (Expression::Identifier(x), Expression::Identifier(y)) => order_u(x.0, y.0),
            (Expression::Infix(o1, l1, r1), Expression::Infix(o2, l2, r2)) => {
                let c = order_i(op_tag_of(*o1), op_tag_of(*o2));
                if c != 0 { return c; }
                let d = l1.compare(l2);
                if d != 0 { return d; }
                r1.compare(r2)
            },
            (Expression::Prefix(p1, e1), Expression::Prefix(p2, e2)) => {
                let c = order_i(prefix_tag_of(*p1), prefix_tag_of(*p2));
                if c != 0 { return c; }
                e1.compare(e2)
            },
            (Expression::If { condition: c1, consequence: s1, alternative: a1 },
             Expression::If { condition: c2, consequence: s2, alternative: a2 }) => {
                let c = c1.compare(c2);
                if c != 0 { return c; }
                let d = Statement::compare_vec(s1, s2);
                if d != 0 { return d; }
                Statement::compare_opt_vec(a1, a2)
            },
            (Expression::Function { identifier: i1, parameters: p1, body: b1 },
             Expression::Function { identifier: i2, parameters: p2, body: b2 }) => {
                let c = order_opt_symbol(*i1, *i2);
                if c != 0 { return c; }
                let d = order_symbols(p1, p2);
                if d != 0 { return d; }
                Statement::compare_vec(b1, b2)
            },
            (Expression::Call { function: f1, arguments: a1 }, Expression::Call { function: f2, arguments: a2 }) => {
                let c = f1.compare(f2);
                if c != 0 { return c; }
                Expression::compare_vec(a1, a2)
            },
            (Expression::Array(x), Expression::Array(y)) => Expression::compare_vec(x, y),
            (Expression::Index { left: l1, index: i1 }, Expression::Index { left: l2, index: i2 }) => {
                let c = l1.compare(l2);
                if c != 0 { return c; }
                i1.compare(i2)
            },
            (Expression::HashMap { pairs: p1 }, Expression::HashMap { pairs: p2 }) => Expression::compare_pairs(p1, p2),
            (Expression::Dot { identifier: i1, attribute: a1 }, Expression::Dot { identifier: i2, attribute: a2 }) => {
                let c = i1.compare(i2);
                if c != 0 { return c; }
                order_u(a1.0, a2.0)
            },
            _ => order_i(expr_tag_of(self), expr_tag_of(other)),
        }
    }

    pub fn compare_vec(a: &Vec<Expression>, b: &Vec<Expression>) -> (r: i8)
        ensures
            r as int == order_exprs(Expression::view_seq(a@), Expression::view_seq(b@)),
        decreases a,
    {
        let ghost va = Expression::view_seq(a@);
        let ghost vb = Expression::view_seq(b@);
        proof {
            Expression::lemma_view_seq(a@);
            Expression::lemma_view_seq(b@);
        }
        let mut i: usize = 0;
        assert(va.skip(0) =~= va);
        assert(vb.skip(0) =~= vb);
        #[verifier::loop_isolation(false)]
        while i < a.len() && i < b.len()
            invariant
                i <= a.len(),
                i <= b.len(),
                order_exprs(va, vb) == order_exprs(va.skip(i as int), vb.skip(i as int)),
            decreases a.len() - i,
        {
            proof { assert(decreases_to!(a => a@[i as int])); }
            let c = a[i].compare(&b[i]);
            proof {
                assert(va.skip(i as int).drop_first() =~= va.skip(i + 1));
                assert(vb.skip(i as int).drop_first() =~= vb.skip(i + 1));
                assert(va.skip(i as int)[0] == va[i as int]);
                assert(vb.skip(i as int)[0] == vb[i as int]);
            }
            if c != 0 {
                return c;
            }
            i += 1;
        }
        if i < a.len() { 1 } else if i < b.len() { -1 } else { 0 }
    }

    pub fn compare_pairs(a: &Vec<(Expression, Expression)>, b: &Vec<(Expression, Expression)>) -> (r: i8)
        ensures
            r as int == order_pairs(Expression::view_pairs(a@), Expression::view_pairs(b@)),
        decreases a,
    {
        let ghost va = Expression::view_pairs(a@);
        let ghost vb = Expression::view_pairs(b@);
        proof {
            Expression::lemma_view_pairs(a@);
            Expression::lemma_view_pairs(b@);
        }
        let mut i: usize = 0;
        assert(va.skip(0) =~= va);
        assert(vb.skip(0) =~= vb);
        #[verifier::loop_isolation(false)]
        while i < a.len() && i < b.len()
            invariant
                i <= a.len(),
                i <= b.len(),
                order_pairs(va, vb) == order_pairs(va.skip(i as int), vb.skip(i as int)),
            decreases a.len() - i,
        {
            proof {
                assert(decreases_to!(a => a@[i as int].0));
                assert(decreases_to!(a => a@[i as int].1));
            }
            let c = a[i].0.compare(&b[i].0);
            let d = a[i].1.compare(&b[i].1);
            proof {
                assert(va.skip(i as int).drop_first() =~= va.skip(i + 1));
                assert(vb.skip(i as int).drop_first() =~= vb.skip(i + 1));
                assert(va.skip(i as int)[0] == va[i as int]);
                assert(vb.skip(i as int)[0] == vb[i as int]);
            }
            if c != 0 {
                return c;
            }
            if d != 0 {
                return d;
            }
            i += 1;
        }
        if i < a.len() { 1 } else if i < b.len() { -1 } else { 0 }
    }
}

impl Statement {
    pub fn compare(&self, other: &Statement) -> (r: i8)
        ensures
            r as int == order_stmt(self@, other@),
        decreases self,
    {
        match (self, other) {
            (Statement::Let(i1, e1), Statement::Let(i2, e2)) => {
                let c = order_u(i1.0, i2.0);
                if c != 0 { return c; }
                e1.compare(e2)
            },
            (Statement::Assignment(i1, e1), Statement::Assignment(i2, e2)) => {
                let c = order_u(i1.0, i2.0);
                if c != 0 { return c; }
                e1.compare(e2)
            },
            (Statement::Return(e1), Statement::Return(e2)) => e1.compare(e2),
            (Statement::Expression(e1), Statement::Expression(e2)) => e1.compare(e2),
            (Statement::Error(x), Statement::Error(y)) => order_string(x, y),
            (Statement::While { condition: c1, body: b1 }, Statement::While { condition: c2, body: b2 }) => {
                let c = c1.compare(c2);
                if c != 0 { return c; }
                Statement::compare_vec(b1, b2)
            },
            _ => order_i(stmt_tag_of(self), stmt_tag_of(other)),
        }
    }

    pub fn compare_opt_vec(a: &Option<Vec<Statement>>, b: &Option<Vec<Statement>>) -> (r: i8)
        ensures
            r as int == order_opt_stmts(
                match a { Some(x) => Some(Statement::view_seq(x@)), None => None },
                match b { Some(x) => Some(Statement::view_seq(x@)), None => None }),
        decreases a,
    {
        match (a, b) {
            (None, None) => 0,
            (None, Some(_)) => -1,
            (Some(_), None) => 1,
            (Some(x), Some(y)) => Statement::compare_vec(x, y),
        }
    }

    pub fn compare_vec(a: &Vec<Statement>, b: &Vec<Statement>) -> (r: i8)
        ensures
            r as int == order_stmts(Statement::view_seq(a@), Statement::view_seq(b@)),
        decreases a,
    {
        let ghost va = Statement::view_seq(a@);
        let ghost vb = Statement::view_seq(b@);
        proof {
            Statement::lemma_view_seq(a@);
            Statement::lemma_view_seq(b@);
        }
        let mut i: usize = 0;
        assert(va.skip(0) =~= va);
        assert(vb.skip(0) =~= vb);
        #[verifier::loop_isolation(false)]
        while i < a.len() && i < b.len()
            invariant
                i <= a.len(),
                i <= b.len(),
                order_stmts(va, vb) == order_stmts(va.skip(i as int), vb.skip(i as int)),
            decreases a.len() - i,
        {
            proof { assert(decreases_to!(a => a@[i as int])); }
            let c = a[i].compare(&b[i]);
            proof {
                assert(va.skip(i as int).drop_first() =~= va.skip(i + 1));
                assert(vb.skip(i as int).drop_first() =~= vb.skip(i + 1));
                assert(va.skip(i as int)[0] == va[i as int]);
                assert(vb.skip(i as int)[0] == vb[i as int]);
            }
            if c != 0 {
                return c;
            }
            i += 1;
        }
        if i < a.len() { 1 } else if i < b.len() { -1 } else { 0 }
    }
}

proof fn lemma_map_insert_prefix(p: Seq<(SExpr, SExpr)>, k: SExpr, v: SExpr, i: int)
    requires
        0 <= i <= p.len(),
        forall|j: int| 0 <= j < i ==> order_expr(k, #[trigger] p[j].0) > 0,
    ensures
        map_insert(p, k, v) == p.take(i) + map_insert(p.skip(i), k, v),
    decreases i,
{
    if i > 0 {
        lemma_map_insert_prefix(p.drop_first(), k, v, i - 1);
        assert forall|j: int| 0 <= j < i - 1 implies order_expr(k, #[trigger] p.drop_first()[j].0) > 0 by {
            assert(p.drop_first()[j] == p[j + 1]);
        }
        assert(p.drop_first().skip(i - 1) =~= p.skip(i));
        assert(seq![p[0]] + p.drop_first().take(i - 1) =~= p.take(i));
    } else {
        assert(p.take(0) + p.skip(0) =~= p);
        assert(p.skip(0) =~= p);
    }
}

/// Inserts `k` with `v` into pairs sorted by key, replacing the value of an equal key.
pub fn insert_pair(pairs: &mut Vec<(Expression, Expression)>, k: Expression, v: Expression)
    ensures
        Expression::view_pairs(final(pairs)@) == map_insert(Expression::view_pairs(old(pairs)@), k@, v@),
{
    let ghost p = Expression::view_pairs(pairs@);
    proof { Expression::lemma_view_pairs(pairs@); }
    let mut i: usize = 0;
    while i < pairs.len()
        invariant
            i <= pairs.len(),
            p == Expression::view_pairs(pairs@),
            p.len() == pairs.len(),
            forall|j: int| 0 <= j < pairs.len() ==> #[trigger] p[j] == (pairs@[j].0@, pairs@[j].1@),
            forall|j: int| 0 <= j < i ==> order_expr(k@, #[trigger] p[j].0) > 0,
        ensures
            i < pairs.len() ==> order_expr(k@, p[i as int].0) <= 0,
        decreases pairs.len() - i,
    {
        let c = k.compare(&pairs[i].0);
        if c <= 0 {
            break;
        }
        i += 1;
    }
    proof { lemma_map_insert_prefix(p, k@, v@, i as int); }
    if i == pairs.len() {
        let ghost old_pairs = pairs@;
        pairs.push((k, v));
        proof {
            Expression::lemma_view_pairs_push(old_pairs, (k, v));
            assert(p.skip(i as int) =~= Seq::<(SExpr, SExpr)>::empty());
            assert(p.take(i as int) =~= p);
            assert(p.take(i as int) + seq![(k@, v@)] =~= p.push((k@, v@)));
            assert(map_insert(p.skip(i as int), k@, v@) == seq![(k@, v@)]);
            assert(Expression::view_pairs(pairs@) =~= map_insert(p, k@, v@));
        }
    } else {
        let c = k.compare(&pairs[i].0);
        let ghost old_pairs = pairs@;
        proof {
            let q = p.skip(i as int);
            assert(q[0] == p[i as int]);
            assert(q.drop_first() =~= p.skip(i + 1));
        }
        if c < 0 {
            pairs.insert(i, (k, v));
            proof {
                Expression::lemma_view_pairs(pairs@);
                assert(Expression::view_pairs(pairs@) =~= p.take(i as int) + (seq![(k@, v@)] + p.skip(i as int)));
                assert(Expression::view_pairs(pairs@) =~= map_insert(p, k@, v@));
            }
        } else {
            let key = pairs[i].0.copy();
            pairs.set(i, (key, v));
            proof {
                Expression::lemma_view_pairs(pairs@);
                let q = p.skip(i as int);
                assert(q[0] == p[i as int]);
                assert(Expression::view_pairs(pairs@) =~= p.take(i as int) + (seq![(q[0].0, v@)] + q.drop_first()));
                assert(Expression::view_pairs(pairs@) =~= map_insert(p, k@, v@));
            }
        }
    }
}

} // verus!
