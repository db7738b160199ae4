//! Structural equality of trees, decided in executable code.
use vstd::prelude::*;
use crate::intern::interner::Symbol;
use crate::ast::literal::Literal;
use crate::ast::expression::{Expression, SExpr};
use crate::ast::statement::{Statement, SStmt};
use crate::text::string_eq;

verus! {

/// Whether two literals are the same.
pub fn literal_equals(a: &Literal, b: &Literal) -> (r: bool)
    ensures
        r == (a@ == b@),
{
    match (a, b) {
        (Literal::Number(x), Literal::Number(y)) => *x == *y,
        (Literal::String(x), Literal::String(y)) => string_eq(x, y),
        (Literal::Boolean(x), Literal::Boolean(y)) => *x == *y,
        _ => false,
    }
}

/// Whether two lists of symbols are the same.
pub fn symbols_equal(a: &Vec<Symbol>, b: &Vec<Symbol>) -> (r: bool)
    ensures
        r == (a@ == b@),
{
    if a.len() != b.len() {
        return false;
    }
    let mut i: usize = 0;
    while i < a.len()
        invariant
            i <= a@.len(),
            a@.len() == b@.len(),
            forall|j: int| 0 <= j < i ==> a@[j] == b@[j],
        decreases a@.len() - i,
    {
        if a[i] != b[i] {
            return false;
        }
        i += 1;
    }
    assert(a@ =~= b@);
    true
}

impl Expression {
    /// Whether two expressions are the same tree.
    pub fn equals(&self, other: &Expression) -> (r: bool)
        ensures
            r == (self@ == other@),
        decreases self,
    {
        match (self, other) {
            (Expression::Error(x), Expression::Error(y)) => string_eq(x, y),
            (Expression::Literal(x), Expression::Literal(y)) => literal_equals(x, y),
            (Expression::Identifier(x), Expression::Identifier(y)) => *x == *y,
            (Expression::Infix(o1, l1, r1), Expression::Infix(o2, l2, r2)) => {
                *o1 == *o2 && l1.equals(l2) && r1.equals(r2)
            },
            (Expression::Prefix(p1, e1), Expression::Prefix(p2, e2)) => *p1 == *p2 && e1.equals(e2),
            (Expression::If { condition: c1, consequence: s1, alternative: a1 },
             Expression::If { condition: c2, consequence: s2, alternative: a2 }) => {
                c1.equals(c2) && Statement::equals_vec(s1, s2) && Statement::equals_opt_vec(a1, a2)
            },
            (Expression::Function { identifier: i1, parameters: p1, body: b1 },
             Expression::Function { identifier: i2, parameters: p2, body: b2 }) => {
                let same_name = match (i1, i2) {
                    (Some(x), Some(y)) => *x == *y,
                    (None, None) => true,
                    _ => false,
                };
                same_name && symbols_equal(p1, p2) && Statement::equals_vec(b1, b2)
            },
            (Expression::Call { function: f1, arguments: a1 }, Expression::Call { function: f2, arguments: a2 }) => {
                f1.equals(f2) && Expression::equals_vec(a1, a2)
            },
            (Expression::Array(x), Expression::Array(y)) => Expression::equals_vec(x, y),
            (Expression::Index { left: l1, index: i1 }, Expression::Index { left: l2, index: i2 }) => {
                l1.equals(l2) && i1.equals(i2)
            },
            (Expression::HashMap { pairs: p1 }, Expression::HashMap { pairs: p2 }) => Expression::equals_pairs(p1, p2),
            (Expression::Dot { identifier: x1, attribute: a1 }, Expression::Dot { identifier: x2, attribute: a2 }) => {
                *a1 == *a2 && x1.equals(x2)
            },
            _ => false,
        }
    }

    /// Whether two lists of expressions are the same.
    pub fn equals_vec(a: &Vec<Expression>, b: &Vec<Expression>) -> (r: bool)
        ensures
            r == (Expression::view_seq(a@) == Expression::view_seq(b@)),
        decreases a,
    {
        proof {
            Expression::lemma_view_seq(a@);
            Expression::lemma_view_seq(b@);
        }
        if a.len() != b.len() {
            return false;
        }
        let mut i: usize = 0;
        #[verifier::loop_isolation(false)]
        while i < a.len()
            invariant
                i <= a@.len(),
                a@.len() == b@.len(),
                forall|j: int| 0 <= j < i ==> a@[j]@ == b@[j]@,
            decreases a@.len() - i,
        {
            proof { assert(decreases_to!(a => a@[i as int])); }
            if !a[i].equals(&b[i]) {
                assert(Expression::view_seq(a@)[i as int] != Expression::view_seq(b@)[i as int]);
                return false;
            }
            i += 1;
        }
        assert(Expression::view_seq(a@) =~= Expression::view_seq(b@));
        true
    }

    /// Whether two lists of key-value pairs are the same.
    pub fn equals_pairs(a: &Vec<(Expression, Expression)>, b: &Vec<(Expression, Expression)>) -> (r: bool)
        ensures
            r == (Expression::view_pairs(a@) == Expression::view_pairs(b@)),
        decreases a,
    {
        proof {
            Expression::lemma_view_pairs(a@);
            Expression::lemma_view_pairs(b@);
        }
        if a.len() != b.len() {
            return false;
        }
        let mut i: usize = 0;
        #[verifier::loop_isolation(false)]
        while i < a.len()
            invariant
                i <= a@.len(),
                a@.len() == b@.len(),
                forall|j: int| 0 <= j < i ==> a@[j].0@ == b@[j].0@ && a@[j].1@ == b@[j].1@,
            decreases a@.len() - i,
        {
            proof {
                assert(decreases_to!(a => a@[i as int].0));
                assert(decreases_to!(a => a@[i as int].1));
            }
            if !a[i].0.equals(&b[i].0) || !a[i].1.equals(&b[i].1) {
                assert(Expression::view_pairs(a@)[i as int] != Expression::view_pairs(b@)[i as int]);
                return false;
            }
            i += 1;
        }
        assert(Expression::view_pairs(a@) =~= Expression::view_pairs(b@));
        true
    }
}

impl Statement {
    /// Whether two statements are the same tree.
    pub fn equals(&self, other: &Statement) -> (r: bool)
        ensures
            r == (self@ == other@),
        decreases self,
    {
        match (self, other) {
            (Statement::Let(i1, e1), Statement::Let(i2, e2)) => *i1 == *i2 && e1.equals(e2),
            (Statement::Assignment(i1, e1), Statement::Assignment(i2, e2)) => *i1 == *i2 && e1.equals(e2),
            (Statement::Return(e1), Statement::Return(e2)) => e1.equals(e2),
            (Statement::Expression(e1), Statement::Expression(e2)) => e1.equals(e2),
            (Statement::Error(x), Statement::Error(y)) => string_eq(x, y),
            (Statement::While { condition: c1, body: b1 }, Statement::While { condition: c2, body: b2 }) => {
                c1.equals(c2) && Statement::equals_vec(b1, b2)
            },
            _ => false,
        }
    }

    /// Whether two lists of statements are the same.
    pub fn equals_vec(a: &Vec<Statement>, b: &Vec<Statement>) -> (r: bool)
        ensures
            r == (Statement::view_seq(a@) == Statement::view_seq(b@)),
        decreases a,
    {
        proof {
            Statement::lemma_view_seq(a@);
            Statement::lemma_view_seq(b@);
        }
        if a.len() != b.len() {
            return false;
        }
        let mut i: usize = 0;
        #[verifier::loop_isolation(false)]
        while i < a.len()
            invariant
                i <= a@.len(),
                a@.len() == b@.len(),
                forall|j: int| 0 <= j < i ==> a@[j]@ == b@[j]@,
            decreases a@.len() - i,
        {
            proof { assert(decreases_to!(a => a@[i as int])); }
            if !a[i].equals(&b[i]) {
                assert(Statement::view_seq(a@)[i as int] != Statement::view_seq(b@)[i as int]);
                return false;
            }
            i += 1;
        }
        assert(Statement::view_seq(a@) =~= Statement::view_seq(b@));
        true
    }

    /// Whether two optional lists of statements are the same.
    pub fn equals_opt_vec(a: &Option<Vec<Statement>>, b: &Option<Vec<Statement>>) -> (r: bool)
        ensures
            r == ((match a { Some(x) => Some(Statement::view_seq(x@)), None => None })
                == (match b { Some(x) => Some(Statement::view_seq(x@)), None => None })),
        decreases a,
    {
        match (a, b) {
            (Some(x), Some(y)) => Statement::equals_vec(x, y),
            (None, None) => true,
            _ => false,
        }
    }
}

} // verus!
