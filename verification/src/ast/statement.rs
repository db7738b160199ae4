//! Statements of the language.
use vstd::prelude::*;
use crate::intern::interner::Symbol;
use crate::ast::expression::{Expression, SExpr};
use crate::text::{copy_string, seq_join, strs_view, push_str, join};
use crate::intern::interner::{Interner, spec_name};
use crate::ast::expression::pretty_expr;

verus! {

/// A sequence of statements.
pub type Block = Vec<Statement>;

/// A name bound by `let`, assigned, or declared as a parameter.
pub type Identifier = Symbol;

#[derive(Debug, PartialEq, Eq, Hash, PartialOrd, Ord)]
pub enum Statement {
    Let(Identifier, Expression),
    Assignment(Identifier, Expression),
    Return(Expression),
    Expression(Expression),
    Error(String),
    While { condition: Expression, body: Block },
}

/// A statement as a mathematical value.
pub enum SStmt {
    Let(Symbol, SExpr),
    Assignment(Symbol, SExpr),
    Return(SExpr),
    Expression(SExpr),
    Error(Seq<char>),
    While { condition: SExpr, body: Seq<SStmt> },
}

impl Statement {
    pub open spec fn view(&self) -> SStmt
        decreases self,
    {
        match self {
            Statement::Let(i, e) => SStmt::Let(*i, e.view()),
            Statement::Assignment(i, e) => SStmt::Assignment(*i, e.view()),
            Statement::Return(e) => SStmt::Return(e.view()),
            Statement::Expression(e) => SStmt::Expression(e.view()),
            Statement::Error(s) => SStmt::Error(s@),
            Statement::While { condition, body } => SStmt::While {
                condition: condition.view(),
                body: Statement::view_seq(body@),
            },
        }
    }

    pub open spec fn view_seq(s: Seq<Statement>) -> Seq<SStmt>
        decreases s,
    {
        if s.len() == 0 {
            Seq::empty()
        } else {
            Statement::view_seq(s.drop_last()).push(s.last().view())
        }
    }

    pub proof fn lemma_view_seq(s: Seq<Statement>)
        ensures
            Statement::view_seq(s).len() == s.len(),
            forall|i: int| 0 <= i < s.len() ==> #[trigger] Statement::view_seq(s)[i] == s[i].view(),
        decreases s.len(),
    {
        if s.len() > 0 {
            Statement::lemma_view_seq(s.drop_last());
        }
    }

    pub proof fn lemma_view_seq_push(s: Seq<Statement>, e: Statement)
        ensures
            Statement::view_seq(s.push(e)) == Statement::view_seq(s).push(e.view()),
    {
        assert(s.push(e).drop_last() =~= s);
    }

    /// A copy of this statement.
    pub fn copy(&self) -> (r: Statement)
        ensures
            r@ == self@,
        decreases self,
    {
        match self {
            Statement::Let(i, e) => Statement::Let(*i, e.copy()),
            Statement::Assignment(i, e) => Statement::Assignment(*i, e.copy()),
            Statement::Return(e) => Statement::Return(e.copy()),
            Statement::Expression(e) => Statement::Expression(e.copy()),
            Statement::Error(s) => Statement::Error(copy_string(s)),
            Statement::While { condition, body } => {
                let c = condition.copy();
                let b = Statement::copy_vec(body);
                Statement::While { condition: c, body: b }
            },
        }
    }

    /// A copy of a list of statements.
    pub fn copy_vec(v: &Vec<Statement>) -> (r: Vec<Statement>)
        ensures
            Statement::view_seq(r@) == Statement::view_seq(v@),
        decreases v,
    {
        let mut r: Vec<Statement> = Vec::new();
        let mut i: usize = 0;
        #[verifier::loop_isolation(false)]
        while i < v.len()
            invariant
                i <= v.len(),
                Statement::view_seq(r@) == Statement::view_seq(v@.subrange(0, i as int)),
            decreases v.len() - i,
        {
            proof { assert(decreases_to!(v => v@[i as int])); }
            let e = v[i].copy();
            proof {
                Statement::lemma_view_seq_push(r@, e);
                Statement::lemma_view_seq_push(v@.subrange(0, i as int), v@[i as int]);
                assert(v@.subrange(0, i as int).push(v@[i as int]) =~= v@.subrange(0, i + 1));
            }
            r.push(e);
            i += 1;
        }
        assert(v@.subrange(0, v.len() as int) =~= v@);
        r
    }
}

/// The tree notation of a statement.
pub open spec fn pretty_stmt(s: SStmt, names: Seq<Seq<char>>) -> Seq<char>
    decreases s,
{
    match s {
        SStmt::Let(i, e) => "Let "@ + spec_name(names, i) + " "@ + pretty_expr(e, names),
        SStmt::Assignment(i, e) => "= "@ + spec_name(names, i) + " "@ + pretty_expr(e, names),
        SStmt::Return(e) => "Return "@ + pretty_expr(e, names),
        SStmt::Expression(e) => pretty_expr(e, names),
        SStmt::Error(x) => "error: ( "@ + x + " )"@,
        SStmt::While { condition, body } =>
            "while ( "@ + pretty_expr(condition, names) + " ) { ["@ + seq_join(pretty_stmts(body, names), ", "@) + "] }"@,
    }
}

pub open spec fn pretty_stmts(s: Seq<SStmt>, names: Seq<Seq<char>>) -> Seq<Seq<char>>
    decreases s,
{
    if s.len() == 0 {
        Seq::empty()
    } else {
        pretty_stmts(s.drop_last(), names).push(pretty_stmt(s.last(), names))
    }
}

impl Statement {
    /// The tree notation of this statement.
    pub fn pretty(&self, interner: &Interner) -> (r: String)
        ensures
            r@ == pretty_stmt(self@, interner@),
        decreases self,
    {
        let mut s = String::new();
        match self {
            Statement::Let(i, e) => {
                push_str(&mut s, "Let ");
                let n = interner.name_of(*i);
                push_str(&mut s, n.as_str());
                push_str(&mut s, " ");
                let x = e.pretty(interner);
                push_str(&mut s, x.as_str());
            },
            Statement::Assignment(i, e) => {
                push_str(&mut s, "= ");
                let n = interner.name_of(*i);
                push_str(&mut s, n.as_str());
                push_str(&mut s, " ");
                let x = e.pretty(interner);
                push_str(&mut s, x.as_str());
            },
            Statement::Return(e) => {
                push_str(&mut s, "Return ");
                let x = e.pretty(interner);
                push_str(&mut s, x.as_str());
            },
            Statement::Expression(e) => {
                s = e.pretty(interner);
            },
            Statement::Error(x) => {
                push_str(&mut s, "error: ( ");
                push_str(&mut s, x.as_str());
                push_str(&mut s, " )");
            },
            Statement::While { condition, body } => {
                push_str(&mut s, "while ( ");
                let c = condition.pretty(interner);
                push_str(&mut s, c.as_str());
                push_str(&mut s, " ) { [");
                let bl = Statement::pretty_vec(body, interner);
                let b = join(&bl, ", ");
                push_str(&mut s, b.as_str());
                push_str(&mut s, "] }");
            },
        }
        assert(s@ =~= pretty_stmt(self@, interner@));
        s
    }

    /// The tree notation of each statement of a list.
    pub fn pretty_vec(v: &Vec<Statement>, interner: &Interner) -> (r: Vec<String>)
        ensures
            strs_view(r@) == pretty_stmts(Statement::view_seq(v@), interner@),
        decreases v,
    {
        let mut r: Vec<String> = Vec::new();
        let mut i: usize = 0;
        #[verifier::loop_isolation(false)]
        while i < v.len()
            invariant
                i <= v.len(),
                strs_view(r@) == pretty_stmts(Statement::view_seq(v@.subrange(0, i as int)), interner@),
            decreases v.len() - i,
        {
            proof { assert(decreases_to!(v => v@[i as int])); }
            let e = v[i].pretty(interner);
            proof {
                Statement::lemma_view_seq_push(v@.subrange(0, i as int), v@[i as int]);
                assert(v@.subrange(0, i as int).push(v@[i as int]) =~= v@.subrange(0, i + 1));
                let vs = Statement::view_seq(v@.subrange(0, i as int)).push(v@[i as int]@);
                assert(vs.drop_last() =~= Statement::view_seq(v@.subrange(0, i as int)));
            }
            let ghost r0 = r@;
            r.push(e);
            proof {
                assert(r@.drop_last() =~= r0);
                assert(strs_view(r@) =~= strs_view(r0).push(e@));
            }
            i += 1;
        }
        assert(v@.subrange(0, v.len() as int) =~= v@);
        r
    }
}

} // verus!
