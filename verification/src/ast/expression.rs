//! Expressions of the language.
use vstd::prelude::*;
use crate::intern::interner::Symbol;
use crate::ast::literal::{Literal, SLit};
use crate::ast::statement::{Statement, SStmt};
use crate::text::{copy_string, seq_join, int_str, strs_view, push_str, int_to_string, join};
use crate::intern::interner::{Interner, spec_name};
use crate::ast::statement::{pretty_stmts};

verus! {

#[derive(Debug, Clone, Copy, PartialEq, Eq, Structural, Hash, PartialOrd, Ord)]
pub enum Operator {
    Plus,
    Minus,
    Multiply,
    Divide,
    Equal,
    NotEqual,
    GreaterThan,
    LessThan,
    GreaterThanOrEqual,
    LessThanOrEqual,
    And,
    Or,
    Exponent,
}

#[derive(Debug, Clone, Copy, PartialEq, Eq, Structural, Hash, PartialOrd, Ord)]
pub enum Prefix {
    Bang,
    Minus,
}

/// An expression. The pairs of a hash map literal are kept sorted by key,
/// with no key twice.
#[derive(Debug, PartialEq, Eq, Hash, PartialOrd, Ord)]
pub enum Expression {
    Error(String),
    Literal(Literal),
    Identifier(Symbol),
    Infix(Operator, Box<Expression>, Box<Expression>),
    Prefix(Prefix, Box<Expression>),
    If {
        condition: Box<Expression>,
        consequence: Vec<Statement>,
        alternative: Option<Vec<Statement>>,
    },
    Function {
        identifier: Option<Symbol>,
        parameters: Vec<Symbol>,
        body: Vec<Statement>,
    },
    Call {
        function: Box<Expression>,
        arguments: Vec<Expression>,
    },
    Array(Vec<Expression>),
    Index {
        left: Box<Expression>,
        index: Box<Expression>,
    },
    HashMap {
        pairs: Vec<(Expression, Expression)>,
    },
    Dot {
        identifier: Box<Expression>,
        attribute: Symbol,
    },
}

/// An expression as a mathematical value.
pub enum SExpr {
    Error(Seq<char>),
    Literal(SLit),
    Identifier(Symbol),
    Infix(Operator, Box<SExpr>, Box<SExpr>),
    Prefix(Prefix, Box<SExpr>),
    If { condition: Box<SExpr>, consequence: Seq<SStmt>, alternative: Option<Seq<SStmt>> },
    Function { identifier: Option<Symbol>, parameters: Seq<Symbol>, body: Seq<SStmt> },
    Call { function: Box<SExpr>, arguments: Seq<SExpr> },
    Array(Seq<SExpr>),
    Index { left: Box<SExpr>, index: Box<SExpr> },
    HashMap { pairs: Seq<(SExpr, SExpr)> },
    Dot { identifier: Box<SExpr>, attribute: Symbol },
}

impl Expression {
    pub open spec fn view(&self) -> SExpr
        decreases self,
    {
        match self {
            Expression::Error(s) => SExpr::Error(s@),
            Expression::Literal(l) => SExpr::Literal(l@),
            Expression::Identifier(i) => SExpr::Identifier(*i),
            Expression::Infix(op, l, r) => SExpr::Infix(*op, Box::new(l.view()), Box::new(r.view())),
            Expression::Prefix(p, e) => SExpr::Prefix(*p, Box::new(e.view())),
            Expression::If { condition, consequence, alternative } => SExpr::If {
                condition: Box::new(condition.view()),
                consequence: Statement::view_seq(consequence@),
                alternative: match alternative {
                    Some(a) => Some(Statement::view_seq(a@)),
                    None => None,
                },
            },
            Expression::Function { identifier, parameters, body } => SExpr::Function {
                identifier: *identifier,
                parameters: parameters@,
                body: Statement::view_seq(body@),
            },
            Expression::Call { function, arguments } => SExpr::Call {
                function: Box::new(function.view()),
                arguments: Expression::view_seq(arguments@),
            },
            Expression::Array(v) => SExpr::Array(Expression::view_seq(v@)),
            Expression::Index { left, index } => SExpr::Index {
                left: Box::new(left.view()),
                index: Box::new(index.view()),
            },
            Expression::HashMap { pairs } => SExpr::HashMap { pairs: Expression::view_pairs(pairs@) },
            Expression::Dot { identifier, attribute } => SExpr::Dot {
                identifier: Box::new(identifier.view()),
                attribute: *attribute,
            },
        }
    }

    pub open spec fn view_seq(s: Seq<Expression>) -> Seq<SExpr>
        decreases s,
    {
        if s.len() == 0 {
            Seq::empty()
        } else {
            Expression::view_seq(s.drop_last()).push(s.last().view())
        }
    }

    pub open spec fn view_pairs(s: Seq<(Expression, Expression)>) -> Seq<(SExpr, SExpr)>
        decreases s,
    {
        if s.len() == 0 {
            Seq::empty()
        } else {
            Expression::view_pairs(s.drop_last()).push((s.last().0.view(), s.last().1.view()))
        }
    }

    pub proof fn lemma_view_seq(s: Seq<Expression>)
        ensures
            Expression::view_seq(s).len() == s.len(),
            forall|i: int| 0 <= i < s.len() ==> #[trigger] Expression::view_seq(s)[i] == s[i].view(),
        decreases s.len(),
    {
        if s.len() > 0 {
            Expression::lemma_view_seq(s.drop_last());
        }
    }

    pub proof fn lemma_view_pairs(s: Seq<(Expression, Expression)>)
        ensures
            Expression::view_pairs(s).len() == s.len(),
            forall|i: int| 0 <= i < s.len() ==> #[trigger] Expression::view_pairs(s)[i] == (s[i].0.view(), s[i].1.view()),
        decreases s.len(),
    {
        if s.len() > 0 {
            Expression::lemma_view_pairs(s.drop_last());
        }
    }

    pub proof fn lemma_view_seq_push(s: Seq<Expression>, e: Expression)
        ensures
            Expression::view_seq(s.push(e)) == Expression::view_seq(s).push(e.view()),
    {
        assert(s.push(e).drop_last() =~= s);
    }

    pub proof fn lemma_view_pairs_push(s: Seq<(Expression, Expression)>, e: (Expression, Expression))
        ensures
            Expression::view_pairs(s.push(e)) == Expression::view_pairs(s).push((e.0.view(), e.1.view())),
    {
        assert(s.push(e).drop_last() =~= s);
    }

    /// A copy of this expression.
    pub fn copy(&self) -> (r: Expression)
        ensures
            r@ == self@,
        decreases self,
    {
        match self {
            Expression::Error(s) => Expression::Error(copy_string(s)),
            Expression::Literal(l) => Expression::Literal(l.copy()),
            Expression::Identifier(i) => Expression::Identifier(*i),
            Expression::Infix(op, l, r) => Expression::Infix(*op, Box::new(l.copy()), Box::new(r.copy())),
            Expression::Prefix(p, e) => Expression::Prefix(*p, Box::new(e.copy())),
            Expression::If { condition, consequence, alternative } => {
                let c = condition.copy();
                let cons = Statement::copy_vec(consequence);
                let alt = match alternative {
                    Some(a) => Some(Statement::copy_vec(a)),
                    None => None,
                };
                Expression::If { condition: Box::new(c), consequence: cons, alternative: alt }
            },
            Expression::Function { identifier, parameters, body } => {
                let params = copy_symbols(parameters);
                let b = Statement::copy_vec(body);
                Expression::Function { identifier: *identifier, parameters: params, body: b }
            },
            Expression::Call { function, arguments } => {
                let f = function.copy();
                let a = Expression::copy_vec(arguments);
                Expression::Call { function: Box::new(f), arguments: a }
            },
            Expression::Array(v) => Expression::Array(Expression::copy_vec(v)),
            Expression::Index { left, index } => {
                let l = left.copy();
                let i = index.copy();
                Expression::Index { left: Box::new(l), index: Box::new(i) }
            },
            Expression::HashMap { pairs } => Expression::HashMap { pairs: Expression::copy_pairs(pairs) },
            Expression::Dot { identifier, attribute } => {
                let i = identifier.copy();
                Expression::Dot { identifier: Box::new(i), attribute: *attribute }
            },
        }
    }

    /// A copy of a list of expressions.
    pub fn copy_vec(v: &Vec<Expression>) -> (r: Vec<Expression>)
        ensures
            Expression::view_seq(r@) == Expression::view_seq(v@),
        decreases v,
    {
        let mut r: Vec<Expression> = Vec::new();
        let mut i: usize = 0;
        #[verifier::loop_isolation(false)]
        while i < v.len()
            invariant
                i <= v.len(),
                Expression::view_seq(r@) == Expression::view_seq(v@.subrange(0, i as int)),
            decreases v.len() - i,
        {
            proof { assert(decreases_to!(v => v@[i as int])); }
            let e = v[i].copy();
            proof {
                Expression::lemma_view_seq_push(r@, e);
                Expression::lemma_view_seq_push(v@.subrange(0, i as int), v@[i as int]);
                assert(v@.subrange(0, i as int).push(v@[i as int]) =~= v@.subrange(0, i + 1));
            }
            r.push(e);
            i += 1;
        }
        assert(v@.subrange(0, v.len() as int) =~= v@);
        r
    }

    /// A copy of a list of key-value pairs.
    pub fn copy_pairs(v: &Vec<(Expression, Expression)>) -> (r: Vec<(Expression, Expression)>)
        ensures
            Expression::view_pairs(r@) == Expression::view_pairs(v@),
        decreases v,
    {
        let mut r: Vec<(Expression, Expression)> = Vec::new();
        let mut i: usize = 0;
        #[verifier::loop_isolation(false)]
        while i < v.len()
            invariant
                i <= v.len(),
                Expression::view_pairs(r@) == Expression::view_pairs(v@.subrange(0, i as int)),
            decreases v.len() - i,
        {
            proof {
                assert(decreases_to!(v => v@[i as int].0));
                assert(decreases_to!(v => v@[i as int].1));
            }
            let k = v[i].0.copy();
            let x = v[i].1.copy();
            proof {
                Expression::lemma_view_pairs_push(r@, (k, x));
                Expression::lemma_view_pairs_push(v@.subrange(0, i as int), v@[i as int]);
                assert(v@.subrange(0, i as int).push(v@[i as int]) =~= v@.subrange(0, i + 1));
            }
            r.push((k, x));
            i += 1;
        }
        assert(v@.subrange(0, v.len() as int) =~= v@);
        r
    }
}

pub open spec fn op_str(op: Operator) -> Seq<char> {
    match op {
        Operator::Plus => "+"@,
        Operator::Minus => "-"@,
        Operator::Multiply => "*"@,
        Operator::Divide => "/"@,
        Operator::Equal => "=="@,
        Operator::NotEqual => "!="@,
        Operator::GreaterThan => ">"@,
        Operator::LessThan => "<"@,
        Operator::GreaterThanOrEqual => ">="@,
        Operator::LessThanOrEqual => "<="@,
        Operator::And => "&&"@,
        Operator::Or => "||"@,
        Operator::Exponent => "**"@,
    }
}

pub open spec fn prefix_str(p: Prefix) -> Seq<char> {
    match p {
        Prefix::Bang => "!"@,
        Prefix::Minus => "-"@,
    }
}

pub open spec fn bool_str(b: bool) -> Seq<char> {
    if b { "true"@ } else { "false"@ }
}

/// How a literal is printed in the tree notation.
pub open spec fn lit_pretty(l: SLit) -> Seq<char> {
    match l {
        SLit::Number(n) => "Number ("@ + int_str(n as int) + ")"@,
        SLit::Str(s) => "String ("@ + s + ")"@,
        SLit::Boolean(b) => "Bool ("@ + bool_str(b) + ")"@,
    }
}

/// The names of a list of symbols.
pub open spec fn names_of(s: Seq<Symbol>, names: Seq<Seq<char>>) -> Seq<Seq<char>> {
    s.map_values(|x: Symbol| spec_name(names, x))
}

/// The tree notation of an expression, as the parser tests print it.
pub open spec fn pretty_expr(e: SExpr, names: Seq<Seq<char>>) -> Seq<char>
    decreases e,
{
    match e {
        SExpr::Error(s) => "error: ( "@ + s + " ) "@,
        SExpr::Literal(l) => lit_pretty(l),
        SExpr::Identifier(i) => "Ident ("@ + spec_name(names, i) + ")"@,
        SExpr::Infix(op, l, r) => op_str(op) + " Left "@ + pretty_expr(*l, names) + " , Right "@ + pretty_expr(*r, names),
        SExpr::Prefix(p, x) => prefix_str(p) + " "@ + pretty_expr(*x, names),
        SExpr::If { condition, consequence, alternative } => {
            let c = pretty_expr(*condition, names);
            let cons = seq_join(pretty_stmts(consequence, names), ", "@);
            match alternative {
                Some(alt) => "If "@ + c + " { "@ + cons + " } else "@ + seq_join(pretty_stmts(alt, names), ", "@),
                None => "If "@ + c + " { "@ + cons + " }"@,
            }
        },
        SExpr::Function { identifier, parameters, body } => {
            let ps = seq_join(names_of(parameters, names), ", "@);
            let b = seq_join(pretty_stmts(body, names), ", "@);
            match identifier {
                Some(i) => "Fn "@ + spec_name(names, i) + " ( "@ + ps + " ) "@ + b,
                None => "Fn ( "@ + ps + " ) "@ + b,
            }
        },
        SExpr::Call { function, arguments } =>
            "Call "@ + pretty_expr(*function, names) + " , "@ + seq_join(pretty_exprs(arguments, names), ", "@),
        SExpr::Array(v) => "[ "@ + seq_join(pretty_exprs(v, names), ", "@) + " ]"@,
        SExpr::Index { left, index } => "("@ + pretty_expr(*left, names) + " ["@ + pretty_expr(*index, names) + "])"@,
        SExpr::HashMap { pairs } => "{ "@ + seq_join(pretty_pairs(pairs, names), ", "@) + " }"@,
        SExpr::Dot { identifier, attribute } => spec_name(names, attribute) + " of "@ + pretty_expr(*identifier, names),
    }
}

pub open spec fn pretty_exprs(s: Seq<SExpr>, names: Seq<Seq<char>>) -> Seq<Seq<char>>
    decreases s,
{
    if s.len() == 0 {
        Seq::empty()
    } else {
        pretty_exprs(s.drop_last(), names).push(pretty_expr(s.last(), names))
    }
}

pub open spec fn pretty_pairs(s: Seq<(SExpr, SExpr)>, names: Seq<Seq<char>>) -> Seq<Seq<char>>
    decreases s,
{
    if s.len() == 0 {
        Seq::empty()
    } else {
        pretty_pairs(s.drop_last(), names).push(
            pretty_expr(s.last().0, names) + " : "@ + pretty_expr(s.last().1, names))
    }
}

/// The names of a list of symbols.
pub fn symbol_names(v: &Vec<Symbol>, interner: &Interner) -> (r: Vec<String>)
    ensures
        strs_view(r@) == names_of(v@, interner@),
{
    let mut r: Vec<String> = Vec::new();
    let mut i: usize = 0;
    while i < v.len()
        invariant
            i <= v.len(),
            r@.len() == i,
            forall|j: int| 0 <= j < i ==> (#[trigger] r@[j])@ == spec_name(interner@, v@[j]),
        decreases v.len() - i,
    {
        let n = interner.name_of(v[i]);
        r.push(n);
        i += 1;
    }
    assert(strs_view(r@) =~= names_of(v@, interner@));
    r
}

pub fn op_string(op: Operator) -> (r: &'static str)
    ensures
        r@ == op_str(op),
{
    match op {
        Operator::Plus => "+",
        Operator::Minus => "-",
        Operator::Multiply => "*",
        Operator::Divide => "/",
        Operator::Equal => "==",
        Operator::NotEqual => "!=",
        Operator::GreaterThan => ">",
        Operator::LessThan => "<",
        Operator::GreaterThanOrEqual => ">=",
        Operator::LessThanOrEqual => "<=",
        Operator::And => "&&",
        Operator::Or => "||",
        Operator::Exponent => "**",
    }
}

pub fn bool_string(b: bool) -> (r: &'static str)
    ensures
        r@ == bool_str(b),
{
    if b { "true" } else { "false" }
}

impl Literal {
    /// The tree notation of this literal.
    pub fn pretty(&self) -> (r: String)
        ensures
            r@ == lit_pretty(self@),
    {
        let mut s = String::new();
        match self {
            Literal::Number(n) => {
                push_str(&mut s, "Number (");
                let t = int_to_string(*n);
                push_str(&mut s, t.as_str());
            },
            Literal::String(x) => {
                push_str(&mut s, "String (");
                push_str(&mut s, x.as_str());
            },
            Literal::Boolean(b) => {
                push_str(&mut s, "Bool (");
                push_str(&mut s, bool_string(*b));
            },
        }
        push_str(&mut s, ")");
        assert(s@ =~= lit_pretty(self@));
        s
    }
}

impl Expression {
    /// The tree notation of this expression.
    pub fn pretty(&self, interner: &Interner) -> (r: String)
        ensures
            r@ == pretty_expr(self@, interner@),
        decreases self,
    {
        let mut s = String::new();
        match self {
            Expression::Error(x) => {
                push_str(&mut s, "error: ( ");
                push_str(&mut s, x.as_str());
                push_str(&mut s, " ) ");
            },
            Expression::Literal(l) => {
                s = l.pretty();
            },
            Expression::Identifier(i) => {
                push_str(&mut s, "Ident (");
                let n = interner.name_of(*i);
                push_str(&mut s, n.as_str());
                push_str(&mut s, ")");
            },
            Expression::Infix(op, l, r) => {
                push_str(&mut s, op_string(*op));
                push_str(&mut s, " Left ");
                let a = l.pretty(interner);
                push_str(&mut s, a.as_str());
                push_str(&mut s, " , Right ");
                let b = r.pretty(interner);
                push_str(&mut s, b.as_str());
            },
            Expression::Prefix(p, x) => {
                push_str(&mut s, match p { Prefix::Bang => "!", Prefix::Minus => "-" });
                push_str(&mut s, " ");
                let a = x.pretty(interner);
                push_str(&mut s, a.as_str());
            },
            Expression::If { condition, consequence, alternative } => {
                push_str(&mut s, "If ");
                let c = condition.pretty(interner);
                push_str(&mut s, c.as_str());
                push_str(&mut s, " { ");
                let cs = Statement::pretty_vec(consequence, interner);
                let cons = join(&cs, ", ");
                push_str(&mut s, cons.as_str());
                match alternative {
                    Some(alt) => {
                        push_str(&mut s, " } else ");
                        let al = Statement::pretty_vec(alt, interner);
                        let a = join(&al, ", ");
                        push_str(&mut s, a.as_str());
                    },
                    None => {
                        push_str(&mut s, " }");
                    },
                }
            },
            Expression::Function { identifier, parameters, body } => {
                let pl = symbol_names(parameters, interner);
                let ps = join(&pl, ", ");
                let bl = Statement::pretty_vec(body, interner);
                let b = join(&bl, ", ");
                match identifier {
                    Some(i) => {
                        push_str(&mut s, "Fn ");
                        let n = interner.name_of(*i);
                        push_str(&mut s, n.as_str());
                        push_str(&mut s, " ( ");
                    },
                    None => {
                        push_str(&mut s, "Fn ( ");
                    },
                }
                push_str(&mut s, ps.as_str());
                push_str(&mut s, " ) ");
                push_str(&mut s, b.as_str());
            },
            Expression::Call { function, arguments } => {
                push_str(&mut s, "Call ");
                let f = function.pretty(interner);
                push_str(&mut s, f.as_str());
                push_str(&mut s, " , ");
                let al = Expression::pretty_vec(arguments, interner);
                let a = join(&al, ", ");
                push_str(&mut s, a.as_str());
            },
            Expression::Array(v) => {
                push_str(&mut s, "[ ");
                let al = Expression::pretty_vec(v, interner);
                let a = join(&al, ", ");
                push_str(&mut s, a.as_str());
                push_str(&mut s, " ]");
            },
            Expression::Index { left, index } => {
                push_str(&mut s, "(");
                let l = left.pretty(interner);
                push_str(&mut s, l.as_str());
                push_str(&mut s, " [");
                let i = index.pretty(interner);
                push_str(&mut s, i.as_str());
                push_str(&mut s, "])");
            },
            Expression::HashMap { pairs } => {
                push_str(&mut s, "{ ");
                let pl = Expression::pretty_pair_vec(pairs, interner);
                let p = join(&pl, ", ");
                push_str(&mut s, p.as_str());
                push_str(&mut s, " }");
            },
            Expression::Dot { identifier, attribute } => {
                let n = interner.name_of(*attribute);
                push_str(&mut s, n.as_str());
                push_str(&mut s, " of ");
                let i = identifier.pretty(interner);
                push_str(&mut s, i.as_str());
            },
        }
        assert(s@ =~= pretty_expr(self@, interner@));
        s
    }

    /// The tree notation of each expression of a list.
    pub fn pretty_vec(v: &Vec<Expression>, interner: &Interner) -> (r: Vec<String>)
        ensures
            strs_view(r@) == pretty_exprs(Expression::view_seq(v@), interner@),
        decreases v,
    {
        let mut r: Vec<String> = Vec::new();
        let mut i: usize = 0;
        #[verifier::loop_isolation(false)]
        while i < v.len()
            invariant
                i <= v.len(),
                strs_view(r@) == pretty_exprs(Expression::view_seq(v@.subrange(0, i as int)), interner@),
            decreases v.len() - i,
        {
            proof { assert(decreases_to!(v => v@[i as int])); }
            let e = v[i].pretty(interner);
            proof {
                Expression::lemma_view_seq_push(v@.subrange(0, i as int), v@[i as int]);
                assert(v@.subrange(0, i as int).push(v@[i as int]) =~= v@.subrange(0, i + 1));
                let vs = Expression::view_seq(v@.subrange(0, i as int)).push(v@[i as int]@);
                assert(vs.drop_last() =~= Expression::view_seq(v@.subrange(0, i as int)));
            }
            let ghost r0 = r@;
            r.push(e);
            proof {
                assert(r@.drop_last() =~= r0);
                assert(strs_view(r@) =~= strs_view(r0).push(e@));
            }
            i += 1;
        }
        assert(v@.subrange(0, v.len() as int) =~= v@);
        r
    }

    /// `key : value` for each pair of a hash map literal.
    pub fn pretty_pair_vec(v: &Vec<(Expression, Expression)>, interner: &Interner) -> (r: Vec<String>)
        ensures
            strs_view(r@) == pretty_pairs(Expression::view_pairs(v@), interner@),
        decreases v,
    {
        let mut r: Vec<String> = Vec::new();
        let mut i: usize = 0;
        #[verifier::loop_isolation(false)]
        while i < v.len()
            invariant
                i <= v.len(),
                strs_view(r@) == pretty_pairs(Expression::view_pairs(v@.subrange(0, i as int)), interner@),
            decreases v.len() - i,
        {
            proof {
                assert(decreases_to!(v => v@[i as int].0));
                assert(decreases_to!(v => v@[i as int].1));
            }
            let mut e = v[i].0.pretty(interner);
            push_str(&mut e, " : ");
            let x = v[i].1.pretty(interner);
            push_str(&mut e, x.as_str());
            proof {
                Expression::lemma_view_pairs_push(v@.subrange(0, i as int), v@[i as int]);
                assert(v@.subrange(0, i as int).push(v@[i as int]) =~= v@.subrange(0, i + 1));
                let vs = Expression::view_pairs(v@.subrange(0, i as int)).push((v@[i as int].0@, v@[i as int].1@));
                assert(vs.drop_last() =~= Expression::view_pairs(v@.subrange(0, i as int)));
            }
            let ghost r0 = r@;
            r.push(e);
            proof {
                assert(r@.drop_last() =~= r0);
                assert(strs_view(r@) =~= strs_view(r0).push(e@));
            }
            i += 1;
        }
        assert(v@.subrange(0, v.len() as int) =~= v@);
        r
    }
}

/// A copy of a list of symbols.
pub fn copy_symbols(v: &Vec<Symbol>) -> (r: Vec<Symbol>)
    ensures
        r@ == v@,
{
    let mut r: Vec<Symbol> = Vec::new();
    let mut i: usize = 0;
    while i < v.len()
        invariant
            i <= v.len(),
            r@ == v@.subrange(0, i as int),
        decreases v.len() - i,
    {
        r.push(v[i]);
        i += 1;
        assert(r@ =~= v@.subrange(0, i as int));
    }
    assert(v@.subrange(0, v.len() as int) =~= v@);
    r
}

} // verus!
