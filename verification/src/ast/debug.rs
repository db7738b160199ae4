//! The diagnostic (`{:?}`) text of trees: each variant's name with its fields.
use vstd::prelude::*;
use crate::intern::interner::Symbol;
use crate::ast::literal::{Literal, SLit};
use crate::ast::expression::{Expression, SExpr, Operator, Prefix, bool_str, bool_string};
use crate::ast::statement::{Statement, SStmt};
use crate::text::{seq_join, int_str, nat_str, str_debug, strs_view, push_str, join, int_to_string, nat_to_string, debug_string, string_of};

verus! {

pub open spec fn op_debug(op: Operator) -> Seq<char> {
    match op {
        Operator::Plus => "Plus"@,
        Operator::Minus => "Minus"@,
        Operator::Multiply => "Multiply"@,
        Operator::Divide => "Divide"@,
        Operator::Equal => "Equal"@,
        Operator::NotEqual => "NotEqual"@,
        Operator::GreaterThan => "GreaterThan"@,
        Operator::LessThan => "LessThan"@,
        Operator::GreaterThanOrEqual => "GreaterThanOrEqual"@,
        Operator::LessThanOrEqual => "LessThanOrEqual"@,
        Operator::And => "And"@,
        Operator::Or => "Or"@,
        Operator::Exponent => "Exponent"@,
    }
}

pub open spec fn prefix_debug(p: Prefix) -> Seq<char> {
    match p {
        Prefix::Bang => "Bang"@,
        Prefix::Minus => "Minus"@,
    }
}

pub open spec fn sym_debug(s: Symbol) -> Seq<char> {
    "Symbol("@ + nat_str(s.0 as nat) + ")"@
}

pub open spec fn opt_sym_debug(s: Option<Symbol>) -> Seq<char> {
    match s {
        Some(x) => "Some("@ + sym_debug(x) + ")"@,
        None => "None"@,
    }
}

pub open spec fn syms_debug(s: Seq<Symbol>) -> Seq<char> {
    "["@ + seq_join(s.map_values(|x: Symbol| sym_debug(x)), ", "@) + "]"@
}

pub open spec fn lit_debug(l: SLit) -> Seq<char> {
    match l {
        SLit::Number(n) => "Number("@ + int_str(n as int) + ")"@,
        SLit::Str(s) => "String("@ + str_debug(s) + ")"@,
        SLit::Boolean(b) => "Boolean("@ + bool_str(b) + ")"@,
    }
}

/// The diagnostic text of an expression; a hash map's pairs print as a map.
pub open spec fn expr_debug(e: SExpr) -> Seq<char>
    decreases e,
{
    match e {
        SExpr::Error(s) => "Error("@ + str_debug(s) + ")"@,
        SExpr::Literal(l) => "Literal("@ + lit_debug(l) + ")"@,
        SExpr::Identifier(s) => "Identifier("@ + sym_debug(s) + ")"@,
        SExpr::Infix(op, l, r) => "Infix("@ + op_debug(op) + ", "@ + expr_debug(*l) + ", "@ + expr_debug(*r) + ")"@,
        SExpr::Prefix(p, x) => "Prefix("@ + prefix_debug(p) + ", "@ + expr_debug(*x) + ")"@,
        SExpr::If { condition, consequence, alternative } => "If { condition: "@ + expr_debug(*condition)
            + ", consequence: ["@ + seq_join(stmt_debugs(consequence), ", "@)
            + "], alternative: "@ + match alternative {
                Some(a) => "Some(["@ + seq_join(stmt_debugs(a), ", "@) + "])"@,
                None => "None"@,
            } + " }"@,
        SExpr::Function { identifier, parameters, body } => "Function { identifier: "@ + opt_sym_debug(identifier)
            + ", parameters: "@ + syms_debug(parameters) + ", body: ["@ + seq_join(stmt_debugs(body), ", "@) + "] }"@,
        SExpr::Call { function, arguments } => "Call { function: "@ + expr_debug(*function)
            + ", arguments: ["@ + seq_join(expr_debugs(arguments), ", "@) + "] }"@,
        SExpr::Array(v) => "Array(["@ + seq_join(expr_debugs(v), ", "@) + "])"@,
        SExpr::Index { left, index } => "Index { left: "@ + expr_debug(*left) + ", index: "@ + expr_debug(*index) + " }"@,
        SExpr::HashMap { pairs } => "HashMap { pairs: {"@ + seq_join(pair_debugs(pairs), ", "@) + "} }"@,
        SExpr::Dot { identifier, attribute } => "Dot { identifier: "@ + expr_debug(*identifier)
            + ", attribute: "@ + sym_debug(attribute) + " }"@,
    }
}

pub open spec fn expr_debugs(s: Seq<SExpr>) -> Seq<Seq<char>>
    decreases s,
{
    if s.len() == 0 {
        Seq::empty()
    } else {
        expr_debugs(s.drop_last()).push(expr_debug(s.last()))
    }
}

pub open spec fn pair_debugs(s: Seq<(SExpr, SExpr)>) -> Seq<Seq<char>>
    decreases s,
{
    if s.len() == 0 {
        Seq::empty()
    } else {
        pair_debugs(s.drop_last()).push(expr_debug(s.last().0) + ": "@ + expr_debug(s.last().1))
    }
}

pub open spec fn stmt_debug(s: SStmt) -> Seq<char>
    decreases s,
{
    match s {
        SStmt::Let(i, e) => "Let("@ + sym_debug(i) + ", "@ + expr_debug(e) + ")"@,
        SStmt::Assignment(i, e) => "Assignment("@ + sym_debug(i) + ", "@ + expr_debug(e) + ")"@,
        SStmt::Return(e) => "Return("@ + expr_debug(e) + ")"@,
        SStmt::Expression(e) => "Expression("@ + expr_debug(e) + ")"@,
        SStmt::Error(m) => "Error("@ + str_debug(m) + ")"@,
        SStmt::While { condition, body } => "While { condition: "@ + expr_debug(condition)
            + ", body: ["@ + seq_join(stmt_debugs(body), ", "@) + "] }"@,
    }
}

pub open spec fn stmt_debugs(s: Seq<SStmt>) -> Seq<Seq<char>>
    decreases s,
{
    if s.len() == 0 {
        Seq::empty()
    } else {
        stmt_debugs(s.drop_last()).push(stmt_debug(s.last()))
    }
}

fn op_debug_string(op: Operator) -> (r: &'static str)
    ensures
        r@ == op_debug(op),
{
    match op {
        Operator::Plus => "Plus",
        Operator::Minus => "Minus",
        Operator::Multiply => "Multiply",
        Operator::Divide => "Divide",
        Operator::Equal => "Equal",
        Operator::NotEqual => "NotEqual",
        Operator::GreaterThan => "GreaterThan",
        Operator::LessThan => "LessThan",
        Operator::GreaterThanOrEqual => "GreaterThanOrEqual",
        Operator::LessThanOrEqual => "LessThanOrEqual",
        Operator::And => "And",
        Operator::Or => "Or",
        Operator::Exponent => "Exponent",
    }
}

fn prefix_debug_string(p: Prefix) -> (r: &'static str)
    ensures
        r@ == prefix_debug(p),
{
    match p {
        Prefix::Bang => "Bang",
        Prefix::Minus => "Minus",
    }
}

fn push_sym(s: &mut String, x: Symbol)
    ensures
        final(s)@ == old(s)@ + sym_debug(x),
{
    push_str(s, "Symbol(");
    let n = nat_to_string(x.0 as u64);
    push_str(s, n.as_str());
    push_str(s, ")");
}

fn push_syms(s: &mut String, v: &Vec<Symbol>)
    ensures
        final(s)@ == old(s)@ + syms_debug(v@),
{
    let mut parts: Vec<String> = Vec::new();
    let mut i: usize = 0;
    while i < v.len()
        invariant
            i <= v@.len(),
            parts@.len() == i,
            forall|j: int| 0 <= j < i ==> (#[trigger] parts@[j])@ == sym_debug(v@[j]),
        decreases v@.len() - i,
    {
        let mut p = String::new();
        push_sym(&mut p, v[i]);
        parts.push(p);
        i += 1;
    }
    assert(strs_view(parts@) =~= v@.map_values(|x: Symbol| sym_debug(x)));
    push_str(s, "[");
    let t = join(&parts, ", ");
    push_str(s, t.as_str());
    push_str(s, "]");
}

fn push_lit(s: &mut String, l: &Literal)
    ensures
        final(s)@ == old(s)@ + lit_debug(l@),
{
    match l {
        Literal::Number(n) => {
            push_str(s, "Number(");
            let t = int_to_string(*n);
            push_str(s, t.as_str());
        },
        Literal::String(x) => {
            push_str(s, "String(");
            let t = debug_string(x.as_str());
            push_str(s, t.as_str());
        },
        Literal::Boolean(b) => {
            push_str(s, "Boolean(");
            push_str(s, bool_string(*b));
        },
    }
    push_str(s, ")");
}

impl Expression {
    /// The diagnostic text of this expression.
    pub fn debug_text(&self) -> (r: String)
        ensures
            r@ == expr_debug(self@),
        decreases self,
    {
        let mut s = String::new();
        match self {
            Expression::Error(x) => {
                push_str(&mut s, "Error(");
                let t = debug_string(x.as_str());
                push_str(&mut s, t.as_str());
                push_str(&mut s, ")");
            },
            Expression::Literal(l) => {
                push_str(&mut s, "Literal(");
                push_lit(&mut s, l);
                push_str(&mut s, ")");
            },
            Expression::Identifier(x) => {
                push_str(&mut s, "Identifier(");
                push_sym(&mut s, *x);
                push_str(&mut s, ")");
            },
            Expression::Infix(op, l, r) => {
                push_str(&mut s, "Infix(");
                push_str(&mut s, op_debug_string(*op));
                push_str(&mut s, ", ");
                let a = l.debug_text();
                push_str(&mut s, a.as_str());
                push_str(&mut s, ", ");
                let b = r.debug_text();
                push_str(&mut s, b.as_str());
                push_str(&mut s, ")");
            },
            Expression::Prefix(p, x) => {
                push_str(&mut s, "Prefix(");
                push_str(&mut s, prefix_debug_string(*p));
                push_str(&mut s, ", ");
                let a = x.debug_text();
                push_str(&mut s, a.as_str());
                push_str(&mut s, ")");
            },
            Expression::If { condition, consequence, alternative } => {
                push_str(&mut s, "If { condition: ");
                let c = condition.debug_text();
                push_str(&mut s, c.as_str());
                push_str(&mut s, ", consequence: [");
                let cs = Statement::debug_vec(consequence);
                let t = join(&cs, ", ");
                push_str(&mut s, t.as_str());
                push_str(&mut s, "], alternative: ");
                match alternative {
                    Some(a) => {
                        push_str(&mut s, "Some([");
                        let al = Statement::debug_vec(a);
                        let u = join(&al, ", ");
                        push_str(&mut s, u.as_str());
                        push_str(&mut s, "])");
                    },
                    None => { push_str(&mut s, "None"); },
                }
                push_str(&mut s, " }");
            },
            Expression::Function { identifier, parameters, body } => {
                push_str(&mut s, "Function { identifier: ");
                match identifier {
                    Some(x) => {
                        push_str(&mut s, "Some(");
                        push_sym(&mut s, *x);
                        push_str(&mut s, ")");
                    },
                    None => { push_str(&mut s, "None"); },
                }
                push_str(&mut s, ", parameters: ");
                push_syms(&mut s, parameters);
                push_str(&mut s, ", body: [");
                let bs = Statement::debug_vec(body);
                let t = join(&bs, ", ");
                push_str(&mut s, t.as_str());
                push_str(&mut s, "] }");
            },
            Expression::Call { function, arguments } => {
                push_str(&mut s, "Call { function: ");
                let f = function.debug_text();
                push_str(&mut s, f.as_str());
                push_str(&mut s, ", arguments: [");
                let al = Expression::debug_vec(arguments);
                let t = join(&al, ", ");
                push_str(&mut s, t.as_str());
                push_str(&mut s, "] }");
            },
            Expression::Array(v) => {
                push_str(&mut s, "Array([");
                let al = Expression::debug_vec(v);
                let t = join(&al, ", ");
                push_str(&mut s, t.as_str());
                push_str(&mut s, "])");
            },
            Expression::Index { left, index } => {
                push_str(&mut s, "Index { left: ");
                let l = left.debug_text();
                push_str(&mut s, l.as_str());
                push_str(&mut s, ", index: ");
                let i = index.debug_text();
                push_str(&mut s, i.as_str());
                push_str(&mut s, " }");
            },
            Expression::HashMap { pairs } => {
                push_str(&mut s, "HashMap { pairs: {");
                let pl = Expression::debug_pairs(pairs);
                let t = join(&pl, ", ");
                push_str(&mut s, t.as_str());
                push_str(&mut s, "} }");
            },
            Expression::Dot { identifier, attribute } => {
                push_str(&mut s, "Dot { identifier: ");
                let i = identifier.debug_text();
                push_str(&mut s, i.as_str());
                push_str(&mut s, ", attribute: ");
                push_sym(&mut s, *attribute);
                push_str(&mut s, " }");
            },
        }
        assert(s@ =~= expr_debug(self@));
        s
    }

    pub fn debug_vec(v: &Vec<Expression>) -> (r: Vec<String>)
        ensures
            strs_view(r@) == expr_debugs(Expression::view_seq(v@)),
        decreases v,
    {
        let mut r: Vec<String> = Vec::new();
        let mut i: usize = 0;
        #[verifier::loop_isolation(false)]
        while i < v.len()
            invariant
                i <= v.len(),
                strs_view(r@) == expr_debugs(Expression::view_seq(v@.subrange(0, i as int))),
            decreases v.len() - i,
        {
            proof { assert(decreases_to!(v => v@[i as int])); }
            let t = v[i].debug_text();
            proof {
                Expression::lemma_view_seq_push(v@.subrange(0, i as int), v@[i as int]);
                assert(v@.subrange(0, i as int).push(v@[i as int]) =~= v@.subrange(0, i + 1));
                let vs = Expression::view_seq(v@.subrange(0, i + 1));
                assert(vs.drop_last() =~= Expression::view_seq(v@.subrange(0, i as int)));
                assert(strs_view(r@.push(t)) =~= strs_view(r@).push(t@));
            }
            r.push(t);
            i += 1;
        }
        assert(v@.subrange(0, v.len() as int) =~= v@);
        r
    }

    pub fn debug_pairs(v: &Vec<(Expression, Expression)>) -> (r: Vec<String>)
        ensures
            strs_view(r@) == pair_debugs(Expression::view_pairs(v@)),
        decreases v,
    {
        let mut r: Vec<String> = Vec::new();
        let mut i: usize = 0;
        #[verifier::loop_isolation(false)]
        while i < v.len()
            invariant
                i <= v.len(),
                strs_view(r@) == pair_debugs(Expression::view_pairs(v@.subrange(0, i as int))),
            decreases v.len() - i,
        {
            proof {
                assert(decreases_to!(v => v@[i as int].0));
                assert(decreases_to!(v => v@[i as int].1));
            }
            let mut t = v[i].0.debug_text();
            push_str(&mut t, ": ");
            let x = v[i].1.debug_text();
            push_str(&mut t, x.as_str());
            proof {
                Expression::lemma_view_pairs_push(v@.subrange(0, i as int), v@[i as int]);
                assert(v@.subrange(0, i as int).push(v@[i as int]) =~= v@.subrange(0, i + 1));
                let vs = Expression::view_pairs(v@.subrange(0, i + 1));
                assert(vs.drop_last() =~= Expression::view_pairs(v@.subrange(0, i as int)));
                assert(strs_view(r@.push(t)) =~= strs_view(r@).push(t@));
            }
            r.push(t);
            i += 1;
        }
        assert(v@.subrange(0, v.len() as int) =~= v@);
        r
    }
}

impl Statement {
    /// The diagnostic text of this statement.
    pub fn debug_text(&self) -> (r: String)
        ensures
            r@ == stmt_debug(self@),
        decreases self,
    {
        let mut s = String::new();
        match self {
            Statement::Let(i, e) => {
                push_str(&mut s, "Let(");
                push_sym(&mut s, *i);
                push_str(&mut s, ", ");
                let t = e.debug_text();
                push_str(&mut s, t.as_str());
                push_str(&mut s, ")");
            },
            Statement::Assignment(i, e) => {
                push_str(&mut s, "Assignment(");
                push_sym(&mut s, *i);
                push_str(&mut s, ", ");
                let t = e.debug_text();
                push_str(&mut s, t.as_str());
                push_str(&mut s, ")");
            },
            Statement::Return(e) => {
                push_str(&mut s, "Return(");
                let t = e.debug_text();
                push_str(&mut s, t.as_str());
                push_str(&mut s, ")");
            },
            Statement::Expression(e) => {
                push_str(&mut s, "Expression(");
                let t = e.debug_text();
                push_str(&mut s, t.as_str());
                push_str(&mut s, ")");
            },
            Statement::Error(m) => {
                push_str(&mut s, "Error(");
                let t = debug_string(m.as_str());
                push_str(&mut s, t.as_str());
                push_str(&mut s, ")");
            },
            Statement::While { condition, body } => {
                push_str(&mut s, "While { condition: ");
                let c = condition.debug_text();
                push_str(&mut s, c.as_str());
                push_str(&mut s, ", body: [");
                let bs = Statement::debug_vec(body);
                let t = join(&bs, ", ");
                push_str(&mut s, t.as_str());
                push_str(&mut s, "] }");
            },
        }
        assert(s@ =~= stmt_debug(self@));
        s
    }

    pub fn debug_vec(v: &Vec<Statement>) -> (r: Vec<String>)
        ensures
            strs_view(r@) == stmt_debugs(Statement::view_seq(v@)),
        decreases v,
    {
        let mut r: Vec<String> = Vec::new();
        let mut i: usize = 0;
        #[verifier::loop_isolation(false)]
        while i < v.len()
            invariant
                i <= v.len(),
                strs_view(r@) == stmt_debugs(Statement::view_seq(v@.subrange(0, i as int))),
            decreases v.len() - i,
        {
            proof { assert(decreases_to!(v => v@[i as int])); }
            let t = v[i].debug_text();
            proof {
                Statement::lemma_view_seq_push(v@.subrange(0, i as int), v@[i as int]);
                assert(v@.subrange(0, i as int).push(v@[i as int]) =~= v@.subrange(0, i + 1));
                let vs = Statement::view_seq(v@.subrange(0, i + 1));
                assert(vs.drop_last() =~= Statement::view_seq(v@.subrange(0, i as int)));
                assert(strs_view(r@.push(t)) =~= strs_view(r@).push(t@));
            }
            r.push(t);
            i += 1;
        }
        assert(v@.subrange(0, v.len() as int) =~= v@);
        r
    }
}

} // verus!
