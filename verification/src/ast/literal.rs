//! Literal values written in the source.
use vstd::prelude::*;
use crate::text::copy_string;

verus! {

#[derive(Debug, Clone, PartialEq, Eq, Hash, PartialOrd, Ord)]
pub enum Literal {
    Number(i64),
    String(String),
    Boolean(bool),
}

/// A literal as a mathematical value.
pub enum SLit {
    Number(i64),
    Str(Seq<char>),
    Boolean(bool),
}

impl Literal {
    pub open spec fn view(&self) -> SLit {
        match self {
            Literal::Number(n) => SLit::Number(*n),
            Literal::String(s) => SLit::Str(s@),
            Literal::Boolean(b) => SLit::Boolean(*b),
        }
    }

    /// A copy of this literal.
    pub fn copy(&self) -> (r: Literal)
        ensures
            r@ == self@,
    {
        match self {
            Literal::Number(n) => Literal::Number(*n),
            Literal::String(s) => Literal::String(copy_string(s)),
            Literal::Boolean(b) => Literal::Boolean(*b),
        }
    }
}

} // verus!
