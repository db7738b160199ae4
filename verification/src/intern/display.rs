//! Printing values whose text needs the interned names.
use vstd::prelude::*;
use crate::intern::interner::Interner;
use crate::ast::expression::{Expression, pretty_expr};
use crate::ast::statement::{Statement, pretty_stmt};
use crate::eval::object::{Object, obj_text};

verus! {

/// Values printed with the help of an interner.
pub trait PrettyDisplay {
    /// The text of the value, given the interned names.
    spec fn pretty_spec(&self, names: Seq<Seq<char>>) -> Seq<char>;

    fn pretty_string(&self, interner: &Interner) -> (r: String)
        ensures
            r@ == self.pretty_spec(interner@);
}

impl PrettyDisplay for Expression {
    open spec fn pretty_spec(&self, names: Seq<Seq<char>>) -> Seq<char> {
        pretty_expr(self@, names)
    }

    fn pretty_string(&self, interner: &Interner) -> (r: String) {
        self.pretty(interner)
    }
}

impl PrettyDisplay for Statement {
    open spec fn pretty_spec(&self, names: Seq<Seq<char>>) -> Seq<char> {
        pretty_stmt(self@, names)
    }

    fn pretty_string(&self, interner: &Interner) -> (r: String) {
        self.pretty(interner)
    }
}

impl PrettyDisplay for Object {
    open spec fn pretty_spec(&self, names: Seq<Seq<char>>) -> Seq<char> {
        obj_text(self@, names)
    }

    fn pretty_string(&self, interner: &Interner) -> (r: String) {
        self.text(interner)
    }
}

/// A value together with the interner its names live in.
pub struct WithInterner<'a, T: PrettyDisplay> {
    pub value: &'a T,
    pub interner: &'a Interner,
}

impl<'a, T: PrettyDisplay> WithInterner<'a, T> {
    /// The text of the value.
    pub fn to_string(&self) -> (r: String)
        ensures
            r@ == self.value.pretty_spec(self.interner@),
    {
        self.value.pretty_string(self.interner)
    }
}

} // verus!
