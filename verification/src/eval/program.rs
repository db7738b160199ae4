//! A parsed program: the statements at the top level.
use vstd::prelude::*;
use crate::ast::statement::{Statement, SStmt};

verus! {

pub struct Program {
    pub statements: Vec<Statement>,
}

impl Program {
    pub open spec fn view(&self) -> Seq<SStmt> {
        Statement::view_seq(self.statements@)
    }
}

} // verus!
