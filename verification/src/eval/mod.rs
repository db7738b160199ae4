pub mod program;
pub mod object;
pub mod env;
pub mod semantics;
pub mod evaluate;
pub mod evaluator;
pub mod laws;
