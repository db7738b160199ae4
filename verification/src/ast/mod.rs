pub mod literal;
pub mod expression;
pub mod statement;
pub mod order;
pub mod equality;
pub mod debug;
pub mod parser;
