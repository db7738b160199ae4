pub mod code;
pub mod symbol_table;
pub mod compiler;
pub mod vm;
pub mod correctness;
