pub mod interner;
pub mod display;
