pub mod evaluator;
pub mod expr;
pub mod simplify;
