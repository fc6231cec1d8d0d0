pub mod deriver;
pub mod evaluator;
pub mod integrator;
