pub mod arith;
pub mod bits;
pub mod engine;
pub mod errors;
pub mod line;
pub mod synth;
