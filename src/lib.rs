//! The integer core of a Monte Carlo ray tracer: the deterministic PCG generator that
//! feeds every stochastic decision, and the plain-text pixel stream that a render emits.
pub mod color;
pub mod rand;
