//! A minimal arithmetic-constraint-system core.
//!
//! A caller declares typed columns and a polynomial identity, assigns
//! witness values into rows of a write-once grid, and checks whether the
//! assignment satisfies the identity against a vector of public values.
//! Every operation carries a contract; the laws module states and proves
//! what the circuit accepts, what it reports, and that checking is pure.

pub mod checker;
pub mod columns;
pub mod config;
pub mod expr;
pub mod field;
pub mod grid;
pub mod laws;
pub mod synth;
