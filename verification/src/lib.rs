//! Arithmetic-circuit construction and witness generation for a PLONK-style
//! proof system, with a recursive-verification circuit built on top.
//!
//! The builder accumulates gate placements, copy constraints (the
//! permutation argument's routing) and witness generators; `build` emits an
//! immutable circuit. Witness resolution runs the generators to a dataflow
//! fixpoint, refusing conflicting writes and reporting stalls. The
//! recursive construction encodes a verifier's checks — Fiat-Shamir
//! challenge derivation, the vanishing polynomial, alpha-weighted term
//! reduction, composite-polynomial evaluation and the Halo product — as
//! constraints in that system, using builder primitives only.

pub mod field;
pub mod target;
pub mod witness;
pub mod generator;
pub mod partitions;
pub mod gate;
pub mod builder;
pub mod circuit;
pub mod gadgets;
pub mod hash;
pub mod recursion;
pub mod laws;
