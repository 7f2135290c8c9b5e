//! A 2D force-directed layout engine for weighted undirected graphs.
//!
//! Each node is a point mass; edge weights map to spring rest lengths and
//! stiffnesses; every node pair additionally repels. All scalars are
//! fixed-point values (see `fx`): `SCALE` sub-units per whole unit, with
//! every operation saturating to `[-FX_MAX, FX_MAX]`, so every operation of
//! the engine is total and its exact result is stated in its contract.

pub mod fx;
pub mod graph;
pub mod forces;
pub mod laws;
