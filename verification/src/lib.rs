//! The constraints of an opcode component of a Cairo STARK prover, with
//! the lookup argument that ties its memory accesses to the memory table.
//!
//! A component states, row by row, which cells it reads and which
//! combinations of them must vanish. It does so against the row-evaluator
//! capability of [`constraint_framework`], so that checking a generated
//! trace and building the symbolic constraints go through the same code.
//! [`components::ret_opcode`] holds the component of the `ret` opcode: its
//! claims and constraints, the interaction trace that meets them, and the
//! order in which the component comes to be. [`components::memory`] holds
//! the relation that its lookups are combined with. Field arithmetic, the
//! transcript and the container of trees are those of `stwo`, reached
//! through [`fields`], [`channel`] and [`pcs`].

pub mod channel;
pub mod components;
pub mod constraint_framework;
pub mod fields;
pub mod pcs;
