//! Integer division and modulo expressions of a provable SQL engine, with the
//! column arithmetic they are built from, over a prime scalar field.
//!
//! The prover evaluates an expression on a table and commits to the columns
//! that its constraints need; the verifier reads the evaluations of those
//! columns and folds each constraint into a sumcheck evaluation.

/// Integers modulo the prime order of the Curve25519 subgroup.
pub mod scalar;
/// Division and remainder rounding toward zero.
pub mod int_division;
/// Slices held in a `bumpalo` arena.
mod arena;
/// Column types, columns and literal values.
pub mod column;
/// The result types of column operations.
pub mod column_type_operation;
/// Column references, and ordered sets and maps of them.
pub mod map;
/// Named columns of equal length.
pub mod table;
/// Arithmetic on columns, literals and evaluations.
pub mod numerical_util;
/// The verifier's builder.
pub mod verification_builder;
/// The prover's builder.
pub mod final_round_builder;
/// The sign gadget.
pub mod sign_gadget;
/// Provable expressions.
pub mod dyn_proof_expr;
/// The provable division expression.
pub mod division_expr;
/// The division gadget that also proves the remainder.
pub mod divide_and_modulo_expr;
