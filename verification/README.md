# proof_of_sql (division and modulo)

A verified library for the integer division and modulo expressions of a
provable SQL engine, written in Verus.

- `src/scalar.rs`: the scalar field, integers modulo the prime order of the Curve25519 subgroup, held in two 128-bit limbs.
- `src/int_division.rs`: division and remainder rounding toward zero.
- `src/column.rs`, `src/table.rs`, `src/map.rs`: columns held in a `bumpalo`
  arena, literal values, tables, column references and the ordered sets and
  maps of them.
- `src/numerical_util.rs`: scaled addition and subtraction, multiplication,
  division and modulo of columns, literals and evaluations.
- `src/final_round_builder.rs`, `src/verification_builder.rs`: what the prover
  commits to and the constraints it produces; how the verifier reads the
  prover's evaluations and folds the constraints into a sumcheck evaluation.
- `src/sign_gadget.rs`, `src/dyn_proof_expr.rs`, `src/division_expr.rs`,
  `src/divide_and_modulo_expr.rs`: the sign gadget and the provable
  expressions, each with its result, prover and verifier evaluations.
- `app/lib.rs`: serializable copies of the expressions, with `serde`'s
  derives and conversions both ways.

`tests/` runs the library on concrete tables, proving and verifying each
query row by row.
