use bumpalo::Bump;
use proof_of_sql::column::{Column, ColumnType, LiteralValue};
use proof_of_sql::column_type_operation::{try_divide_column_types, ColumnOperationError};
use proof_of_sql::divide_and_modulo_expr::DivideAndModuloExpr;
use proof_of_sql::division_expr::DivisionExpr;
use proof_of_sql::dyn_proof_expr::{ColumnExpr, DynProofExpr, LiteralExpr};
use proof_of_sql::final_round_builder::FinalRoundBuilder;
use proof_of_sql::map::{ColumnRef, IndexMap, IndexSet};
use proof_of_sql::scalar::Scalar;
use proof_of_sql::sign_gadget::{absolute_eval, prover_evaluate_sign, verifier_evaluate_sign};
use proof_of_sql::table::{Table, TableError};
use proof_of_sql::verification_builder::{ProofError, SumcheckSubpolynomialType, VerificationBuilder};

fn column_ref(name: &str, column_type: ColumnType) -> ColumnRef {
    ColumnRef::new("sxt.t".to_string(), name.to_string(), column_type)
}

fn column(name: &str, column_type: ColumnType) -> Box<DynProofExpr> {
    Box::new(DynProofExpr::Column(ColumnExpr::new(column_ref(name, column_type))))
}

fn literal(value: LiteralValue) -> Box<DynProofExpr> {
    Box::new(DynProofExpr::Literal(LiteralExpr::new(value)))
}

#[test]
fn division_types_follow_the_dividend() {
    assert_eq!(try_divide_column_types(ColumnType::TinyInt, ColumnType::Int128), Ok(ColumnType::TinyInt));
    assert_eq!(
        try_divide_column_types(ColumnType::Boolean, ColumnType::Int),
        Err(ColumnOperationError::BinaryOperationInvalidColumnType {
            left_type: ColumnType::Boolean,
            right_type: ColumnType::Int,
        })
    );
    let expr = DivisionExpr::new(column("a", ColumnType::BigInt), literal(LiteralValue::Uint8(3)));
    assert_eq!(expr.data_type(), ColumnType::BigInt);
    let expr = DivideAndModuloExpr::new(column("a", ColumnType::SmallInt), column("b", ColumnType::Int));
    assert_eq!(expr.data_type(), ColumnType::SmallInt);
}

#[test]
fn column_references_are_collected_once_in_order() {
    let inner = DynProofExpr::Divide(DivisionExpr::new(column("b", ColumnType::Int), column("a", ColumnType::Int)));
    let expr = DivisionExpr::new(column("a", ColumnType::Int), Box::new(inner));
    let mut columns = IndexSet::new();
    assert!(columns.insert(column_ref("c", ColumnType::Int)));
    expr.get_column_references(&mut columns);
    assert_eq!(columns.len(), 3);
    assert_eq!(columns.get_index(0).column_id(), "c");
    assert_eq!(columns.get_index(1).column_id(), "a");
    assert_eq!(columns.get_index(2).column_id(), "b");
    assert!(!columns.insert(column_ref("b", ColumnType::Int)));
    assert!(columns.insert(column_ref("b", ColumnType::BigInt)));
    let gadget = DivideAndModuloExpr::new(column("d", ColumnType::Int), column("a", ColumnType::Int));
    gadget.get_column_references(&mut columns);
    assert_eq!(columns.len(), 5);
    assert!(columns.contains(&column_ref("d", ColumnType::Int)));
}

#[test]
fn maps_give_back_what_was_stored() {
    let mut map = IndexMap::new();
    assert_eq!(map.get(&column_ref("a", ColumnType::Int)), None);
    map.insert(column_ref("a", ColumnType::Int), Scalar::from_i128(5));
    map.insert(column_ref("b", ColumnType::Int), Scalar::from_i128(6));
    map.insert(column_ref("a", ColumnType::Int), Scalar::from_i128(7));
    assert_eq!(map.get(&column_ref("a", ColumnType::Int)), Some(Scalar::from_i128(7)));
    assert_eq!(map.get(&column_ref("b", ColumnType::Int)), Some(Scalar::from_i128(6)));
    assert_eq!(map.get(&column_ref("a", ColumnType::BigInt)), None);
}

#[test]
fn tables_refuse_ragged_or_repeated_columns() {
    let a = Column::Int(&[1, 2]);
    let b = Column::Int(&[1, 2, 3]);
    assert_eq!(
        Table::try_new(vec![("a".to_string(), a), ("b".to_string(), b)]).err(),
        Some(TableError::ColumnLengthMismatch)
    );
    assert_eq!(
        Table::try_new(vec![("a".to_string(), a), ("a".to_string(), a)]).err(),
        Some(TableError::DuplicateIdentifier)
    );
    let table = Table::try_new(vec![("a".to_string(), a)]).unwrap();
    assert_eq!(table.num_rows(), 2);
    assert_eq!(table.get(&"a".to_string()), Some(a));
    assert_eq!(table.get(&"z".to_string()), None);
    assert_eq!(Table::try_new(Vec::new()).unwrap().num_rows(), 0);
}

#[test]
fn verification_builder_reports_its_errors() {
    let mut builder = VerificationBuilder::new(vec![Scalar::from_i128(4)], vec![Scalar::from_i128(3)], Scalar::from_i128(5), 2);
    assert_eq!(builder.try_consume_final_round_mle_evaluation(), Ok(Scalar::from_i128(4)));
    assert_eq!(builder.try_consume_final_round_mle_evaluation(), Err(ProofError::TooFewMleEvaluations));
    assert_eq!(
        builder.try_produce_sumcheck_subpolynomial_evaluation(SumcheckSubpolynomialType::Identity, Scalar::one(), 2),
        Err(ProofError::SubpolynomialDegreeTooHigh)
    );
    assert_eq!(
        builder.try_produce_sumcheck_subpolynomial_evaluation(SumcheckSubpolynomialType::Identity, Scalar::from_i128(2), 1),
        Ok(())
    );
    // 3 * (2 * 5)
    assert_eq!(builder.sumcheck_evaluation(), Scalar::from_i128(30));
    assert_eq!(
        builder.try_produce_sumcheck_subpolynomial_evaluation(SumcheckSubpolynomialType::ZeroSum, Scalar::one(), 1),
        Err(ProofError::TooFewSubpolynomialMultipliers)
    );
}

#[test]
fn verification_needs_every_column_and_evaluation() {
    let expr = DivisionExpr::new(column("a", ColumnType::Int), literal(LiteralValue::Int(2)));
    let mut accessor = IndexMap::new();
    let mut builder = VerificationBuilder::new(vec![Scalar::from_i128(1), Scalar::from_i128(1)], vec![Scalar::one()], Scalar::one(), 3);
    assert_eq!(expr.verifier_evaluate(&mut builder, &accessor, Scalar::one()), Err(ProofError::ColumnNotFound));
    accessor.insert(column_ref("a", ColumnType::Int), Scalar::from_i128(3));
    let mut builder = VerificationBuilder::new(vec![Scalar::from_i128(1)], vec![Scalar::one()], Scalar::one(), 3);
    assert_eq!(expr.verifier_evaluate(&mut builder, &accessor, Scalar::one()), Err(ProofError::TooFewMleEvaluations));
    // 3 / 2 is 1 remainder 1: the check 1 * 2 - 3 + 1 vanishes.
    let mut builder = VerificationBuilder::new(vec![Scalar::from_i128(1), Scalar::from_i128(1)], vec![Scalar::one()], Scalar::one(), 3);
    assert_eq!(expr.verifier_evaluate(&mut builder, &accessor, Scalar::one()), Ok(Scalar::from_i128(1)));
    assert_eq!(builder.sumcheck_evaluation(), Scalar::zero());
    // A wrong quotient leaves a trace in the sumcheck evaluation.
    let mut builder = VerificationBuilder::new(vec![Scalar::from_i128(2), Scalar::from_i128(1)], vec![Scalar::one()], Scalar::one(), 3);
    assert_eq!(expr.verifier_evaluate(&mut builder, &accessor, Scalar::one()), Ok(Scalar::from_i128(2)));
    assert_eq!(builder.sumcheck_evaluation(), Scalar::from_i128(2));
}

/// The intermediate columns the prover commits to for `a / b` and `a % b`,
/// together with the quotient and remainder columns.
fn divide_and_modulo_prover(
    a: Column<'static>,
    a_type: ColumnType,
    b: Column<'static>,
    b_type: ColumnType,
) -> (DivideAndModuloExpr, FinalRoundBuilder<'static>, Column<'static>, Column<'static>) {
    let alloc: &'static Bump = Box::leak(Box::new(Bump::new()));
    let table = Table::try_new(vec![("a".to_string(), a), ("b".to_string(), b)]).unwrap();
    let expr = DivideAndModuloExpr::new(column("a", a_type), column("b", b_type));
    let mut builder = FinalRoundBuilder::new();
    let (quotient, remainder) = expr.prover_evaluate(&mut builder, alloc, &table);
    assert_eq!(builder.num_intermediate_mles(), 11);
    assert_eq!(builder.num_subpolynomials(), 12);
    (expr, builder, quotient, remainder)
}

/// Runs the verifier on one row with the given evaluations of the committed
/// columns; gives the quotient, the remainder and the sumcheck evaluation.
fn divide_and_modulo_verify_row(
    expr: &DivideAndModuloExpr,
    a_type: ColumnType,
    a: Scalar,
    b_type: ColumnType,
    b: Scalar,
    evaluations: Vec<Scalar>,
) -> (Scalar, Scalar, Scalar) {
    let mut accessor = IndexMap::new();
    accessor.insert(column_ref("a", a_type), a);
    accessor.insert(column_ref("b", b_type), b);
    let mut verifier = VerificationBuilder::new(evaluations, vec![Scalar::one(); 12], Scalar::one(), 4);
    let (q, r) = expr.verifier_evaluate(&mut verifier, &accessor, Scalar::one()).unwrap();
    (q, r, verifier.sumcheck_evaluation())
}

/// Proves the division and verifies it at every row with the prover's
/// columns as evaluations; gives the sumcheck evaluation of each row.
fn divide_and_modulo_rows(
    a: Column<'static>,
    a_type: ColumnType,
    b: Column<'static>,
    b_type: ColumnType,
) -> (Column<'static>, Column<'static>, Vec<Scalar>) {
    let (expr, builder, quotient, remainder) = divide_and_modulo_prover(a, a_type, b, b_type);
    let mut sums = Vec::new();
    for row in 0..a.len() {
        let evaluations = (0..builder.num_intermediate_mles())
            .map(|k| builder.intermediate_mle(k).scalar_at(row).unwrap())
            .collect();
        let (q, r, sum) = divide_and_modulo_verify_row(
            &expr,
            a_type,
            a.scalar_at(row).unwrap(),
            b_type,
            b.scalar_at(row).unwrap(),
            evaluations,
        );
        assert_eq!(q, quotient.scalar_at(row).unwrap());
        assert_eq!(r, remainder.scalar_at(row).unwrap());
        sums.push(sum);
    }
    (quotient, remainder, sums)
}

#[test]
fn divide_and_modulo_gives_quotient_and_remainder() {
    let (quotient, remainder, sums) =
        divide_and_modulo_rows(Column::Int(&[-7, -6, 0, 5, 7, 9]), ColumnType::Int, Column::SmallInt(&[2, -3, 4, 9, 2, -4]), ColumnType::SmallInt);
    assert_eq!(quotient, Column::Int(&[-3, 2, 0, 0, 3, -2]));
    assert_eq!(remainder, Column::SmallInt(&[-1, 0, 0, 5, 1, 1]));
    // Every honest row passes every check, whatever the dividend's sign.
    for sum in sums {
        assert_eq!(sum, Scalar::zero());
    }
}

#[test]
fn divide_and_modulo_accepts_the_extremes_of_the_integer_types() {
    let (quotient, remainder, sums) = divide_and_modulo_rows(
        Column::BigInt(&[i64::MAX, i64::MIN, i64::MAX]),
        ColumnType::BigInt,
        Column::BigInt(&[2, 7, i64::MIN]),
        ColumnType::BigInt,
    );
    assert_eq!(quotient, Column::BigInt(&[i64::MAX / 2, i64::MIN / 7, 0]));
    assert_eq!(remainder, Column::BigInt(&[1, i64::MIN % 7, i64::MAX]));
    for sum in sums {
        assert_eq!(sum, Scalar::zero());
    }
    let (quotient, remainder, sums) = divide_and_modulo_rows(
        Column::Int128(&[i128::MAX, i128::MIN + 1, 5]),
        ColumnType::Int128,
        Column::Int128(&[3, i128::MAX, i128::MIN]),
        ColumnType::Int128,
    );
    assert_eq!(quotient, Column::Int128(&[i128::MAX / 3, -1, 0]));
    assert_eq!(remainder, Column::Int128(&[i128::MAX % 3, 0, 5]));
    for sum in sums {
        assert_eq!(sum, Scalar::zero());
    }
}

#[test]
fn divide_and_modulo_rejects_a_remainder_as_large_as_the_divisor() {
    // 7 = 2 * 2 + 3 satisfies q * b + r = a, but |r| is not below |b|.
    let a = Column::Int(&[7]);
    let b = Column::SmallInt(&[2]);
    let (expr, builder, _, _) = divide_and_modulo_prover(a, ColumnType::Int, b, ColumnType::SmallInt);
    let mut evaluations: Vec<Scalar> =
        (0..builder.num_intermediate_mles()).map(|k| builder.intermediate_mle(k).scalar_at(0).unwrap()).collect();
    evaluations[0] = Scalar::from_i128(2);
    evaluations[1] = Scalar::from_i128(3);
    evaluations[4] = Scalar::one();
    evaluations[5] = Scalar::from_i128(3);
    evaluations[8] = Scalar::one();
    evaluations[9] = Scalar::one();
    let (q, r, sum) =
        divide_and_modulo_verify_row(&expr, ColumnType::Int, Scalar::from_i128(7), ColumnType::SmallInt, Scalar::from_i128(2), evaluations);
    assert_eq!(q, Scalar::from_i128(2));
    assert_eq!(r, Scalar::from_i128(3));
    assert_ne!(sum, Scalar::zero());
}

#[test]
fn evaluated_columns_have_the_expression_type() {
    let alloc = Bump::new();
    let table = Table::try_new(vec![
        ("a".to_string(), Column::SmallInt(&[100, -7])),
        ("b".to_string(), Column::BigInt(&[3, 2])),
    ])
    .unwrap();
    let expr = DynProofExpr::Divide(DivisionExpr::new(
        column("a", ColumnType::SmallInt),
        Box::new(DynProofExpr::Divide(DivisionExpr::new(
            column("b", ColumnType::BigInt),
            literal(LiteralValue::Int128(1)),
        ))),
    ));
    let result = expr.result_evaluate(&alloc, &table);
    assert_eq!(expr.data_type(), ColumnType::SmallInt);
    assert_eq!(result.column_type(), expr.data_type());
    assert_eq!(result, Column::SmallInt(&[33, -3]));
}

#[test]
fn sign_gadget_round_trip() {
    let alloc = Bump::new();
    let values: &[Scalar] = alloc.alloc_slice_copy(&[Scalar::from_i128(-4), Scalar::from_i128(0), Scalar::from_i128(9)]);
    let mut builder = FinalRoundBuilder::new();
    let signs = prover_evaluate_sign(&mut builder, &alloc, values);
    assert_eq!(signs, &[false, true, true]);
    assert_eq!(builder.num_intermediate_mles(), 2);
    assert_eq!(builder.num_subpolynomials(), 2);
    assert_eq!(builder.intermediate_mle(1), Column::Scalar(&[Scalar::from_i128(4), Scalar::from_i128(0), Scalar::from_i128(9)]));
    for row in 0..values.len() {
        let evaluations = vec![
            builder.intermediate_mle(0).scalar_at(row).unwrap(),
            builder.intermediate_mle(1).scalar_at(row).unwrap(),
        ];
        let mut verifier = VerificationBuilder::new(evaluations, vec![Scalar::one(); 2], Scalar::from_i128(3), 3);
        let sign = verifier_evaluate_sign(&mut verifier, values[row]).unwrap();
        assert_eq!(sign, Scalar::from_bool(signs[row]));
        assert_eq!(verifier.sumcheck_evaluation(), Scalar::zero());
        assert_eq!(absolute_eval(sign, values[row]), builder.intermediate_mle(1).scalar_at(row).unwrap());
    }
}
