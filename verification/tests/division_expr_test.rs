use bumpalo::Bump;
use proof_of_sql::column::{Column, ColumnType, ColumnarValue, LiteralValue};
use proof_of_sql::division_expr::DivisionExpr;
use proof_of_sql::dyn_proof_expr::{ColumnExpr, DynProofExpr, LiteralExpr};
use proof_of_sql::final_round_builder::FinalRoundBuilder;
use proof_of_sql::map::{ColumnRef, IndexMap};
use proof_of_sql::numerical_util::multiply_columnar_values;
use proof_of_sql::scalar::Scalar;
use proof_of_sql::table::Table;
use proof_of_sql::verification_builder::VerificationBuilder;

fn column(table: &str, name: &str, column_type: ColumnType) -> Box<DynProofExpr> {
    Box::new(DynProofExpr::Column(ColumnExpr::new(ColumnRef::new(
        table.to_string(),
        name.to_string(),
        column_type,
    ))))
}

fn literal(value: LiteralValue) -> Box<DynProofExpr> {
    Box::new(DynProofExpr::Literal(LiteralExpr::new(value)))
}

fn divide(lhs: Box<DynProofExpr>, rhs: Box<DynProofExpr>) -> DynProofExpr {
    DynProofExpr::Divide(DivisionExpr::new(lhs, rhs))
}

fn scalars(values: &[i128]) -> Vec<Scalar> {
    values.iter().map(|v| Scalar::from_i128(*v)).collect()
}

/// Proves the expression on the table, then verifies it row by row with the
/// prover's columns as evaluations; gives the result column.
fn prove_and_verify<'a>(
    expr: &DynProofExpr,
    table: &Table<'a>,
    columns: &[(ColumnRef, Column<'a>)],
    alloc: &'a Bump,
) -> Column<'a> {
    let mut builder = FinalRoundBuilder::new();
    let result = expr.prover_evaluate(&mut builder, alloc, table);
    assert_eq!(expr.result_evaluate(alloc, table), result);
    for row in 0..table.num_rows() {
        let mut evaluations = Vec::new();
        for k in 0..builder.num_intermediate_mles() {
            evaluations.push(builder.intermediate_mle(k).scalar_at(row).unwrap());
        }
        let mut accessor = IndexMap::new();
        for (column_ref, column) in columns {
            accessor.insert(column_ref.duplicate(), column.scalar_at(row).unwrap());
        }
        let multipliers = vec![Scalar::one(); builder.num_subpolynomials()];
        let mut verifier = VerificationBuilder::new(evaluations, multipliers, Scalar::from_i128(7), 3);
        let evaluation = expr
            .verifier_evaluate(&mut verifier, &accessor, Scalar::one())
            .unwrap();
        assert_eq!(evaluation, result.scalar_at(row).unwrap());
        assert_eq!(verifier.sumcheck_evaluation(), Scalar::zero());
        assert_eq!(verifier.consumed_final_round_mles(), builder.num_intermediate_mles());
        assert_eq!(verifier.produced_subpolynomials(), builder.num_subpolynomials());
    }
    result
}

// select a / 2 as a from sxt.t where d * 3.9 = 8.19
#[test]
fn we_can_prove_a_typical_divide_query() {
    let alloc = Bump::new();
    let a: &[i8] = &[1_i8, 2, 3, 4];
    let d = scalars(&[21, 4, 21, -7]);
    let d_column = Column::Decimal75(2, 1, &d);

    // where d * 3.9 = 8.19
    let product = multiply_columnar_values(
        &ColumnarValue::Column(d_column),
        &ColumnarValue::Literal(LiteralValue::Decimal75(2, 1, Scalar::from_i128(39))),
        &alloc,
    );
    let target = LiteralValue::Decimal75(3, 2, Scalar::from_i128(819)).to_scalar();
    let selected: Vec<i8> = match product {
        ColumnarValue::Column(Column::Scalar(values)) => (0..a.len())
            .filter(|&i| values[i].equals(&target))
            .map(|i| a[i])
            .collect(),
        _ => panic!("the product of a column and a literal is a column"),
    };
    let a_column = Column::TinyInt(alloc.alloc_slice_copy(&selected));
    let table = Table::try_new(vec![("a".to_string(), a_column)]).unwrap();
    let a_ref = ColumnRef::new("sxt.t".to_string(), "a".to_string(), ColumnType::TinyInt);

    // select a / 2 as a
    let ast = divide(column("sxt.t", "a", ColumnType::TinyInt), literal(LiteralValue::Uint8(2)));
    let res = prove_and_verify(&ast, &table, &[(a_ref, a_column)], &alloc);
    let expected_res = Column::TinyInt(&[0_i8, 1]);
    assert_eq!(res, expected_res);
}

#[test]
fn we_can_prove_int_division_query() {
    let alloc = Bump::new();
    let b = Column::TinyInt(&[2_i8, -115, 6, 126]);
    let c = Column::SmallInt(&[7_i16, 36, -30000, 31104]);
    let d = Column::Int(&[432_i32, -115, i32::MIN + 12, 52]);
    let e = Column::BigInt(&[i64::MIN + 366, -68, i64::MAX, 126]);
    let f = Column::Int128(&[6_i128, i128::MIN + 3, 99, i128::MAX - 6]);
    let table = Table::try_new(vec![
        ("b".to_string(), b),
        ("c".to_string(), c),
        ("d".to_string(), d),
        ("e".to_string(), e),
        ("f".to_string(), f),
    ])
    .unwrap();
    let refs = [
        (ColumnRef::new("sxt.t".to_string(), "b".to_string(), ColumnType::TinyInt), b),
        (ColumnRef::new("sxt.t".to_string(), "c".to_string(), ColumnType::SmallInt), c),
        (ColumnRef::new("sxt.t".to_string(), "d".to_string(), ColumnType::Int), d),
        (ColumnRef::new("sxt.t".to_string(), "e".to_string(), ColumnType::BigInt), e),
        (ColumnRef::new("sxt.t".to_string(), "f".to_string(), ColumnType::Int128), f),
    ];
    let bt = || column("sxt.t", "b", ColumnType::TinyInt);

    let b2 = divide(bt(), literal(LiteralValue::TinyInt(2)));
    let bc = divide(bt(), column("sxt.t", "c", ColumnType::SmallInt));
    let bd = divide(bt(), column("sxt.t", "d", ColumnType::Int));
    let be = divide(bt(), column("sxt.t", "e", ColumnType::BigInt));
    let bf = divide(bt(), column("sxt.t", "f", ColumnType::Int128));

    assert_eq!(prove_and_verify(&b2, &table, &refs, &alloc), Column::TinyInt(&[1_i8, -57, 3, 63]));
    assert_eq!(prove_and_verify(&bc, &table, &refs, &alloc), Column::TinyInt(&[0_i8, -3, 0, 0]));
    assert_eq!(prove_and_verify(&bd, &table, &refs, &alloc), Column::TinyInt(&[0_i8, 1, 0, 2]));
    assert_eq!(prove_and_verify(&be, &table, &refs, &alloc), Column::TinyInt(&[0_i8, 1, 0, 1]));
    assert_eq!(prove_and_verify(&bf, &table, &refs, &alloc), Column::TinyInt(&[0_i8, 0, 0, 0]));
}
