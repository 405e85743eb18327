use bumpalo::Bump;
use proof_of_sql::column::{integer_column_from_values, Column, ColumnType, ColumnarValue, LiteralValue};
use proof_of_sql::numerical_util::{
    add_subtract_columnar_values, add_subtract_columns, add_subtract_literals, divide_columns,
    inverse_of_columns, modulo_columns, multiply_columnar_values, multiply_columns,
    scale_and_add_subtract_eval,
};
use proof_of_sql::scalar::Scalar;

fn s(v: i128) -> Scalar {
    Scalar::from_i128(v)
}

#[test]
fn add_subtract_literals_scales_the_smaller_scale_up() {
    // 1.5 (scale 1) + 2.25 (scale 2) = 3.75 (scale 2)
    let lhs = LiteralValue::Decimal75(3, 1, s(15));
    let rhs = LiteralValue::Decimal75(3, 2, s(225));
    assert_eq!(add_subtract_literals(&lhs, &rhs, 1, 2, false), s(375));
    // 2.25 - 1.5 = 0.75
    assert_eq!(add_subtract_literals(&rhs, &lhs, 2, 1, true), s(75));
    // equal scales
    assert_eq!(add_subtract_literals(&LiteralValue::BigInt(7), &LiteralValue::Int(9), 0, 0, true), s(-2));
}

#[test]
fn scale_and_add_subtract_eval_matches_literals() {
    let lhs = LiteralValue::Decimal75(3, 1, s(15));
    let rhs = LiteralValue::Decimal75(3, 3, s(-4));
    for is_subtract in [false, true] {
        assert_eq!(
            scale_and_add_subtract_eval(lhs.to_scalar(), rhs.to_scalar(), 1, 3, is_subtract),
            add_subtract_literals(&lhs, &rhs, 1, 3, is_subtract)
        );
    }
    // 1.5 - (-0.004) = 1.504
    assert_eq!(scale_and_add_subtract_eval(s(15), s(-4), 1, 3, true), s(1504));
}

#[test]
fn add_subtract_columns_scales_row_by_row() {
    let alloc = Bump::new();
    let lhs = Column::BigInt(&[1, 2, -3]);
    let rhs = Column::Decimal75(5, 2, &[s(10), s(-20), s(5)]);
    let sum = add_subtract_columns(lhs, rhs, 0, 2, &alloc, false);
    assert_eq!(sum, &[s(110), s(180), s(-295)]);
    let difference = add_subtract_columns(lhs, rhs, 0, 2, &alloc, true);
    assert_eq!(difference, &[s(90), s(220), s(-305)]);
    for i in 0..3 {
        assert_eq!(
            sum[i],
            scale_and_add_subtract_eval(lhs.scalar_at(i).unwrap(), rhs.scalar_at(i).unwrap(), 0, 2, false)
        );
    }
}

#[test]
fn add_subtract_columnar_values_handles_every_shape() {
    let alloc = Bump::new();
    let column = ColumnarValue::Column(Column::Int(&[1, 2]));
    let literal = ColumnarValue::Literal(LiteralValue::Int(10));
    assert_eq!(
        add_subtract_columnar_values(column, column, 0, 0, &alloc, false),
        ColumnarValue::Column(Column::Scalar(&[s(2), s(4)]))
    );
    assert_eq!(
        add_subtract_columnar_values(literal, column, 1, 0, &alloc, true),
        ColumnarValue::Column(Column::Scalar(&[s(0), s(-10)]))
    );
    assert_eq!(
        add_subtract_columnar_values(column, literal, 0, 0, &alloc, true),
        ColumnarValue::Column(Column::Scalar(&[s(-9), s(-8)]))
    );
    assert_eq!(
        add_subtract_columnar_values(literal, literal, 0, 1, &alloc, false),
        ColumnarValue::Literal(LiteralValue::Scalar(s(110)))
    );
}

#[test]
fn multiply_columns_and_columnar_values() {
    let alloc = Bump::new();
    let lhs = Column::SmallInt(&[3, -4, 0]);
    let rhs = Column::Boolean(&[true, true, false]);
    assert_eq!(multiply_columns(&lhs, &rhs, &alloc), &[s(3), s(-4), s(0)]);
    let column = ColumnarValue::Column(lhs);
    let literal = ColumnarValue::Literal(LiteralValue::TinyInt(-2));
    assert_eq!(
        multiply_columnar_values(&literal, &column, &alloc),
        ColumnarValue::Column(Column::Scalar(&[s(-6), s(8), s(0)]))
    );
    assert_eq!(
        multiply_columnar_values(&column, &literal, &alloc),
        ColumnarValue::Column(Column::Scalar(&[s(-6), s(8), s(0)]))
    );
    assert_eq!(
        multiply_columnar_values(&literal, &literal, &alloc),
        ColumnarValue::Literal(LiteralValue::Scalar(s(4)))
    );
    assert_eq!(
        multiply_columnar_values(&column, &column, &alloc),
        ColumnarValue::Column(Column::Scalar(&[s(9), s(16), s(0)]))
    );
}

#[test]
fn divide_columns_rounds_toward_zero_in_the_left_type() {
    let alloc = Bump::new();
    let lhs = Column::Int(&[7, -7, 7, -7, 0]);
    let rhs = Column::TinyInt(&[2, 2, -2, -2, 5]);
    assert_eq!(divide_columns(&lhs, &rhs, &alloc), Column::Int(&[3, -3, -3, 3, 0]));
    assert_eq!(modulo_columns(&lhs, &rhs, &alloc), Column::TinyInt(&[1, -1, 1, -1, 0]));
}

#[test]
fn divide_columns_by_a_wider_column() {
    let alloc = Bump::new();
    let lhs = Column::TinyInt(&[i8::MIN, 100, -100]);
    let rhs = Column::Int128(&[2, i128::MAX, 3]);
    assert_eq!(divide_columns(&lhs, &rhs, &alloc), Column::TinyInt(&[-64, 0, -33]));
    // The quotient of i8::MIN by -1 overflows i8, but its remainder is taken
    // in i128 and is defined.
    let rhs = Column::Int128(&[-1, i128::MAX, 3]);
    assert_eq!(modulo_columns(&lhs, &rhs, &alloc), Column::Int128(&[0, 100, -1]));
}

#[test]
fn divide_columns_of_unsigned_columns() {
    let alloc = Bump::new();
    let lhs = Column::Uint8(&[255, 7, 0]);
    let rhs = Column::Uint8(&[16, 7, 9]);
    assert_eq!(divide_columns(&lhs, &rhs, &alloc), Column::Uint8(&[15, 1, 0]));
    assert_eq!(modulo_columns(&lhs, &rhs, &alloc), Column::Uint8(&[15, 0, 0]));
    let signed = Column::TinyInt(&[-128, 127, 9]);
    assert_eq!(divide_columns(&signed, &rhs, &alloc), Column::TinyInt(&[-8, 18, 1]));
    assert_eq!(modulo_columns(&Column::TinyInt(&[127, 9, 0]), &rhs, &alloc), Column::Uint8(&[15, 2, 0]));
}

#[test]
fn quotient_and_remainder_rebuild_the_dividend() {
    let alloc = Bump::new();
    let a: &[i64] = &[i64::MAX, -1000, 999, -5];
    let b: &[i32] = &[-3, 7, -1000, 9];
    let q = divide_columns(&Column::BigInt(a), &Column::Int(b), &alloc);
    let r = modulo_columns(&Column::BigInt(a), &Column::Int(b), &alloc);
    for i in 0..a.len() {
        let (qi, ri) = (q.int_at(i), r.int_at(i));
        assert_eq!(qi * b[i] as i128 + ri, a[i] as i128);
        assert!(ri.abs() < (b[i] as i128).abs());
        assert!(ri == 0 || (ri < 0) == (a[i] < 0));
    }
}

#[test]
fn inverse_of_columns_inverts_non_zero_rows() {
    let alloc = Bump::new();
    let column = Column::BigInt(&[1, 2, -3, 0, 123456789]);
    let inverses = inverse_of_columns(column, &alloc);
    assert_eq!(inverses[3], Scalar::zero());
    for i in [0usize, 1, 2, 4] {
        assert_eq!(column.scalar_at(i).unwrap().times(&inverses[i]), Scalar::one());
    }
    assert_eq!(inverses[1].plus(&inverses[1]), Scalar::one());
}

#[test]
fn integer_columns_hold_the_values_given() {
    let alloc = Bump::new();
    let values = vec![-3_i128, 0, 100];
    assert_eq!(integer_column_from_values(&alloc, ColumnType::TinyInt, &values), Column::TinyInt(&[-3, 0, 100]));
    assert_eq!(integer_column_from_values(&alloc, ColumnType::Int128, &values), Column::Int128(&[-3, 0, 100]));
    let literal = Column::from_literal_with_length(&LiteralValue::SmallInt(-9), 3, &alloc);
    assert_eq!(literal, Column::SmallInt(&[-9, -9, -9]));
}
