//! Arithmetic on columns, literals and their evaluations: scaled addition and
//! subtraction, multiplication, and integer division and modulo.
use vstd::prelude::*;
use crate::arena::alloc_slice_copy;
use crate::column::{
    fits, integer_bits, integer_column_from_values, integer_column_view, ColumnView, integer_min, is_integer_type,
    is_signed_integer_type, Column, ColumnType, ColumnarValue, LiteralValue,
};
use crate::int_division::{abs, lemma_trunc_div_matches, lemma_trunc_div_rem, lemma_trunc_rem_matches, trunc_div, trunc_rem};
use crate::scalar::{field, lemma_field_times, lemma_field_times_right, pow10, Scalar, modulus};
use vstd::arithmetic::power::pow;
use vstd::arithmetic::div_mod::{lemma_add_mod_noop, lemma_sub_mod_noop};

verus! {

broadcast use crate::scalar::lemma_scalar_bound;

pub open spec fn max_scale(lhs_scale: int, rhs_scale: int) -> int {
    if lhs_scale < rhs_scale {
        rhs_scale
    } else {
        lhs_scale
    }
}

/// The difference of the two scales, either way round, fits in `i8`.
pub open spec fn scales_compatible(lhs_scale: i8, rhs_scale: i8) -> bool {
    -(i8::MAX as int) <= lhs_scale - rhs_scale <= i8::MAX
}

/// The field element of `lhs * 10^(m - lhs_scale) ± rhs * 10^(m - rhs_scale)`
/// where `m` is the larger scale: both operands brought to the larger scale,
/// then added or subtracted.
pub open spec fn scaled_combination(lhs: int, rhs: int, lhs_scale: int, rhs_scale: int, is_subtract: bool) -> nat {
    let m = max_scale(lhs_scale, rhs_scale);
    let l = lhs * pow10((m - lhs_scale) as nat);
    let r = rhs * pow10((m - rhs_scale) as nat);
    if is_subtract {
        field(l - r)
    } else {
        field(l + r)
    }
}

/// Field addition or subtraction agrees with `scaled_combination` once the
/// scaled operands are reduced.
proof fn lemma_combine(l: int, r: int, fl: int, fr: int, is_subtract: bool)
    requires
        fl == field(l),
        fr == field(r),
    ensures
        (if is_subtract { field(fl - fr) } else { field(fl + fr) }) == (if is_subtract {
            field(l - r)
        } else {
            field(l + r)
        }),
{
    if is_subtract {
        lemma_sub_mod_noop(l, r, modulus());
    } else {
        lemma_add_mod_noop(l, r, modulus());
    }
}

/// Adds or subtracts two field elements after bringing them to the same scale.
fn combine_scaled(lhs: &Scalar, rhs: &Scalar, lhs_factor: &Scalar, rhs_factor: &Scalar, is_subtract: bool) -> (r: Scalar)
    ensures
        r@ == (if is_subtract {
            field(lhs@ as int * lhs_factor@ - rhs@ as int * rhs_factor@)
        } else {
            field(lhs@ as int * lhs_factor@ + rhs@ as int * rhs_factor@)
        }),
{
    let l = lhs.times(lhs_factor);
    let r = rhs.times(rhs_factor);
    proof {
        lemma_combine(
            lhs@ as int * lhs_factor@,
            rhs@ as int * rhs_factor@,
            l@ as int,
            r@ as int,
            is_subtract,
        );
    }
    if is_subtract {
        l.minus(&r)
    } else {
        l.plus(&r)
    }
}

/// The powers of ten that bring each scale to the larger one.
fn scaling_factors(lhs_scale: i8, rhs_scale: i8) -> (r: (Scalar, Scalar))
    ensures
        r.0@ == field(pow10((max_scale(lhs_scale as int, rhs_scale as int) - lhs_scale) as nat)),
        r.1@ == field(pow10((max_scale(lhs_scale as int, rhs_scale as int) - rhs_scale) as nat)),
{
    let max: i16 = if lhs_scale < rhs_scale {
        rhs_scale as i16
    } else {
        lhs_scale as i16
    };
    let lhs_factor = Scalar::pow10((max - lhs_scale as i16) as u8);
    let rhs_factor = Scalar::pow10((max - rhs_scale as i16) as u8);
    (lhs_factor, rhs_factor)
}

/// Moves the reduction of each factor and of each power of ten out of
/// `combine_scaled`'s result.
proof fn lemma_scaled_combination(
    lhs: int,
    rhs: int,
    fl: int,
    fr: int,
    lf: int,
    rf: int,
    lhs_scale: int,
    rhs_scale: int,
    is_subtract: bool,
)
    requires
        fl == field(lhs),
        fr == field(rhs),
        lf == field(pow10((max_scale(lhs_scale, rhs_scale) - lhs_scale) as nat)),
        rf == field(pow10((max_scale(lhs_scale, rhs_scale) - rhs_scale) as nat)),
    ensures
        (if is_subtract {
            field(fl * lf - fr * rf)
        } else {
            field(fl * lf + fr * rf)
        }) == scaled_combination(lhs, rhs, lhs_scale, rhs_scale, is_subtract),
{
    let m = max_scale(lhs_scale, rhs_scale);
    let pl = pow10((m - lhs_scale) as nat);
    let pr = pow10((m - rhs_scale) as nat);
    lemma_field_times(lhs, pl);
    lemma_field_times_right(fl as int, pl);
    lemma_field_times(rhs, pr);
    lemma_field_times_right(fr as int, pr);
    lemma_combine(lhs * pl, rhs * pr, field(fl * lf) as int, field(fr * rf) as int, is_subtract);
    lemma_combine(fl * lf, fr * rf, field(fl * lf) as int, field(fr * rf) as int, is_subtract);
}

/// Add or subtract two literals together.
pub fn add_subtract_literals(
    lhs: &LiteralValue,
    rhs: &LiteralValue,
    lhs_scale: i8,
    rhs_scale: i8,
    is_subtract: bool,
) -> (r: Scalar)
    requires
        scales_compatible(lhs_scale, rhs_scale),
    ensures
        r@ == scaled_combination(
            lhs.spec_to_scalar() as int,
            rhs.spec_to_scalar() as int,
            lhs_scale as int,
            rhs_scale as int,
            is_subtract,
        ),
{
    let l = lhs.to_scalar();
    let r = rhs.to_scalar();
    let (lhs_scaled, rhs_scaled) = if lhs_scale < rhs_scale {
        let scaling_factor = Scalar::pow10((rhs_scale - lhs_scale) as u8);
        (l.times(&scaling_factor), r)
    } else if lhs_scale == rhs_scale {
        (l, r)
    } else {
        let scaling_factor = Scalar::pow10((lhs_scale - rhs_scale) as u8);
        (l, r.times(&scaling_factor))
    };
    proof {
        let m = max_scale(lhs_scale as int, rhs_scale as int);
        let pl = pow10((m - lhs_scale) as nat);
        let pr = pow10((m - rhs_scale) as nat);
        assert(pow10(0) == 1);
        crate::scalar::lemma_field_small(l@ as int);
        crate::scalar::lemma_field_small(r@ as int);
        lemma_field_times_right(l@ as int, pl);
        lemma_field_times_right(r@ as int, pr);
        let lv = l@ as int;
        let rv = r@ as int;
        if lhs_scale <= rhs_scale {
            assert(pr == 1);
            assert(rv * pr == rv) by (nonlinear_arith) requires pr == 1;
        }
        if lhs_scale >= rhs_scale {
            assert(pl == 1);
            assert(lv * pl == lv) by (nonlinear_arith) requires pl == 1;
        }
        assert(rhs_scaled@ == field(r@ * pr));
        assert(lhs_scaled@ == field(l@ * pl));
        lemma_combine(l@ * pl, r@ * pr, lhs_scaled@ as int, rhs_scaled@ as int, is_subtract);
    }
    if is_subtract {
        lhs_scaled.minus(&rhs_scaled)
    } else {
        lhs_scaled.plus(&rhs_scaled)
    }
}

/// The counterpart of `add_subtract_columns` for evaluating decimal expressions.
pub fn scale_and_add_subtract_eval(
    lhs_eval: Scalar,
    rhs_eval: Scalar,
    lhs_scale: i8,
    rhs_scale: i8,
    is_subtract: bool,
) -> (r: Scalar)
    ensures
        r@ == scaled_combination(
            lhs_eval@ as int,
            rhs_eval@ as int,
            lhs_scale as int,
            rhs_scale as int,
            is_subtract,
        ),
{
    let (lhs_factor, rhs_factor) = scaling_factors(lhs_scale, rhs_scale);
    let r = combine_scaled(&lhs_eval, &rhs_eval, &lhs_factor, &rhs_factor, is_subtract);
    proof {
        crate::scalar::lemma_field_small(lhs_eval@ as int);
        crate::scalar::lemma_field_small(rhs_eval@ as int);
        lemma_scaled_combination(
            lhs_eval@ as int,
            rhs_eval@ as int,
            lhs_eval@ as int,
            rhs_eval@ as int,
            lhs_factor@ as int,
            rhs_factor@ as int,
            lhs_scale as int,
            rhs_scale as int,
            is_subtract,
        );
    }
    r
}

/// The scalar that a columnar value holds in row `i`: a column's own value,
/// or a literal's value in every row.
pub open spec fn value_at(v: ColumnarValue, i: int) -> nat {
    match v {
        ColumnarValue::Column(c) => c.scalar_values()[i],
        ColumnarValue::Literal(l) => l.spec_to_scalar(),
    }
}

pub open spec fn is_literal(v: ColumnarValue) -> bool {
    v is Literal
}

/// The number of rows of an operation on two columnar values: that of the
/// left one if it is a column, else that of the right one.
pub open spec fn rows_of(lhs: ColumnarValue, rhs: ColumnarValue) -> nat {
    match (lhs, rhs) {
        (ColumnarValue::Column(c), _) => c.spec_len(),
        (_, ColumnarValue::Column(c)) => c.spec_len(),
        _ => 0,
    }
}

/// Two columnar values can be combined row by row: two columns must have the
/// same number of rows.
pub open spec fn same_rows(lhs: ColumnarValue, rhs: ColumnarValue) -> bool {
    match (lhs, rhs) {
        (ColumnarValue::Column(l), ColumnarValue::Column(r)) => l.spec_len() == r.spec_len(),
        _ => true,
    }
}

/// The value is a column of scalars with `n` rows whose row `i` is
/// `f(i)`, or, where `literal` holds, a scalar literal whose value is `f(0)`.
pub open spec fn holds_rows(v: ColumnarValue, literal: bool, n: nat, f: spec_fn(int) -> nat) -> bool {
    if literal {
        v matches ColumnarValue::Literal(LiteralValue::Scalar(s)) && s@ == f(0)
    } else {
        v matches ColumnarValue::Column(Column::Scalar(s)) && s@.len() == n && forall|i: int|
            0 <= i < n ==> #[trigger] s@[i]@ == f(i)
    }
}

/// Add or subtract two columns together.
pub fn add_subtract_columns<'a>(
    lhs: Column<'a>,
    rhs: Column<'a>,
    lhs_scale: i8,
    rhs_scale: i8,
    alloc: &'a bumpalo::Bump,
    is_subtract: bool,
) -> (r: &'a [Scalar])
    requires
        lhs.spec_len() == rhs.spec_len(),
        scales_compatible(lhs_scale, rhs_scale),
    ensures
        r@.len() == lhs.spec_len(),
        forall|i: int|
            0 <= i < r@.len() ==> #[trigger] r@[i]@ == scaled_combination(
                lhs.scalar_values()[i] as int,
                rhs.scalar_values()[i] as int,
                lhs_scale as int,
                rhs_scale as int,
                is_subtract,
            ),
{
    let lhs_len = lhs.len();
    let max: i8 = if lhs_scale < rhs_scale {
        rhs_scale
    } else {
        lhs_scale
    };
    let lhs_scalar = lhs.to_scalar_with_scaling(max - lhs_scale);
    let rhs_scalar = rhs.to_scalar_with_scaling(max - rhs_scale);
    let mut result: Vec<Scalar> = Vec::new();
    for i in 0..lhs_len
        invariant
            lhs_len == lhs.spec_len(),
            lhs_len == rhs.spec_len(),
            lhs_scalar@.len() == lhs_len,
            rhs_scalar@.len() == lhs_len,
            max as int == max_scale(lhs_scale as int, rhs_scale as int),
            forall|j: int|
                0 <= j < lhs_len ==> #[trigger] lhs_scalar@[j]@ == field(
                    lhs.scalar_values()[j] * pow10((max - lhs_scale) as nat),
                ),
            forall|j: int|
                0 <= j < lhs_len ==> #[trigger] rhs_scalar@[j]@ == field(
                    rhs.scalar_values()[j] * pow10((max - rhs_scale) as nat),
                ),
            result@.len() == i,
            forall|j: int|
                0 <= j < i ==> #[trigger] result@[j]@ == scaled_combination(
                    lhs.scalar_values()[j] as int,
                    rhs.scalar_values()[j] as int,
                    lhs_scale as int,
                    rhs_scale as int,
                    is_subtract,
                ),
    {
        let v = if is_subtract {
            lhs_scalar[i].minus(&rhs_scalar[i])
        } else {
            lhs_scalar[i].plus(&rhs_scalar[i])
        };
        proof {
            lemma_combine(
                lhs.scalar_values()[i as int] * pow10((max - lhs_scale) as nat),
                rhs.scalar_values()[i as int] * pow10((max - rhs_scale) as nat),
                lhs_scalar@[i as int]@ as int,
                rhs_scalar@[i as int]@ as int,
                is_subtract,
            );
        }
        result.push(v);
    }
    alloc_slice_copy(alloc, result.as_slice())
}

/// Add or subtract two columnar values together.
pub fn add_subtract_columnar_values<'a>(
    lhs: ColumnarValue<'a>,
    rhs: ColumnarValue<'a>,
    lhs_scale: i8,
    rhs_scale: i8,
    alloc: &'a bumpalo::Bump,
    is_subtract: bool,
) -> (r: ColumnarValue<'a>)
    requires
        same_rows(lhs, rhs),
        scales_compatible(lhs_scale, rhs_scale),
    ensures
        holds_rows(
            r,
            is_literal(lhs) && is_literal(rhs),
            rows_of(lhs, rhs),
            |i: int|
                scaled_combination(
                    value_at(lhs, i) as int,
                    value_at(rhs, i) as int,
                    lhs_scale as int,
                    rhs_scale as int,
                    is_subtract,
                ),
        ),
{
    match (lhs, rhs) {
        (ColumnarValue::Column(lhs), ColumnarValue::Column(rhs)) => {
            ColumnarValue::Column(
                Column::Scalar(
                    add_subtract_columns(lhs, rhs, lhs_scale, rhs_scale, alloc, is_subtract),
                ),
            )
        },
        (ColumnarValue::Literal(lhs), ColumnarValue::Column(rhs)) => {
            ColumnarValue::Column(
                Column::Scalar(
                    add_subtract_columns(
                        Column::from_literal_with_length(&lhs, rhs.len(), alloc),
                        rhs,
                        lhs_scale,
                        rhs_scale,
                        alloc,
                        is_subtract,
                    ),
                ),
            )
        },
        (ColumnarValue::Column(lhs), ColumnarValue::Literal(rhs)) => {
            ColumnarValue::Column(
                Column::Scalar(
                    add_subtract_columns(
                        lhs,
                        Column::from_literal_with_length(&rhs, lhs.len(), alloc),
                        lhs_scale,
                        rhs_scale,
                        alloc,
                        is_subtract,
                    ),
                ),
            )
        },
        (ColumnarValue::Literal(lhs), ColumnarValue::Literal(rhs)) => {
            ColumnarValue::Literal(
                LiteralValue::Scalar(
                    add_subtract_literals(&lhs, &rhs, lhs_scale, rhs_scale, is_subtract),
                ),
            )
        },
    }
}

/// Multiply two columns together.
pub fn multiply_columns<'a>(lhs: &Column<'a>, rhs: &Column<'a>, alloc: &'a bumpalo::Bump) -> (r: &'a [Scalar])
    requires
        lhs.spec_len() == rhs.spec_len(),
    ensures
        r@.len() == lhs.spec_len(),
        forall|i: int|
            0 <= i < r@.len() ==> #[trigger] r@[i]@ == field(
                lhs.scalar_values()[i] as int * rhs.scalar_values()[i],
            ),
{
    let lhs_len = lhs.len();
    let mut result: Vec<Scalar> = Vec::new();
    for i in 0..lhs_len
        invariant
            lhs_len == lhs.spec_len(),
            lhs_len == rhs.spec_len(),
            result@.len() == i,
            forall|j: int|
                0 <= j < i ==> #[trigger] result@[j]@ == field(
                    lhs.scalar_values()[j] as int * rhs.scalar_values()[j],
                ),
    {
        let l = lhs.scalar_at(i).unwrap();
        let r = rhs.scalar_at(i).unwrap();
        result.push(l.times(&r));
    }
    alloc_slice_copy(alloc, result.as_slice())
}

/// Multiplies every row of a column by one scalar.
fn multiply_column_by_scalar<'a>(column: &Column<'a>, factor: &Scalar, alloc: &'a bumpalo::Bump) -> (r: &'a [Scalar])
    ensures
        r@.len() == column.spec_len(),
        forall|i: int|
            0 <= i < r@.len() ==> #[trigger] r@[i]@ == field(
                column.scalar_values()[i] as int * factor@,
            ),
{
    let len = column.len();
    let mut result: Vec<Scalar> = Vec::new();
    for i in 0..len
        invariant
            len == column.spec_len(),
            result@.len() == i,
            forall|j: int|
                0 <= j < i ==> #[trigger] result@[j]@ == field(
                    column.scalar_values()[j] as int * factor@,
                ),
    {
        let v = column.scalar_at(i).unwrap();
        result.push(v.times(factor));
    }
    alloc_slice_copy(alloc, result.as_slice())
}

/// Multiply two columnar values together.
pub fn multiply_columnar_values<'a>(
    lhs: &ColumnarValue<'a>,
    rhs: &ColumnarValue<'a>,
    alloc: &'a bumpalo::Bump,
) -> (r: ColumnarValue<'a>)
    requires
        same_rows(*lhs, *rhs),
    ensures
        holds_rows(
            r,
            is_literal(*lhs) && is_literal(*rhs),
            rows_of(*lhs, *rhs),
            |i: int| field(value_at(*lhs, i) as int * value_at(*rhs, i)),
        ),
{
    match (lhs, rhs) {
        (ColumnarValue::Column(lhs), ColumnarValue::Column(rhs)) => {
            ColumnarValue::Column(Column::Scalar(multiply_columns(lhs, rhs, alloc)))
        },
        (ColumnarValue::Literal(lhs), ColumnarValue::Column(rhs)) => {
            let lhs_scalar = lhs.to_scalar();
            let result = multiply_column_by_scalar(rhs, &lhs_scalar, alloc);
            proof {
                assert forall|i: int| 0 <= i < result@.len() implies #[trigger] result@[i]@ == field(
                    lhs_scalar@ as int * rhs.scalar_values()[i],
                ) by {
                    assert(rhs.scalar_values()[i] * lhs_scalar@ == lhs_scalar@ as int * rhs.scalar_values()[i]);
                }
            }
            ColumnarValue::Column(Column::Scalar(result))
        },
        (ColumnarValue::Column(lhs), ColumnarValue::Literal(rhs)) => {
            let rhs_scalar = rhs.to_scalar();
            ColumnarValue::Column(Column::Scalar(multiply_column_by_scalar(lhs, &rhs_scalar, alloc)))
        },
        (ColumnarValue::Literal(lhs), ColumnarValue::Literal(rhs)) => {
            let result = lhs.to_scalar().times(&rhs.to_scalar());
            ColumnarValue::Literal(LiteralValue::Scalar(result))
        },
    }
}

/// The pairs of column types whose columns integer division and modulo take:
/// a signed integer column by any integer column, or two `Uint8` columns.
pub open spec fn is_divisible_pair(lhs_type: ColumnType, rhs_type: ColumnType) -> bool {
    ||| is_signed_integer_type(lhs_type) && is_integer_type(rhs_type)
    ||| lhs_type == ColumnType::Uint8 && rhs_type == ColumnType::Uint8
}

/// The right type is a signed integer type with more bits than the left one.
pub open spec fn right_is_wider(lhs_type: ColumnType, rhs_type: ColumnType) -> bool {
    is_signed_integer_type(rhs_type) && integer_bits(rhs_type) > integer_bits(lhs_type)
}

/// Dividing `a` of type `lhs_type` by `b` gives a value of `lhs_type`: `b` is
/// not zero and the quotient does not overflow.
pub open spec fn division_defined(lhs_type: ColumnType, a: int, b: int) -> bool {
    b != 0 && fits(lhs_type, trunc_div(a, b))
}

/// Taking `a` of type `lhs_type` modulo `b` of type `rhs_type` gives a value of
/// `rhs_type`: `b` is not zero, the remainder fits, and the remainder is not
/// taken of the least value by minus one in `lhs_type`, where it overflows.
pub open spec fn modulo_defined(lhs_type: ColumnType, rhs_type: ColumnType, a: int, b: int) -> bool {
    &&& b != 0
    &&& fits(rhs_type, trunc_rem(a, b))
    &&& !(a == integer_min(lhs_type) && b == -1 && !right_is_wider(lhs_type, rhs_type))
}

/// `divide_columns` takes the two columns: their types are a pair it handles,
/// they have the same number of rows, and every row's quotient is defined.
pub open spec fn can_divide(lhs: ColumnView, rhs: ColumnView) -> bool {
    &&& is_divisible_pair(lhs.column_type, rhs.column_type)
    &&& lhs.scalars.len() == rhs.scalars.len()
    &&& forall|i: int|
        0 <= i < lhs.scalars.len() ==> division_defined(
            lhs.column_type,
            #[trigger] lhs.ints[i],
            rhs.ints[i],
        )
}

/// `modulo_columns` takes the two columns: their types are a pair it handles,
/// they have the same number of rows, and every row's remainder is defined.
pub open spec fn can_modulo(lhs: ColumnView, rhs: ColumnView) -> bool {
    &&& is_divisible_pair(lhs.column_type, rhs.column_type)
    &&& lhs.scalars.len() == rhs.scalars.len()
    &&& forall|i: int|
        0 <= i < lhs.scalars.len() ==> modulo_defined(
            lhs.column_type,
            rhs.column_type,
            #[trigger] lhs.ints[i],
            rhs.ints[i],
        )
}

/// The column of row-wise quotients, rounded toward zero, of the left
/// column's type.
pub open spec fn quotient_view(lhs: ColumnView, rhs: ColumnView) -> ColumnView {
    integer_column_view(
        lhs.column_type,
        Seq::new(lhs.scalars.len(), |i: int| trunc_div(lhs.ints[i], rhs.ints[i])),
    )
}

/// The column of row-wise remainders, with the sign of the dividend, of the
/// right column's type.
pub open spec fn remainder_view(lhs: ColumnView, rhs: ColumnView) -> ColumnView {
    integer_column_view(
        rhs.column_type,
        Seq::new(lhs.scalars.len(), |i: int| trunc_rem(lhs.ints[i], rhs.ints[i])),
    )
}

/// The integer values of an integer column lie in the range of `i128`.
proof fn lemma_int_values_i128(c: Column, i: int)
    requires
        is_integer_type(c.spec_column_type()),
        0 <= i < c.spec_len(),
    ensures
        i128::MIN <= c.int_values()[i] <= i128::MAX,
        fits(c.spec_column_type(), c.int_values()[i]),
{
}

/// Divides two integer columns row by row, computing in `i128`; rows past
/// the end of the divisor column are zero.
fn divide_integer_columns(lhs: &Column, rhs: &Column) -> (r: Vec<i128>)
    requires
        is_integer_type(lhs.spec_column_type()),
        is_integer_type(rhs.spec_column_type()),
        forall|i: int|
            0 <= i < lhs.spec_len() && i < rhs.spec_len() ==> #[trigger] rhs.int_values()[i] != 0 && !(
            lhs.int_values()[i] == i128::MIN && rhs.int_values()[i] == -1),
    ensures
        r@.len() == lhs.spec_len(),
        forall|i: int|
            0 <= i < r@.len() ==> #[trigger] r@[i] as int == if i < rhs.spec_len() {
                trunc_div(lhs.int_values()[i], rhs.int_values()[i])
            } else {
                0
            },
{
    let n = lhs.len();
    let mut division: Vec<i128> = Vec::new();
    for i in 0..n
        invariant
            n == lhs.spec_len(),
            is_integer_type(lhs.spec_column_type()),
            is_integer_type(rhs.spec_column_type()),
            forall|j: int|
                0 <= j < lhs.spec_len() && j < rhs.spec_len() ==> #[trigger] rhs.int_values()[j] != 0 && !(
                lhs.int_values()[j] == i128::MIN && rhs.int_values()[j] == -1),
            division@.len() == i,
            forall|j: int|
                0 <= j < i ==> #[trigger] division@[j] as int == if j < rhs.spec_len() {
                    trunc_div(lhs.int_values()[j], rhs.int_values()[j])
                } else {
                    0
                },
    {
        if i < rhs.len() {
            let l = lhs.int_at(i);
            let r = rhs.int_at(i);
            assert(rhs.int_values()[i as int] != 0);
            proof {
                lemma_trunc_div_matches(l as int, r as int);
                crate::int_division::lemma_trunc_div_i128_range(l as int, r as int);
            }
            let q = l.checked_div(r).unwrap();
            division.push(q);
        } else {
            division.push(0);
        }
    }
    division
}

/// Takes the remainders of two integer columns row by row, computing in
/// `i128`; rows past the end of the divisor column are zero.
fn modulo_integer_columns(lhs: &Column, rhs: &Column) -> (r: Vec<i128>)
    requires
        is_integer_type(lhs.spec_column_type()),
        is_integer_type(rhs.spec_column_type()),
        forall|i: int|
            0 <= i < lhs.spec_len() && i < rhs.spec_len() ==> #[trigger] rhs.int_values()[i] != 0 && !(
            lhs.int_values()[i] == i128::MIN && rhs.int_values()[i] == -1),
    ensures
        r@.len() == lhs.spec_len(),
        forall|i: int|
            0 <= i < r@.len() ==> #[trigger] r@[i] as int == if i < rhs.spec_len() {
                trunc_rem(lhs.int_values()[i], rhs.int_values()[i])
            } else {
                0
            },
{
    let n = lhs.len();
    let mut remainder: Vec<i128> = Vec::new();
    for i in 0..n
        invariant
            n == lhs.spec_len(),
            is_integer_type(lhs.spec_column_type()),
            is_integer_type(rhs.spec_column_type()),
            forall|j: int|
                0 <= j < lhs.spec_len() && j < rhs.spec_len() ==> #[trigger] rhs.int_values()[j] != 0 && !(
                lhs.int_values()[j] == i128::MIN && rhs.int_values()[j] == -1),
            remainder@.len() == i,
            forall|j: int|
                0 <= j < i ==> #[trigger] remainder@[j] as int == if j < rhs.spec_len() {
                    trunc_rem(lhs.int_values()[j], rhs.int_values()[j])
                } else {
                    0
                },
    {
        if i < rhs.len() {
            let l = lhs.int_at(i);
            let r = rhs.int_at(i);
            assert(rhs.int_values()[i as int] != 0);
            proof {
                lemma_trunc_rem_matches(l as int, r as int);
                lemma_trunc_div_rem(l as int, r as int);
            }
            let m = l.checked_rem(r).unwrap();
            remainder.push(m);
        } else {
            remainder.push(0);
        }
    }
    remainder
}

/// Divide one column by another.
pub fn divide_columns<'a>(lhs: &Column<'a>, rhs: &Column<'a>, alloc: &'a bumpalo::Bump) -> (r: Column<'a>)
    requires
        can_divide(lhs@, rhs@),
    ensures
        r@ == quotient_view(lhs@, rhs@),
{
    let lhs_type = lhs.column_type();
    proof {
        assert forall|i: int| 0 <= i < lhs.spec_len() implies #[trigger] rhs.int_values()[i] != 0 && !(
            lhs.int_values()[i] == i128::MIN && rhs.int_values()[i] == -1) by {
            assert(division_defined(lhs_type, lhs.int_values()[i], rhs.int_values()[i]));
            lemma_int_values_i128(*lhs, i);
            if lhs.int_values()[i] == i128::MIN && rhs.int_values()[i] == -1 {
                assert(trunc_div(lhs.int_values()[i], rhs.int_values()[i]) == i128::MAX + 1);
            }
        }
    }
    let values = divide_integer_columns(lhs, rhs);
    let r = integer_column_from_values(alloc, lhs_type, &values);
    assert(values@.map_values(|v: i128| v as int) =~= quotient_view(lhs@, rhs@).ints);
    r
}

/// Take the modulo of one column against another.
pub fn modulo_columns<'a>(lhs: &Column<'a>, rhs: &Column<'a>, alloc: &'a bumpalo::Bump) -> (r: Column<'a>)
    requires
        can_modulo(lhs@, rhs@),
    ensures
        r@ == remainder_view(lhs@, rhs@),
{
    let rhs_type = rhs.column_type();
    proof {
        assert forall|i: int| 0 <= i < lhs.spec_len() implies #[trigger] rhs.int_values()[i] != 0 && !(
            lhs.int_values()[i] == i128::MIN && rhs.int_values()[i] == -1) by {
            assert(modulo_defined(lhs.spec_column_type(), rhs_type, lhs.int_values()[i], rhs.int_values()[i]));
            lemma_int_values_i128(*lhs, i);
        }
    }
    let values = modulo_integer_columns(lhs, rhs);
    let r = integer_column_from_values(alloc, rhs_type, &values);
    assert(values@.map_values(|v: i128| v as int) =~= remainder_view(lhs@, rhs@).ints);
    r
}

/// The field elements `v^(p - 2)`: the inverses of the non-zero ones, and
/// zero for zero.
pub open spec fn inverse_values(values: Seq<nat>) -> Seq<nat> {
    values.map_values(|v: nat| field(pow(v as int, (modulus() - 2) as nat)))
}

/// The inverse of each row of a column, as scalars.
pub fn inverse_of_columns<'a>(column: Column<'a>, alloc: &'a bumpalo::Bump) -> (r: &'a [Scalar])
    ensures
        r@.map_values(|v: Scalar| v@) == inverse_values(column.scalar_values()),
{
    let n = column.len();
    let mut out: Vec<Scalar> = Vec::new();
    for i in 0..n
        invariant
            n == column.spec_len(),
            out@.len() == i,
            forall|j: int|
                0 <= j < i ==> #[trigger] out@[j]@ == field(
                    pow(column.scalar_values()[j] as int, (modulus() - 2) as nat),
                ),
    {
        out.push(column.scalar_at(i).unwrap().inverse());
    }
    let r = alloc_slice_copy(alloc, out.as_slice());
    assert(r@.map_values(|v: Scalar| v@) =~= inverse_values(column.scalar_values()));
    r
}

/// The columns that `divide_columns` and `modulo_columns` give rebuild the
/// dividend: in every row, quotient times divisor plus remainder is the
/// dividend, the remainder is smaller than the divisor in absolute value, and
/// it is zero or has the dividend's sign.
pub proof fn lemma_quotient_remainder_rebuild(lhs: ColumnView, rhs: ColumnView)
    requires
        lhs.scalars.len() == rhs.scalars.len(),
        forall|i: int| 0 <= i < lhs.scalars.len() ==> #[trigger] rhs.ints[i] != 0,
    ensures
        forall|i: int|
            #![trigger quotient_view(lhs, rhs).ints[i]]
            0 <= i < lhs.scalars.len() ==> {
                let q = quotient_view(lhs, rhs).ints[i];
                let r = remainder_view(lhs, rhs).ints[i];
                &&& q * rhs.ints[i] + r == lhs.ints[i]
                &&& abs(r) < abs(rhs.ints[i])
                &&& r == 0 || (r < 0) == (lhs.ints[i] < 0)
            },
{
    assert forall|i: int|
        #![trigger quotient_view(lhs, rhs).ints[i]]
        0 <= i < lhs.scalars.len() implies {
            let q = quotient_view(lhs, rhs).ints[i];
            let r = remainder_view(lhs, rhs).ints[i];
            &&& q * rhs.ints[i] + r == lhs.ints[i]
            &&& abs(r) < abs(rhs.ints[i])
            &&& r == 0 || (r < 0) == (lhs.ints[i] < 0)
        } by {
        assert(rhs.ints[i] != 0);
        lemma_trunc_div_rem(lhs.ints[i], rhs.ints[i]);
    }
}

} // verus!
