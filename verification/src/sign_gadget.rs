//! The sign gadget: the prover commits, for a column, the
//! column of its signs (one for a value that is not negative, zero for a
//! negative one) and the column of its absolute values; the verifier reads
//! both evaluations and checks that the sign is a bit and that the absolute
//! value is the value times `2 * sign - 1`.
use vstd::prelude::*;
use crate::arena::alloc_slice_copy;
use crate::column::{bool_to_nat, Column, ColumnType, ColumnView};
use crate::final_round_builder::{
    identities_hold, identity_holds, lemma_product_one, lemma_product_two, lemma_terms_three,
    subpolynomial_rows, terms_at, terms_view, FinalRoundBuilder, SubpolynomialView, TermView,
};
use crate::scalar::{field, signed_value, Scalar, modulus};
use crate::verification_builder::{
    spec_consume_mle, spec_produce_subpolynomial, ProofError, SumcheckSubpolynomialType,
    VerificationBuilder, VerifierState,
};

verus! {

broadcast use crate::scalar::lemma_scalar_bound;

/// Verifying a sign reads the two evaluations the prover commits to for it
/// and produces its two subpolynomials.
pub proof fn lemma_verify_sign_counts(s: VerifierState, eval: nat)
    requires
        spec_verify_sign(s, eval) is Ok,
    ensures
        ({
            let s2 = spec_verify_sign(s, eval).unwrap().1;
            &&& s2.consumed_final_round_mles == s.consumed_final_round_mles + 2
            &&& s2.produced_subpolynomials == s.produced_subpolynomials + 2
        }),
{
}

/// Verifying the sign of `eval` reads the sign `s` and the absolute value
/// `a` the prover committed to, in that order, and adds to the sumcheck
/// evaluation the bit check `s * s - s` and the absolute-value check
/// `a - (2 * s - 1) * eval`, each times the random evaluation and its
/// multiplier; the sign it gives is `s`.
pub proof fn lemma_verify_sign_sumcheck(s: VerifierState, eval: nat, base: int, added: int)
    requires
        spec_verify_sign(s, eval) is Ok,
        field(s.sumcheck_evaluation as int) == field(base + added),
    ensures
        ({
            let (sign, s2) = spec_verify_sign(s, eval).unwrap();
            let e = s.final_round_mle_evaluations;
            let c = s.consumed_final_round_mles as int;
            let m = s.subpolynomial_multipliers;
            let k = s.produced_subpolynomials as int;
            let rnd = s.random_evaluation;
            &&& sign == e[c]
            &&& s2.sumcheck_evaluation == field(
                base + added + m[k] * field(e[c] * e[c] - e[c]) * rnd + m[k + 1] * field(
                    e[c + 1] - (2 * e[c] - 1) * eval,
                ) * rnd,
            )
            &&& s2.consumed_final_round_mles == c + 2
            &&& s2.produced_subpolynomials == k + 2
            &&& s2.final_round_mle_evaluations == e
            &&& s2.subpolynomial_multipliers == m
            &&& s2.random_evaluation == rnd
            &&& s2.max_degree == s.max_degree
        }),
{
    crate::verification_builder::lemma_consume_value(s);
    let (sign, s1) = spec_consume_mle(s).unwrap();
    crate::verification_builder::lemma_consume_value(s1);
    let (abs, s2) = spec_consume_mle(s1).unwrap();
    crate::verification_builder::lemma_produce_identity(s2, sign_bit_check(sign), 2, base, added);
    let s3 = spec_produce_subpolynomial(s2, SumcheckSubpolynomialType::Identity, sign_bit_check(sign), 2).unwrap();
    let x = s.subpolynomial_multipliers[s.produced_subpolynomials as int] * sign_bit_check(sign) * s.random_evaluation;
    crate::scalar::lemma_field_bound(base + added + x);
    crate::scalar::lemma_field_small(s3.sumcheck_evaluation as int);
    crate::verification_builder::lemma_produce_identity(s3, absolute_check(sign, abs, eval), 2, base, added + x);
}

/// `(2 * sign - 1) * value`: the value when the sign is one, its negation
/// when the sign is zero.
pub open spec fn spec_absolute(sign: nat, value: nat) -> nat {
    field((2 * sign - 1) * value)
}

/// The evaluation of the bit check on a sign: zero exactly when the sign is
/// zero or one.
pub open spec fn sign_bit_check(sign: nat) -> nat {
    field(sign * sign - sign)
}

/// The evaluation of the check that `abs` is the absolute value of `value`.
pub open spec fn absolute_check(sign: nat, abs: nat, value: nat) -> nat {
    field(abs - (2 * sign - 1) * value)
}

/// Verifying the sign of an evaluation: the sign's evaluation and the state
/// after it, or the first error.
pub open spec fn spec_verify_sign(s: VerifierState, eval: nat) -> Result<(nat, VerifierState), ProofError> {
    match spec_consume_mle(s) {
        Err(e) => Err(e),
        Ok((sign, s1)) => match spec_consume_mle(s1) {
            Err(e) => Err(e),
            Ok((abs, s2)) => match spec_produce_subpolynomial(
                s2,
                SumcheckSubpolynomialType::Identity,
                sign_bit_check(sign),
                2,
            ) {
                Err(e) => Err(e),
                Ok(s3) => match spec_produce_subpolynomial(
                    s3,
                    SumcheckSubpolynomialType::Identity,
                    absolute_check(sign, abs, eval),
                    2,
                ) {
                    Err(e) => Err(e),
                    Ok(s4) => Ok((sign, s4)),
                },
            },
        },
    }
}

/// The field element `2`.
fn two() -> (r: Scalar)
    ensures
        r@ == 2,
{
    let r = Scalar::one().plus(&Scalar::one());
    proof {
        crate::scalar::lemma_field_small(2);
    }
    r
}

/// `(2 * sign - 1) * eval`: the absolute value of an evaluation given the
/// evaluation of its sign.
pub fn absolute_eval(sign_eval: Scalar, eval: Scalar) -> (r: Scalar)
    ensures
        r@ == spec_absolute(sign_eval@, eval@),
{
    let factor = two().times(&sign_eval).minus(&Scalar::one());
    let r = factor.times(&eval);
    proof {
        let m = crate::scalar::modulus();
        vstd::arithmetic::div_mod::lemma_sub_mod_noop(2 * sign_eval@ as int, 1, m);
        crate::scalar::lemma_field_small(1);
        crate::scalar::lemma_field_times(2 * sign_eval@ - 1, eval@ as int);
    }
    r
}

/// Reads the sign column's evaluation and the absolute column's, and produces
/// the bit check and the absolute-value check; gives the sign's evaluation.
pub fn verifier_evaluate_sign(builder: &mut VerificationBuilder, eval: Scalar) -> (r: Result<Scalar, ProofError>)
    ensures
        match spec_verify_sign(old(builder)@, eval@) {
            Ok((v, s)) => r matches Ok(x) && x@ == v && final(builder)@ == s,
            Err(e) => r == Err::<Scalar, ProofError>(e),
        },
{
    let sign = builder.try_consume_final_round_mle_evaluation()?;
    let abs = builder.try_consume_final_round_mle_evaluation()?;
    let bit_check = sign.times(&sign).minus(&sign);
    proof {
        crate::scalar::lemma_field_small(sign@ as int);
        vstd::arithmetic::div_mod::lemma_sub_mod_noop(sign@ as int * sign@, sign@ as int, crate::scalar::modulus());
    }
    builder.try_produce_sumcheck_subpolynomial_evaluation(
        SumcheckSubpolynomialType::Identity,
        bit_check,
        2,
    )?;
    let scaled = two().times(&sign).minus(&Scalar::one()).times(&eval);
    let check = abs.minus(&scaled);
    proof {
        let m = crate::scalar::modulus();
        vstd::arithmetic::div_mod::lemma_sub_mod_noop(2 * sign@ as int, 1, m);
        crate::scalar::lemma_field_small(1);
        crate::scalar::lemma_field_small(abs@ as int);
        crate::scalar::lemma_field_times(2 * sign@ - 1, eval@ as int);
        vstd::arithmetic::div_mod::lemma_sub_mod_noop(abs@ as int, (2 * sign@ - 1) * eval@, m);
    }
    builder.try_produce_sumcheck_subpolynomial_evaluation(
        SumcheckSubpolynomialType::Identity,
        check,
        2,
    )?;
    Ok(sign)
}

/// The sign of a field element read as a signed value: true when it is not
/// negative.
pub open spec fn sign_bit(v: nat) -> bool {
    signed_value(v) >= 0
}

/// The view of a column of scalars.
pub open spec fn scalar_column_view(values: Seq<nat>) -> ColumnView {
    ColumnView { column_type: ColumnType::Scalar, ints: Seq::empty(), scalars: values }
}

/// The view of the column of the values' signs.
pub open spec fn sign_column_view(values: Seq<nat>) -> ColumnView {
    ColumnView {
        column_type: ColumnType::Boolean,
        ints: Seq::empty(),
        scalars: values.map_values(|v: nat| bool_to_nat(sign_bit(v))),
    }
}

/// The values' absolute values, read as signed values.
pub open spec fn absolute_values(values: Seq<nat>) -> Seq<nat> {
    values.map_values(|v: nat| spec_absolute(bool_to_nat(sign_bit(v)), v))
}

/// The terms of the bit check `s * s - s` on a sign column.
pub open spec fn bit_terms(s: ColumnView) -> Seq<TermView> {
    seq![(1nat, seq![s, s]), ((modulus() - 1) as nat, seq![s])]
}

/// The terms of the check `abs - 2 * s * v + v` that `abs` is `(2s - 1) v`.
pub open spec fn absolute_terms(s: ColumnView, abs: ColumnView, v: ColumnView) -> Seq<TermView> {
    seq![(1nat, seq![abs]), ((modulus() - 2) as nat, seq![s, v]), (1nat, seq![v])]
}

/// The columns the prover commits to for the signs of `values`: the signs,
/// then the absolute values.
pub open spec fn sign_mles(values: Seq<nat>) -> Seq<ColumnView> {
    seq![sign_column_view(values), scalar_column_view(absolute_values(values))]
}

/// The subpolynomials the prover produces for the signs of `values`: the
/// bit check, then the absolute-value check.
pub open spec fn sign_subpolynomials(values: Seq<nat>) -> Seq<SubpolynomialView> {
    seq![
        (SumcheckSubpolynomialType::Identity, bit_terms(sign_column_view(values))),
        (
            SumcheckSubpolynomialType::Identity,
            absolute_terms(
                sign_column_view(values),
                scalar_column_view(absolute_values(values)),
                scalar_column_view(values),
            ),
        ),
    ]
}

/// The scalars of a column.
pub fn columns_to_scalar_slice<'a>(column: &Column<'a>, alloc: &'a bumpalo::Bump) -> (r: &'a [Scalar])
    ensures
        r@.map_values(|v: Scalar| v@) == column.scalar_values(),
{
    let n = column.len();
    let mut out: Vec<Scalar> = Vec::new();
    for i in 0..n
        invariant
            n == column.spec_len(),
            out@.len() == i,
            forall|j: int| 0 <= j < i ==> #[trigger] out@[j]@ == column.scalar_values()[j],
    {
        out.push(column.scalar_at(i).unwrap());
    }
    let r = alloc_slice_copy(alloc, out.as_slice());
    assert(r@.map_values(|v: Scalar| v@) =~= column.scalar_values());
    r
}

/// The column of `(2 * sign - 1) * value` for each row: the absolute values
/// of a column given its signs.
pub fn absolute_value_of_columns<'a>(signs: &'a [bool], column: &Column<'a>, alloc: &'a bumpalo::Bump) -> (r: Column<'a>)
    requires
        signs@.len() == column.spec_len(),
    ensures
        r@ == scalar_column_view(
            Seq::new(
                signs@.len(),
                |i: int| spec_absolute(bool_to_nat(signs@[i]), column.scalar_values()[i]),
            ),
        ),
{
    let n = signs.len();
    let mut out: Vec<Scalar> = Vec::new();
    for i in 0..n
        invariant
            n == signs@.len(),
            n == column.spec_len(),
            out@.len() == i,
            forall|j: int|
                0 <= j < i ==> #[trigger] out@[j]@ == spec_absolute(
                    bool_to_nat(signs@[j]),
                    column.scalar_values()[j],
                ),
    {
        let v = column.scalar_at(i).unwrap();
        out.push(absolute_eval(Scalar::from_bool(signs[i]), v));
    }
    let r = Column::Scalar(alloc_slice_copy(alloc, out.as_slice()));
    assert(r.scalar_values() =~= Seq::new(
        signs@.len(),
        |i: int| spec_absolute(bool_to_nat(signs@[i]), column.scalar_values()[i]),
    ));
    assert(r.int_values() =~= Seq::<int>::empty());
    r
}

/// The bit check vanishes on a row holding zero or one.
proof fn lemma_bit_terms_vanish(s: ColumnView, i: int)
    requires
        s.scalars[i] == 0 || s.scalars[i] == 1,
    ensures
        terms_at(bit_terms(s), i) == 0,
{
    let m = modulus();
    let v = s.scalars[i] as int;
    lemma_product_two(s, s, i);
    lemma_product_one(s, i);
    crate::final_round_builder::lemma_terms_two(
        (1nat, seq![s, s]),
        ((modulus() - 1) as nat, seq![s]),
        i,
    );
    crate::scalar::lemma_field_small(v * v);
    assert(v * v == v) by (nonlinear_arith)
        requires v == 0 || v == 1;
    assert(1 * (v * v) + (m - 1) * v == v * m) by (nonlinear_arith)
        requires v * v == v;
    crate::scalar::lemma_field_multiple(v);
}

/// The absolute-value check vanishes on a row whose absolute value is
/// `(2s - 1) v`.
proof fn lemma_absolute_terms_vanish(s: ColumnView, abs: ColumnView, v: ColumnView, i: int)
    requires
        s.scalars[i] == 0 || s.scalars[i] == 1,
        abs.scalars[i] == spec_absolute(s.scalars[i], v.scalars[i]),
        v.scalars[i] < modulus(),
    ensures
        terms_at(absolute_terms(s, abs, v), i) == 0,
{
    let m = modulus();
    let sv = s.scalars[i] as int;
    let vv = v.scalars[i] as int;
    let av = abs.scalars[i] as int;
    crate::scalar::lemma_field_bound((2 * sv - 1) * vv);
    lemma_product_one(abs, i);
    lemma_product_two(s, v, i);
    lemma_product_one(v, i);
    lemma_terms_three(
        (1nat, seq![abs]),
        ((modulus() - 2) as nat, seq![s, v]),
        (1nat, seq![v]),
        i,
    );
    let x = 1 * av + (m - 2) * field(sv * vv) + 1 * vv;
    // Reduce every part to its integer before reducing the sum.
    crate::scalar::lemma_field_times_right(m - 2, sv * vv);
    crate::scalar::lemma_field_plus(1 * av, (m - 2) * field(sv * vv));
    crate::scalar::lemma_field_plus(1 * av, (m - 2) * (sv * vv));
    crate::scalar::lemma_field_plus(1 * av + (m - 2) * field(sv * vv), 1 * vv);
    crate::scalar::lemma_field_plus(1 * av + (m - 2) * (sv * vv), 1 * vv);
    crate::scalar::lemma_field_plus((2 * sv - 1) * vv, (m - 2) * (sv * vv) + vv);
    crate::scalar::lemma_field_plus(av, (m - 2) * (sv * vv) + vv);
    crate::scalar::lemma_field_small(av);
    assert((2 * sv - 1) * vv + (m - 2) * (sv * vv) + vv == (sv * vv) * m) by (nonlinear_arith);
    crate::scalar::lemma_field_multiple(sv * vv);
    assert(field(1 * av + (m - 2) * field(sv * vv)) == field(1 * av + (m - 2) * (sv * vv))) by {
        crate::scalar::lemma_field_plus(1 * av, (m - 2) * field(sv * vv));
        crate::scalar::lemma_field_plus(1 * av, (m - 2) * (sv * vv));
    }
    assert(field(x) == field(av + (m - 2) * (sv * vv) + vv)) by {
        crate::scalar::lemma_field_plus(1 * av + (m - 2) * field(sv * vv), vv);
        crate::scalar::lemma_field_plus(1 * av + (m - 2) * (sv * vv), vv);
    }
    assert(field(av + (m - 2) * (sv * vv) + vv) == field((2 * sv - 1) * vv + (m - 2) * (sv * vv) + vv)) by {
        crate::scalar::lemma_field_plus(av, (m - 2) * (sv * vv) + vv);
        crate::scalar::lemma_field_plus((2 * sv - 1) * vv, (m - 2) * (sv * vv) + vv);
        assert(av == field((2 * sv - 1) * vv));
    }
}

/// The bit check and the absolute-value check on the signs of field
/// elements hold on every row.
pub proof fn lemma_sign_subpolynomials_hold(values: Seq<nat>)
    requires
        forall|i: int| 0 <= i < values.len() ==> #[trigger] values[i] < modulus(),
    ensures
        forall|k: int| 0 <= k < sign_subpolynomials(values).len() ==> identity_holds(
            #[trigger] sign_subpolynomials(values)[k],
        ),
{
    let sv = sign_column_view(values);
    let av = scalar_column_view(absolute_values(values));
    let vv = scalar_column_view(values);
    let b_sub = (SumcheckSubpolynomialType::Identity, bit_terms(sv));
    let a_sub = (SumcheckSubpolynomialType::Identity, absolute_terms(sv, av, vv));
    assert forall|i: int| 0 <= i < subpolynomial_rows(b_sub) implies #[trigger] terms_at(b_sub.1, i) == 0 by {
        lemma_bit_terms_vanish(sv, i);
    }
    assert forall|i: int| 0 <= i < subpolynomial_rows(a_sub) implies #[trigger] terms_at(a_sub.1, i) == 0 by {
        lemma_absolute_terms_vanish(sv, av, vv, i);
    }
    assert(sign_subpolynomials(values) =~= seq![b_sub, a_sub]);
}

/// Commits to the signs of `values` and to their absolute values, and
/// produces the bit check and the absolute-value check; gives the signs.
pub fn prover_evaluate_sign<'a>(
    builder: &mut FinalRoundBuilder<'a>,
    alloc: &'a bumpalo::Bump,
    values: &'a [Scalar],
) -> (r: &'a [bool])
    ensures
        r@.len() == values@.len(),
        forall|i: int| 0 <= i < values@.len() ==> #[trigger] r@[i] == sign_bit(values@[i]@),
        final(builder)@.intermediate_mles == old(builder)@.intermediate_mles + sign_mles(
            values@.map_values(|v: Scalar| v@),
        ),
        final(builder)@.subpolynomials == old(builder)@.subpolynomials + sign_subpolynomials(
            values@.map_values(|v: Scalar| v@),
        ),
        identities_hold(old(builder)@) ==> identities_hold(final(builder)@),
{
    let ghost vals = values@.map_values(|v: Scalar| v@);
    let n = values.len();
    let mut sign_vec: Vec<bool> = Vec::new();
    for i in 0..n
        invariant
            n == values@.len(),
            sign_vec@.len() == i,
            forall|j: int| 0 <= j < i ==> #[trigger] sign_vec@[j] == sign_bit(values@[j]@),
    {
        sign_vec.push(!values[i].is_negative());
    }
    let signs = alloc_slice_copy(alloc, sign_vec.as_slice());
    let value_column = Column::Scalar(values);
    let sign_column = Column::Boolean(signs);
    let abs_column = absolute_value_of_columns(signs, &value_column, alloc);
    let ghost sv = sign_column@;
    let ghost av = abs_column@;
    let ghost vv = value_column@;
    proof {
        assert(sv.scalars =~= sign_column_view(vals).scalars);
        assert(sv.ints =~= sign_column_view(vals).ints);
        assert(sv == sign_column_view(vals));
        assert(vv.scalars =~= scalar_column_view(vals).scalars);
        assert(vv.ints =~= scalar_column_view(vals).ints);
        assert(vv == scalar_column_view(vals));
        assert(av.scalars =~= absolute_values(vals));
        assert(av == scalar_column_view(absolute_values(vals)));
    }
    builder.produce_intermediate_mle(sign_column);
    builder.produce_intermediate_mle(abs_column);
    let ghost mid = builder@;

    let one = Scalar::one();
    let minus_one = one.neg();
    let minus_two = minus_one.plus(&minus_one);
    proof {
        crate::scalar::lemma_field_small(1);
        crate::scalar::lemma_field_add_multiple(-1, 1);
        crate::scalar::lemma_field_small(modulus() - 1);
        crate::scalar::lemma_field_small(modulus() - 2);
        crate::scalar::lemma_field_add_multiple(-2, 1);
        crate::scalar::lemma_field_plus(-1, -1);
    }
    let bit_check = vec![(one, vec![sign_column, sign_column]), (minus_one, vec![sign_column])];
    proof {
        let tv = terms_view(bit_check@);
        assert(tv[0].1 =~= seq![sv, sv]);
        assert(tv[1].1 =~= seq![sv]);
        assert(tv =~= bit_terms(sv));
    }
    builder.produce_sumcheck_subpolynomial(SumcheckSubpolynomialType::Identity, bit_check);
    let absolute_check = vec![
        (one, vec![abs_column]),
        (minus_two, vec![sign_column, value_column]),
        (one, vec![value_column]),
    ];
    proof {
        let tv = terms_view(absolute_check@);
        assert(tv[0].1 =~= seq![av]);
        assert(tv[1].1 =~= seq![sv, vv]);
        assert(tv[2].1 =~= seq![vv]);
        assert(tv =~= absolute_terms(sv, av, vv));
    }
    builder.produce_sumcheck_subpolynomial(SumcheckSubpolynomialType::Identity, absolute_check);
    proof {
        assert(builder@.intermediate_mles =~= old(builder)@.intermediate_mles + sign_mles(vals));
        assert(builder@.subpolynomials =~= old(builder)@.subpolynomials + sign_subpolynomials(vals));
        let b_sub = (SumcheckSubpolynomialType::Identity, bit_terms(sv));
        let a_sub = (SumcheckSubpolynomialType::Identity, absolute_terms(sv, av, vv));
        assert forall|i: int| 0 <= i < subpolynomial_rows(b_sub) implies #[trigger] terms_at(b_sub.1, i) == 0 by {
            lemma_bit_terms_vanish(sv, i);
        }
        assert forall|i: int| 0 <= i < subpolynomial_rows(a_sub) implies #[trigger] terms_at(a_sub.1, i) == 0 by {
            lemma_absolute_terms_vanish(sv, av, vv, i);
        }
        if identities_hold(old(builder)@) {
            assert forall|k: int| 0 <= k < builder@.subpolynomials.len() implies identity_holds(
                #[trigger] builder@.subpolynomials[k],
            ) by {
                if k < mid.subpolynomials.len() {
                    assert(builder@.subpolynomials[k] == old(builder)@.subpolynomials[k]);
                } else if k == mid.subpolynomials.len() {
                    assert(builder@.subpolynomials[k] == b_sub);
                } else {
                    assert(builder@.subpolynomials[k] == a_sub);
                }
            }
        }
    }
    signs
}

/// Half the modulus, rounded down: the largest magnitude a signed value
/// read from a field element has.
pub open spec fn half_modulus() -> int {
    (modulus() - 1) / 2
}

/// An integer of magnitude at most half the modulus keeps its sign in the
/// field.
pub proof fn lemma_sign_bit_of_small(x: int)
    requires
        crate::int_division::abs(x) <= half_modulus(),
    ensures
        signed_value(field(x)) == x,
        sign_bit(field(x)) == (x >= 0),
{
    let m = modulus();
    if x >= 0 {
        crate::scalar::lemma_field_small(x);
    } else {
        crate::scalar::lemma_field_add_multiple(x, 1);
        crate::scalar::lemma_field_small(x + m);
    }
}

/// An integer of magnitude at most half the modulus has, in the field, its
/// absolute value as the absolute value its sign gives.
pub proof fn lemma_absolute_of_small(x: int)
    requires
        crate::int_division::abs(x) <= half_modulus(),
    ensures
        spec_absolute(bool_to_nat(sign_bit(field(x))), field(x)) == crate::int_division::abs(x),
{
    lemma_sign_bit_of_small(x);
    let s = bool_to_nat(sign_bit(field(x))) as int;
    crate::scalar::lemma_field_times_right(2 * s - 1, x);
    crate::scalar::lemma_field_small(crate::int_division::abs(x));
    if x >= 0 {
        assert(s == 1);
        assert((2 * s - 1) * x == x) by (nonlinear_arith) requires s == 1;
    } else {
        assert(s == 0);
        assert((2 * s - 1) * x == -x) by (nonlinear_arith) requires s == 0;
    }
}

} // verus!
