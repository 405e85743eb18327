//! The gadget that proves an integer division together with its remainder:
//! besides `q * b - a + r = 0` it constrains the remainder to the dividend's
//! side of zero, below the divisor in absolute value, and the quotient to zero
//! where the divisor is zero.
use vstd::prelude::*;
use vstd::arithmetic::power::pow;
use crate::column::{
    bool_to_nat, fits, integer_values_fit, integer_view_wf, is_integer_type, Column, ColumnType, ColumnView,
};
use crate::column_type_operation::{spec_try_divide_column_types, try_divide_column_types};
use crate::division_expr::{division_check, division_check_eval, division_terms, lemma_division_terms_vanish};
use crate::dyn_proof_expr::{ColumnRefView, DynProofExpr};
use crate::final_round_builder::{
    identities_hold, identity_holds, lemma_product_one, lemma_product_three, lemma_product_two,
    lemma_terms_two, subpolynomial_rows, terms_at, terms_view, FinalRoundBuilder,
    SubpolynomialView, TermView,
};
use crate::int_division::{abs, lemma_trunc_div_rem, trunc_div, trunc_rem};
use crate::map::{lemma_seq_insert_all_append, seq_insert_all, ColumnRef, IndexMap, IndexSet};
use crate::numerical_util::{
    add_subtract_columns, can_divide, can_modulo, divide_columns, division_defined, inverse_of_columns,
    inverse_values, modulo_columns, quotient_view, remainder_view, scale_and_add_subtract_eval,
    scaled_combination,
};
use crate::scalar::{field, Scalar, modulus};
use crate::sign_gadget::{
    lemma_verify_sign_counts, lemma_verify_sign_sumcheck, absolute_eval, absolute_value_of_columns, columns_to_scalar_slice, half_modulus,
    lemma_absolute_of_small, lemma_sign_bit_of_small, prover_evaluate_sign, scalar_column_view,
    sign_bit, sign_column_view, sign_mles, sign_subpolynomials, spec_absolute, spec_verify_sign,
    verifier_evaluate_sign,
};
use crate::table::{Table, TableView};
use crate::verification_builder::{
    lemma_consume_value, lemma_produce_identity, spec_consume_mle, spec_produce_subpolynomial, ProofError, SumcheckSubpolynomialType,
    VerificationBuilder, VerifierState,
};

verus! {

broadcast use crate::scalar::lemma_scalar_bound, crate::column::Column::lemma_scalar_values_len;

/// The evaluation of `sign(a) * r - sign(r) * r`.
pub open spec fn remainder_sign_check(lhs_sign: nat, remainder: nat, remainder_sign: nat) -> nat {
    field(lhs_sign * remainder - remainder_sign * remainder)
}

/// The evaluation of `sign(|r| - |b|) * b`.
pub open spec fn remainder_bound_check(difference_sign: nat, rhs: nat) -> nat {
    field(difference_sign as int * rhs)
}

/// The evaluation of `q * (1 - b * b^-1)`.
pub open spec fn quotient_zero_check(quotient: nat, rhs: nat, rhs_inverse: nat) -> nat {
    field(quotient * (1 - rhs * rhs_inverse))
}

/// The terms of the prover's remainder-sign constraint
/// `sign(a) * r - sign(r) * r`.
pub open spec fn remainder_sign_terms(lhs_sign: ColumnView, remainder: ColumnView, remainder_sign: ColumnView) -> Seq<TermView> {
    seq![(1nat, seq![lhs_sign, remainder]), ((modulus() - 1) as nat, seq![remainder_sign, remainder])]
}

/// The terms of the bound constraint `sign(|r| - |b|) * b`.
pub open spec fn remainder_bound_terms(difference_sign: ColumnView, rhs: ColumnView) -> Seq<TermView> {
    seq![(1nat, seq![difference_sign, rhs])]
}

/// The terms of the prover's constraint `q * b * b^-1 - q`.
pub open spec fn quotient_zero_terms(quotient: ColumnView, rhs: ColumnView, rhs_inverse: ColumnView) -> Seq<TermView> {
    seq![(1nat, seq![quotient, rhs, rhs_inverse]), ((modulus() - 1) as nat, seq![quotient])]
}

/// Row by row, `|r| - |b|` computed from the absolute values that the signs
/// give.
pub open spec fn difference_values(remainder: Seq<nat>, rhs: Seq<nat>) -> Seq<nat> {
    Seq::new(
        remainder.len(),
        |i: int|
            scaled_combination(
                spec_absolute(bool_to_nat(sign_bit(remainder[i])), remainder[i]) as int,
                spec_absolute(bool_to_nat(sign_bit(rhs[i])), rhs[i]) as int,
                0,
                0,
                true,
            ),
    )
}

/// The intermediate columns the prover commits to for dividing column `a` by
/// column `b`: quotient and remainder, the signs of `a`, of the remainder, of
/// `b` and of `|r| - |b|`, then the inverses of `b`.
pub open spec fn divide_and_modulo_mles(a: ColumnView, b: ColumnView) -> Seq<ColumnView> {
    let q = quotient_view(a, b);
    let r = remainder_view(a, b);
    seq![q, r] + sign_mles(a.scalars) + sign_mles(r.scalars) + sign_mles(b.scalars) + sign_mles(
        difference_values(r.scalars, b.scalars),
    ) + seq![scalar_column_view(inverse_values(b.scalars))]
}

/// The subpolynomials the prover produces for dividing column `a` by column
/// `b`, in order.
pub open spec fn divide_and_modulo_subpolynomials(a: ColumnView, b: ColumnView) -> Seq<SubpolynomialView> {
    let q = quotient_view(a, b);
    let r = remainder_view(a, b);
    let d = difference_values(r.scalars, b.scalars);
    seq![(SumcheckSubpolynomialType::Identity, division_terms(q, b, r, a))] + sign_subpolynomials(
        a.scalars,
    ) + sign_subpolynomials(r.scalars) + seq![
        (
            SumcheckSubpolynomialType::Identity,
            remainder_sign_terms(sign_column_view(a.scalars), r, sign_column_view(r.scalars)),
        ),
    ] + sign_subpolynomials(b.scalars) + sign_subpolynomials(d) + seq![
        (SumcheckSubpolynomialType::Identity, remainder_bound_terms(sign_column_view(d), b)),
        (
            SumcheckSubpolynomialType::Identity,
            quotient_zero_terms(q, b, scalar_column_view(inverse_values(b.scalars))),
        ),
    ]
}

/// Fermat's little theorem for the modulus: every non-zero element times its
/// `(p - 2)`-th power is one, so `b^(p - 2)` is the inverse of a non-zero `b`.
/// It holds because the modulus is prime; the primality is not proved here.
pub open spec fn fermat_inverses() -> bool {
    forall|x: int| 0 < x < modulus() ==> #[trigger] field(x * pow(x, (modulus() - 2) as nat)) == 1
}

/// A value of an integer column type keeps its sign in the field: its
/// magnitude is at most `2^127`, far below half the modulus.
pub proof fn lemma_integer_value_small(t: ColumnType, v: int)
    requires
        is_integer_type(t),
        fits(t, v),
    ensures
        abs(v) <= 0x8000_0000_0000_0000_0000_0000_0000_0000,
        abs(v) <= half_modulus(),
{
}

/// Under Fermat's little theorem, a non-zero integer value times the
/// computed inverse of its field element is one.
proof fn lemma_inverse_of_small(x: int)
    requires
        fermat_inverses(),
        x != 0,
        abs(x) <= half_modulus(),
    ensures
        field(field(x) as int * field(pow(field(x) as int, (modulus() - 2) as nat))) == 1,
{
    lemma_sign_bit_of_small(x);
    crate::scalar::lemma_field_bound(x);
    let f = field(x) as int;
    assert(f != 0);
    crate::scalar::lemma_field_times_right(f, pow(f, (modulus() - 2) as nat));
}

/// The remainder-sign constraint vanishes on a row whose remainder is zero or
/// has the dividend's sign, when the dividend is small enough to keep its
/// sign in the field.
proof fn lemma_remainder_sign_terms_vanish(sa: ColumnView, m: ColumnView, sr: ColumnView, i: int, ai: int, ri: int)
    requires
        0 <= i < m.scalars.len(),
        sa.scalars[i] == bool_to_nat(sign_bit(field(ai))),
        sr.scalars[i] == bool_to_nat(sign_bit(m.scalars[i])),
        m.scalars[i] == field(ri),
        abs(ai) <= half_modulus(),
        abs(ri) <= abs(ai),
        ri == 0 || (ri < 0) == (ai < 0),
    ensures
        terms_at(remainder_sign_terms(sa, m, sr), i) == 0,
{
    let p = modulus();
    let ms = m.scalars[i] as int;
    crate::scalar::lemma_field_bound(ri);
    lemma_product_two(sa, m, i);
    lemma_product_two(sr, m, i);
    lemma_terms_two((1nat, seq![sa, m]), ((modulus() - 1) as nat, seq![sr, m]), i);
    let x = field(sa.scalars[i] as int * ms);
    let y = field(sr.scalars[i] as int * ms);
    if ri == 0 {
        crate::scalar::lemma_field_small(0);
        assert(ms == 0);
        assert(sa.scalars[i] as int * ms == 0);
        assert(sr.scalars[i] as int * ms == 0);
        assert(x == 0);
        assert(y == 0);
        assert(1 * x + (p - 1) * y == 0);
    } else {
        lemma_sign_bit_of_small(ai);
        lemma_sign_bit_of_small(ri);
        assert(sa.scalars[i] == sr.scalars[i]);
        assert(x == y);
        assert(1 * x + (p - 1) * y == x * p) by (nonlinear_arith) requires x == y;
        crate::scalar::lemma_field_multiple(x as int);
    }
}

/// The bound constraint vanishes on a row whose remainder is smaller than
/// its divisor in absolute value, both small enough to keep their signs.
proof fn lemma_remainder_bound_terms_vanish(sd: ColumnView, b: ColumnView, i: int, d: nat, mi: nat, ri: int, bi: int)
    requires
        sd.scalars[i] == bool_to_nat(sign_bit(d)),
        b.scalars[i] < modulus(),
        mi == field(ri),
        b.scalars[i] == field(bi),
        d == scaled_combination(
            spec_absolute(bool_to_nat(sign_bit(mi)), mi) as int,
            spec_absolute(bool_to_nat(sign_bit(b.scalars[i])), b.scalars[i]) as int,
            0,
            0,
            true,
        ),
        abs(ri) < abs(bi),
        abs(bi) <= half_modulus(),
    ensures
        terms_at(remainder_bound_terms(sd, b), i) == 0,
{
    lemma_absolute_of_small(ri);
    lemma_absolute_of_small(bi);
    assert(crate::scalar::pow10(0) == 1);
    let x = abs(ri) - abs(bi);
    assert(abs(ri) * 1 - abs(bi) * 1 == x);
    assert(d == field(x));
    lemma_sign_bit_of_small(x);
    assert(sd.scalars[i] == 0);
    lemma_product_two(sd, b, i);
    crate::final_round_builder::lemma_terms_one((1nat, seq![sd, b]), i);
    assert(0 * (b.scalars[i] as int) == 0);
    crate::scalar::lemma_field_small(0);
    assert(1 * 0 == 0);
}

/// The quotient-zero constraint vanishes on a row whose divisor times its
/// inverse is one.
proof fn lemma_quotient_zero_terms_vanish(q: ColumnView, b: ColumnView, inv: ColumnView, i: int)
    requires
        q.scalars[i] < modulus(),
        inv.scalars[i] < modulus(),
        field(b.scalars[i] as int * inv.scalars[i]) == 1,
    ensures
        terms_at(quotient_zero_terms(q, b, inv), i) == 0,
{
    let p = modulus();
    let qs = q.scalars[i] as int;
    lemma_product_three(q, b, inv, i);
    lemma_product_one(q, i);
    lemma_terms_two((1nat, seq![q, b, inv]), ((modulus() - 1) as nat, seq![q]), i);
    crate::scalar::lemma_field_times_right(qs, b.scalars[i] as int * inv.scalars[i]);
    assert(qs * 1 == qs);
    crate::scalar::lemma_field_small(qs);
    assert(1 * qs + (p - 1) * qs == qs * p) by (nonlinear_arith);
    crate::scalar::lemma_field_multiple(qs);
}

/// Every constraint the prover produces for dividing column `a` by column
/// `b` holds on every row, when the columns are integer columns whose
/// quotients and remainders are defined; the last one, `q * b * b^-1 - q`,
/// rests on Fermat's little theorem for the modulus.
pub proof fn lemma_divide_and_modulo_identities(a: ColumnView, b: ColumnView)
    requires
        integer_view_wf(a),
        integer_view_wf(b),
        integer_values_fit(a),
        integer_values_fit(b),
        can_divide(a, b),
        can_modulo(a, b),
        fermat_inverses(),
    ensures
        forall|k: int|
            0 <= k < divide_and_modulo_subpolynomials(a, b).len() ==> identity_holds(
                #[trigger] divide_and_modulo_subpolynomials(a, b)[k],
            ),
{
    let q = quotient_view(a, b);
    let r = remainder_view(a, b);
    let d = difference_values(r.scalars, b.scalars);
    let inv = scalar_column_view(inverse_values(b.scalars));
    let subs = divide_and_modulo_subpolynomials(a, b);
    let n = a.scalars.len();
    let division = (SumcheckSubpolynomialType::Identity, division_terms(q, b, r, a));
    let remainder_sign = (
        SumcheckSubpolynomialType::Identity,
        remainder_sign_terms(sign_column_view(a.scalars), r, sign_column_view(r.scalars)),
    );
    let bound = (SumcheckSubpolynomialType::Identity, remainder_bound_terms(sign_column_view(d), b));
    let zero = (SumcheckSubpolynomialType::Identity, quotient_zero_terms(q, b, inv));
    let sa = sign_subpolynomials(a.scalars);
    let sr = sign_subpolynomials(r.scalars);
    let sb = sign_subpolynomials(b.scalars);
    let sd = sign_subpolynomials(d);
    assert(subs =~= seq![division, sa[0], sa[1], sr[0], sr[1], remainder_sign, sb[0], sb[1], sd[0], sd[1], bound, zero]);
    crate::sign_gadget::lemma_sign_subpolynomials_hold(a.scalars);
    crate::sign_gadget::lemma_sign_subpolynomials_hold(r.scalars);
    crate::sign_gadget::lemma_sign_subpolynomials_hold(b.scalars);
    crate::sign_gadget::lemma_sign_subpolynomials_hold(d);
    assert forall|i: int| 0 <= i < subpolynomial_rows(division) implies #[trigger] terms_at(division.1, i) == 0 by {
        assert(division_defined(a.column_type, a.ints[i], b.ints[i]));
        lemma_trunc_div_rem(a.ints[i], b.ints[i]);
        lemma_division_terms_vanish(q, b, r, a, i, trunc_div(a.ints[i], b.ints[i]), b.ints[i], trunc_rem(a.ints[i], b.ints[i]), a.ints[i]);
    }
    assert forall|i: int| 0 <= i < subpolynomial_rows(remainder_sign) implies #[trigger] terms_at(remainder_sign.1, i) == 0 by {
        assert(division_defined(a.column_type, a.ints[i], b.ints[i]));
        lemma_integer_value_small(a.column_type, a.ints[i]);
        lemma_trunc_div_rem(a.ints[i], b.ints[i]);
        lemma_remainder_sign_terms_vanish(
            sign_column_view(a.scalars),
            r,
            sign_column_view(r.scalars),
            i,
            a.ints[i],
            trunc_rem(a.ints[i], b.ints[i]),
        );
    }
    assert forall|i: int| 0 <= i < subpolynomial_rows(bound) implies #[trigger] terms_at(bound.1, i) == 0 by {
        assert(division_defined(a.column_type, a.ints[i], b.ints[i]));
        lemma_integer_value_small(b.column_type, b.ints[i]);
        lemma_trunc_div_rem(a.ints[i], b.ints[i]);
        crate::scalar::lemma_field_bound(b.ints[i]);
        lemma_remainder_bound_terms_vanish(
            sign_column_view(d),
            b,
            i,
            d[i],
            r.scalars[i],
            trunc_rem(a.ints[i], b.ints[i]),
            b.ints[i],
        );
    }
    assert forall|i: int| 0 <= i < subpolynomial_rows(zero) implies #[trigger] terms_at(zero.1, i) == 0 by {
        assert(division_defined(a.column_type, a.ints[i], b.ints[i]));
        lemma_integer_value_small(b.column_type, b.ints[i]);
        lemma_inverse_of_small(b.ints[i]);
        crate::scalar::lemma_field_bound(trunc_div(a.ints[i], b.ints[i]));
        crate::scalar::lemma_field_bound(pow(b.scalars[i] as int, (modulus() - 2) as nat));
        lemma_quotient_zero_terms_vanish(q, b, inv, i);
    }
}

/// When the verifier reads, in some row, the values the honest prover
/// committed to, the four checks it produces are zero; the quotient-zero
/// check rests on Fermat's little theorem for the modulus.
pub proof fn lemma_divide_and_modulo_checks_honest(a: ColumnView, b: ColumnView, i: int)
    requires
        integer_view_wf(a),
        integer_view_wf(b),
        is_integer_type(a.column_type),
        is_integer_type(b.column_type),
        integer_values_fit(a),
        integer_values_fit(b),
        a.scalars.len() == b.scalars.len(),
        0 <= i < a.scalars.len(),
        b.ints[i] != 0,
    ensures
        ({
            let q = quotient_view(a, b).scalars[i];
            let r = remainder_view(a, b).scalars[i];
            let r_sign = bool_to_nat(sign_bit(r));
            let a_sign = bool_to_nat(sign_bit(a.scalars[i]));
            let b_sign = bool_to_nat(sign_bit(b.scalars[i]));
            let d = scaled_combination(
                spec_absolute(r_sign, r) as int,
                spec_absolute(b_sign, b.scalars[i]) as int,
                0,
                0,
                true,
            );
            let inv = inverse_values(b.scalars)[i];
            &&& division_check(q, b.scalars[i], a.scalars[i], r) == 0
            &&& remainder_sign_check(a_sign, r, r_sign) == 0
            &&& remainder_bound_check(bool_to_nat(sign_bit(d)), b.scalars[i]) == 0
            &&& fermat_inverses() ==> quotient_zero_check(q, b.scalars[i], inv) == 0
        }),
{
    let ai = a.ints[i];
    let bi = b.ints[i];
    let qi = trunc_div(ai, bi);
    let ri = trunc_rem(ai, bi);
    lemma_integer_value_small(a.column_type, ai);
    lemma_integer_value_small(b.column_type, bi);
    lemma_trunc_div_rem(ai, bi);
    crate::division_expr::lemma_division_check_honest(a, b, i);
    let q = field(qi);
    let r = field(ri);
    // bound check
    lemma_absolute_of_small(ri);
    lemma_absolute_of_small(bi);
    assert(crate::scalar::pow10(0) == 1);
    let x = abs(ri) - abs(bi);
    assert(abs(ri) * 1 - abs(bi) * 1 == x);
    lemma_sign_bit_of_small(x);
    crate::scalar::lemma_field_small(0);
    assert(0 * (b.scalars[i] as int) == 0);
    // remainder-sign check
    lemma_sign_bit_of_small(ai);
    lemma_sign_bit_of_small(ri);
    let sa = bool_to_nat(sign_bit(a.scalars[i])) as int;
    let sr = bool_to_nat(sign_bit(r)) as int;
    if ri == 0 {
        assert(r == 0);
        assert(sa * 0 - sr * 0 == 0);
    } else {
        assert(sa == sr);
        assert(sa * r - sr * r == 0) by (nonlinear_arith) requires sa == sr;
    }
    // quotient-zero check
    if fermat_inverses() {
        let inv = inverse_values(b.scalars)[i];
        let bs = b.scalars[i] as int;
        lemma_inverse_of_small(bi);
        crate::scalar::lemma_field_bound(qi);
        crate::scalar::lemma_field_small(q as int);
        crate::scalar::lemma_field_small(1);
        crate::scalar::lemma_field_minus(1, bs * inv);
        crate::scalar::lemma_field_times_right(q as int, 1 - bs * inv);
        assert(field(1 - bs * inv) == 0);
        assert(q as int * 0 == 0);
    }
}

/// The four checks are sound on a row whose values are in range: where the
/// quotient `q` and remainder `r` committed for dividend `a` and divisor `b`
/// make all four checks vanish, with the signs the sign gadget proves and
/// any committed inverse, and all four values have magnitude below `2^125`,
/// `q` and `r` are the quotient rounded toward zero and its remainder; where
/// `b` is zero, `q` is zero and `r` is `a`.
pub proof fn lemma_divide_and_modulo_checks_sound(a: int, b: int, q: int, r: int, inv: nat)
    requires
        abs(a) < 0x2000_0000_0000_0000_0000_0000_0000_0000,
        abs(b) < 0x2000_0000_0000_0000_0000_0000_0000_0000,
        abs(q) < 0x2000_0000_0000_0000_0000_0000_0000_0000,
        abs(r) < 0x2000_0000_0000_0000_0000_0000_0000_0000,
        division_check(field(q), field(b), field(a), field(r)) == 0,
        remainder_sign_check(bool_to_nat(sign_bit(field(a))), field(r), bool_to_nat(sign_bit(field(r)))) == 0,
        remainder_bound_check(
            bool_to_nat(
                sign_bit(
                    scaled_combination(
                        spec_absolute(bool_to_nat(sign_bit(field(r))), field(r)) as int,
                        spec_absolute(bool_to_nat(sign_bit(field(b))), field(b)) as int,
                        0,
                        0,
                        true,
                    ),
                ),
            ),
            field(b),
        ) == 0,
        quotient_zero_check(field(q), field(b), inv) == 0,
    ensures
        b == 0 ==> q == 0 && r == a,
        b != 0 ==> q == trunc_div(a, b) && r == trunc_rem(a, b),
{
    let p = modulus();
    let bound: int = 0x2000_0000_0000_0000_0000_0000_0000_0000;
    assert(bound * bound * 4 < p);
    lemma_integer_range_small(a, bound);
    lemma_integer_range_small(b, bound);
    lemma_integer_range_small(r, bound);
    lemma_integer_range_small(q, bound);
    // the division identity holds over the integers
    crate::scalar::lemma_field_division_identity(q, b, a, r);
    assert(-bound * bound < q * b < bound * bound) by (nonlinear_arith)
        requires
            -bound < q < bound,
            -bound < b < bound,
            bound > 0,
    ;
    crate::scalar::lemma_field_zero_small(q * b - a + r);
    assert(q * b + r == a);
    // the remainder lies on the dividend's side of zero
    lemma_sign_bit_of_small(a);
    lemma_sign_bit_of_small(r);
    lemma_sign_bit_of_small(b);
    let fr = field(r) as int;
    crate::scalar::lemma_field_bound(r);
    let sa = bool_to_nat(sign_bit(field(a))) as int;
    let sr = bool_to_nat(sign_bit(field(r))) as int;
    if sa != sr {
        if sa == 1 {
            assert(sa * fr - sr * fr == fr) by (nonlinear_arith) requires sa == 1, sr == 0;
            crate::scalar::lemma_field_small(fr);
        } else {
            assert(sa * fr - sr * fr == -fr) by (nonlinear_arith) requires sa == 0, sr == 1;
            crate::scalar::lemma_field_zero_small(-fr);
        }
        crate::scalar::lemma_field_zero_small(r);
    }
    assert(r == 0 || (r >= 0) == (a >= 0));
    // quotient and remainder where the divisor is zero
    let fq = field(q) as int;
    let fb = field(b) as int;
    crate::scalar::lemma_field_bound(q);
    if b == 0 {
        assert(fb == 0);
        assert(fq * (1 - fb * inv) == fq) by (nonlinear_arith) requires fb == 0;
        assert(quotient_zero_check(field(q), field(b), inv) == field(fq * (1 - fb * inv)));
        crate::scalar::lemma_field_small(fq);
        assert(fq == 0);
        crate::scalar::lemma_field_zero_small(q);
        assert(q == 0);
        assert(q * b == 0);
    } else {
        // the remainder is below the divisor in magnitude
        lemma_absolute_of_small(r);
        lemma_absolute_of_small(b);
        assert(crate::scalar::pow10(0) == 1);
        let x = abs(r) - abs(b);
        assert(abs(r) * 1 - abs(b) * 1 == x);
        lemma_sign_bit_of_small(x);
        let sd = bool_to_nat(sign_bit(field(x))) as int;
        assert(fb != 0);
        crate::scalar::lemma_field_bound(b);
        if sd == 1 {
            assert(sd * fb == fb) by (nonlinear_arith) requires sd == 1;
            crate::scalar::lemma_field_small(fb);
            assert(false);
        }
        assert(abs(r) < abs(b));
        // the quotient and remainder are the truncated ones
        lemma_trunc_div_rem(a, b);
        let q0 = trunc_div(a, b);
        let r0 = trunc_rem(a, b);
        assert((q - q0) * b == r0 - r) by (nonlinear_arith)
            requires
                q * b + r == a,
                q0 * b + r0 == a,
        ;
        assert(-abs(b) < r0 - r < abs(b));
        lemma_small_multiple(q - q0, b, r0 - r);
    }
}

/// An integer below `bound` in magnitude, at most `2^125`, keeps its sign in
/// the field.
proof fn lemma_integer_range_small(x: int, bound: int)
    requires
        abs(x) < bound,
        bound == 0x2000_0000_0000_0000_0000_0000_0000_0000,
    ensures
        -bound < x < bound,
        abs(x) <= half_modulus(),
{
}

/// A multiple of a non-zero integer smaller than it in magnitude is zero.
proof fn lemma_small_multiple(k: int, b: int, v: int)
    requires
        b != 0,
        k * b == v,
        -abs(b) < v < abs(b),
    ensures
        k == 0,
{
    if k > 0 && b > 0 {
        assert(k * b >= b) by (nonlinear_arith) requires k >= 1, b > 0;
    } else if k > 0 && b < 0 {
        assert(k * b <= b) by (nonlinear_arith) requires k >= 1, b < 0;
    } else if k < 0 && b > 0 {
        assert(k * b <= -b) by (nonlinear_arith) requires k <= -1, b > 0;
    } else if k < 0 && b < 0 {
        assert(k * b >= -b) by (nonlinear_arith) requires k <= -1, b < 0;
    }
}

/// Divides one expression by another, giving the quotient and the remainder.
#[derive(Clone, Debug, PartialEq)]
pub struct DivideAndModuloExpr {
    pub lhs: Box<DynProofExpr>,
    pub rhs: Box<DynProofExpr>,
}

/// The verifier's steps from the operands' evaluations on: the quotient's
/// and the remainder's evaluations and the state after them, or the first
/// error.
pub open spec fn spec_divide_and_modulo_checks(s: VerifierState, lhs: nat, rhs: nat) -> Result<((nat, nat), VerifierState), ProofError> {
    match spec_consume_mle(s) {
        Err(e) => Err(e),
        Ok((quotient, s1)) => match spec_consume_mle(s1) {
            Err(e) => Err(e),
            Ok((remainder, s2)) => match spec_produce_subpolynomial(
                s2,
                SumcheckSubpolynomialType::Identity,
                division_check(quotient, rhs, lhs, remainder),
                2,
            ) {
                Err(e) => Err(e),
                Ok(s3) => match spec_verify_sign(s3, lhs) {
                    Err(e) => Err(e),
                    Ok((lhs_sign, s4)) => match spec_verify_sign(s4, remainder) {
                        Err(e) => Err(e),
                        Ok((remainder_sign, s5)) => match spec_produce_subpolynomial(
                            s5,
                            SumcheckSubpolynomialType::Identity,
                            remainder_sign_check(lhs_sign, remainder, remainder_sign),
                            2,
                        ) {
                            Err(e) => Err(e),
                            Ok(s6) => match spec_verify_sign(s6, rhs) {
                                Err(e) => Err(e),
                                Ok((rhs_sign, s7)) => match spec_verify_sign(
                                    s7,
                                    scaled_combination(
                                        spec_absolute(remainder_sign, remainder) as int,
                                        spec_absolute(rhs_sign, rhs) as int,
                                        0,
                                        0,
                                        true,
                                    ),
                                ) {
                                    Err(e) => Err(e),
                                    Ok((difference_sign, s8)) => match spec_produce_subpolynomial(
                                        s8,
                                        SumcheckSubpolynomialType::Identity,
                                        remainder_bound_check(difference_sign, rhs),
                                        2,
                                    ) {
                                        Err(e) => Err(e),
                                        Ok(s9) => match spec_consume_mle(s9) {
                                            Err(e) => Err(e),
                                            Ok((rhs_inverse, s10)) => match spec_produce_subpolynomial(
                                                s10,
                                                SumcheckSubpolynomialType::Identity,
                                                quotient_zero_check(quotient, rhs, rhs_inverse),
                                                3,
                                            ) {
                                                Err(e) => Err(e),
                                                Ok(s11) => Ok(((quotient, remainder), s11)),
                                            },
                                        },
                                    },
                                },
                            },
                        },
                    },
                },
            },
        },
    }
}

/// The verifier's steps after the operands read the eleven evaluations of the
/// columns the prover commits to and produce its twelve subpolynomials.
pub proof fn lemma_divide_and_modulo_checks_counts(s: VerifierState, lhs: nat, rhs: nat)
    requires
        spec_divide_and_modulo_checks(s, lhs, rhs) is Ok,
    ensures
        ({
            let s2 = spec_divide_and_modulo_checks(s, lhs, rhs).unwrap().1;
            &&& s2.consumed_final_round_mles == s.consumed_final_round_mles + 11
            &&& s2.produced_subpolynomials == s.produced_subpolynomials + 12
        }),
{
    let (quotient, s1) = spec_consume_mle(s).unwrap();
    let (remainder, s2) = spec_consume_mle(s1).unwrap();
    let s3 = spec_produce_subpolynomial(
        s2,
        SumcheckSubpolynomialType::Identity,
        division_check(quotient, rhs, lhs, remainder),
        2,
    ).unwrap();
    lemma_verify_sign_counts(s3, lhs);
    let (lhs_sign, s4) = spec_verify_sign(s3, lhs).unwrap();
    lemma_verify_sign_counts(s4, remainder);
    let (remainder_sign, s5) = spec_verify_sign(s4, remainder).unwrap();
    let s6 = spec_produce_subpolynomial(
        s5,
        SumcheckSubpolynomialType::Identity,
        remainder_sign_check(lhs_sign, remainder, remainder_sign),
        2,
    ).unwrap();
    lemma_verify_sign_counts(s6, rhs);
    let (rhs_sign, s7) = spec_verify_sign(s6, rhs).unwrap();
    let d = scaled_combination(
        spec_absolute(remainder_sign, remainder) as int,
        spec_absolute(rhs_sign, rhs) as int,
        0,
        0,
        true,
    );
    lemma_verify_sign_counts(s7, d);
}

/// What the verifier computes from the eleven evaluations it reads after the
/// operands' (`lhs`, `rhs`): the quotient `q` and remainder `r` it gives are
/// the first two, and the sumcheck evaluation gains, each times the random
/// evaluation and its multiplier in order, the twelve checks
/// `q * rhs - lhs + r`; the sign checks of `lhs` (sign `sa`); those of `r`
/// (sign `sr`); `sa * r - sr * r`; the sign checks of `rhs` (sign `sb`);
/// those of `d = (2 sr - 1) r - (2 sb - 1) rhs` (sign `sd`); `sd * rhs`; and
/// `q * (1 - rhs * inv)`.
#[verifier::rlimit(60)]
#[verifier::spinoff_prover]
pub proof fn lemma_divide_and_modulo_checks_sumcheck(s: VerifierState, lhs: nat, rhs: nat)
    requires
        spec_divide_and_modulo_checks(s, lhs, rhs) is Ok,
    ensures
        ({
            let e = s.final_round_mle_evaluations;
            let c = s.consumed_final_round_mles as int;
            let m = s.subpolynomial_multipliers;
            let k = s.produced_subpolynomials as int;
            let rnd = s.random_evaluation;
            let q = e[c];
            let r = e[c + 1];
            let sa = e[c + 2];
            let sr = e[c + 4];
            let sb = e[c + 6];
            let sd = e[c + 8];
            let inv = e[c + 10];
            let d = field((2 * sr - 1) * r - (2 * sb - 1) * rhs);
            let checks = seq![
                field(q * rhs - lhs + r),
                field(sa * sa - sa),
                field(e[c + 3] - (2 * sa - 1) * lhs),
                field(sr * sr - sr),
                field(e[c + 5] - (2 * sr - 1) * r),
                field(sa * r - sr * r),
                field(sb * sb - sb),
                field(e[c + 7] - (2 * sb - 1) * rhs),
                field(sd * sd - sd),
                field(e[c + 9] - (2 * sd - 1) * d),
                field(sd as int * rhs),
                field(q * (1 - rhs * inv)),
            ];
            let w = |j: int| m[k + j] as int * checks[j] * rnd;
            let (res, s2) = spec_divide_and_modulo_checks(s, lhs, rhs).unwrap();
            &&& res == (q, r)
            &&& s2.sumcheck_evaluation == field(
                s.sumcheck_evaluation as int + w(0) + w(1) + w(2) + w(3) + w(4) + w(5) + w(6) + w(7) + w(8) + w(9)
                    + w(10) + w(11),
            )
            &&& s2.consumed_final_round_mles == c + 11
            &&& s2.produced_subpolynomials == k + 12
        }),
{
    let e = s.final_round_mle_evaluations;
    let c = s.consumed_final_round_mles as int;
    let m = s.subpolynomial_multipliers;
    let k = s.produced_subpolynomials as int;
    let rnd = s.random_evaluation;
    let base = s.sumcheck_evaluation as int;
    lemma_consume_value(s);
    let (quotient, s1) = spec_consume_mle(s).unwrap();
    lemma_consume_value(s1);
    let (remainder, s2) = spec_consume_mle(s1).unwrap();
    // q * rhs - lhs + r
    let ev0 = division_check(quotient, rhs, lhs, remainder);
    lemma_produce_identity(s2, ev0, 2, base, 0);
    let s3 = spec_produce_subpolynomial(s2, SumcheckSubpolynomialType::Identity, ev0, 2).unwrap();
    let t0: int = m[k] as int * ev0 * rnd;
    crate::scalar::lemma_field_bound(base + t0);
    crate::scalar::lemma_field_small(s3.sumcheck_evaluation as int);
    // the sign of lhs
    lemma_verify_sign_sumcheck(s3, lhs, base, t0);
    let (lhs_sign, s4) = spec_verify_sign(s3, lhs).unwrap();
    let t2: int = t0 + m[k + 1] * field(e[c + 2] * e[c + 2] - e[c + 2]) * rnd + m[k + 2] * field(
        e[c + 3] - (2 * e[c + 2] - 1) * lhs,
    ) * rnd;
    crate::scalar::lemma_field_bound(base + t2);
    crate::scalar::lemma_field_small(s4.sumcheck_evaluation as int);
    // the sign of the remainder
    lemma_verify_sign_sumcheck(s4, remainder, base, t2);
    let (remainder_sign, s5) = spec_verify_sign(s4, remainder).unwrap();
    let t4: int = t2 + m[k + 3] * field(e[c + 4] * e[c + 4] - e[c + 4]) * rnd + m[k + 4] * field(
        e[c + 5] - (2 * e[c + 4] - 1) * remainder,
    ) * rnd;
    crate::scalar::lemma_field_bound(base + t4);
    crate::scalar::lemma_field_small(s5.sumcheck_evaluation as int);
    // sign(a) * r - sign(r) * r
    let ev5 = remainder_sign_check(lhs_sign, remainder, remainder_sign);
    lemma_produce_identity(s5, ev5, 2, base, t4);
    let s6 = spec_produce_subpolynomial(s5, SumcheckSubpolynomialType::Identity, ev5, 2).unwrap();
    let t5: int = t4 + m[k + 5] * ev5 * rnd;
    crate::scalar::lemma_field_bound(base + t5);
    crate::scalar::lemma_field_small(s6.sumcheck_evaluation as int);
    // the sign of rhs
    lemma_verify_sign_sumcheck(s6, rhs, base, t5);
    let (rhs_sign, s7) = spec_verify_sign(s6, rhs).unwrap();
    let t7: int = t5 + m[k + 6] * field(e[c + 6] * e[c + 6] - e[c + 6]) * rnd + m[k + 7] * field(
        e[c + 7] - (2 * e[c + 6] - 1) * rhs,
    ) * rnd;
    crate::scalar::lemma_field_bound(base + t7);
    crate::scalar::lemma_field_small(s7.sumcheck_evaluation as int);
    // the sign of |r| - |b|
    let dv = scaled_combination(
        spec_absolute(remainder_sign, remainder) as int,
        spec_absolute(rhs_sign, rhs) as int,
        0,
        0,
        true,
    );
    assert(dv == field((2 * e[c + 4] - 1) * remainder - (2 * e[c + 6] - 1) * rhs)) by {
        assert(crate::scalar::pow10(0) == 1);
        let x = spec_absolute(remainder_sign, remainder) as int;
        let y = spec_absolute(rhs_sign, rhs) as int;
        assert(x * 1 - y * 1 == x - y);
        crate::scalar::lemma_field_minus((2 * e[c + 4] - 1) * remainder, (2 * e[c + 6] - 1) * rhs);
    }
    lemma_verify_sign_sumcheck(s7, dv, base, t7);
    let (difference_sign, s8) = spec_verify_sign(s7, dv).unwrap();
    let t9: int = t7 + m[k + 8] * field(e[c + 8] * e[c + 8] - e[c + 8]) * rnd + m[k + 9] * field(
        e[c + 9] - (2 * e[c + 8] - 1) * dv,
    ) * rnd;
    crate::scalar::lemma_field_bound(base + t9);
    crate::scalar::lemma_field_small(s8.sumcheck_evaluation as int);
    // sign(|r| - |b|) * b
    let ev10 = remainder_bound_check(difference_sign, rhs);
    lemma_produce_identity(s8, ev10, 2, base, t9);
    let s9 = spec_produce_subpolynomial(s8, SumcheckSubpolynomialType::Identity, ev10, 2).unwrap();
    let t10: int = t9 + m[k + 10] * ev10 * rnd;
    crate::scalar::lemma_field_bound(base + t10);
    crate::scalar::lemma_field_small(s9.sumcheck_evaluation as int);
    // q * (1 - b * b^-1)
    lemma_consume_value(s9);
    let (rhs_inverse, s10) = spec_consume_mle(s9).unwrap();
    let ev11 = quotient_zero_check(quotient, rhs, rhs_inverse);
    lemma_produce_identity(s10, ev11, 3, base, t10);
}

/// Where the prover's columns and constraints for `a / b` stand: the quotient
/// and remainder first, the inverses of `b` last; the division identity
/// first, the remainder-sign constraint sixth, the bound constraint
/// eleventh and the quotient-zero constraint last, each over the columns
/// named.
pub proof fn lemma_divide_and_modulo_layout(a: ColumnView, b: ColumnView)
    ensures
        ({
            let mles = divide_and_modulo_mles(a, b);
            let subs = divide_and_modulo_subpolynomials(a, b);
            let q = quotient_view(a, b);
            let r = remainder_view(a, b);
            let minus_one = (modulus() - 1) as nat;
            let inv = mles[10];
            &&& mles.len() == 11
            &&& subs.len() == 12
            &&& mles[0] == q
            &&& mles[1] == r
            &&& inv.scalars.len() == b.scalars.len()
            &&& forall|i: int|
                0 <= i < b.scalars.len() ==> #[trigger] inv.scalars[i] == field(
                    pow(b.scalars[i] as int, (modulus() - 2) as nat),
                )
            &&& subs[0] == (
                SumcheckSubpolynomialType::Identity,
                seq![(1nat, seq![q, b]), (1nat, seq![r]), (minus_one, seq![a])],
            )
            &&& subs[5] == (
                SumcheckSubpolynomialType::Identity,
                seq![(1nat, seq![mles[2], r]), (minus_one, seq![mles[4], r])],
            )
            &&& subs[10] == (SumcheckSubpolynomialType::Identity, seq![(1nat, seq![mles[8], b])])
            &&& subs[11] == (SumcheckSubpolynomialType::Identity, seq![(1nat, seq![q, b, inv]), (minus_one, seq![q])])
        }),
{
}

/// On integer columns whose quotients and remainders are defined, the sign
/// columns the prover commits to hold, row by row, whether the dividend, the
/// remainder and `|r| - |b|` are not negative.
pub proof fn lemma_divide_and_modulo_signs(a: ColumnView, b: ColumnView)
    requires
        integer_view_wf(a),
        integer_view_wf(b),
        integer_values_fit(a),
        integer_values_fit(b),
        can_divide(a, b),
        can_modulo(a, b),
    ensures
        forall|i: int|
            0 <= i < a.scalars.len() ==> {
                &&& #[trigger] divide_and_modulo_mles(a, b)[2].scalars[i] == bool_to_nat(a.ints[i] >= 0)
                &&& divide_and_modulo_mles(a, b)[4].scalars[i] == bool_to_nat(remainder_view(a, b).ints[i] >= 0)
                &&& divide_and_modulo_mles(a, b)[8].scalars[i] == bool_to_nat(
                    abs(remainder_view(a, b).ints[i]) >= abs(b.ints[i]),
                )
            },
{
    let mles = divide_and_modulo_mles(a, b);
    let r = remainder_view(a, b);
    let d = difference_values(r.scalars, b.scalars);
    assert(mles[2] == sign_column_view(a.scalars));
    assert(mles[4] == sign_column_view(r.scalars));
    assert(mles[8] == sign_column_view(d));
    assert forall|i: int| 0 <= i < a.scalars.len() implies {
        &&& #[trigger] divide_and_modulo_mles(a, b)[2].scalars[i] == bool_to_nat(a.ints[i] >= 0)
        &&& divide_and_modulo_mles(a, b)[4].scalars[i] == bool_to_nat(r.ints[i] >= 0)
        &&& divide_and_modulo_mles(a, b)[8].scalars[i] == bool_to_nat(abs(r.ints[i]) >= abs(b.ints[i]))
    } by {
        lemma_sign_row(a, b, i);
    }
}

/// One row of `lemma_divide_and_modulo_signs`.
proof fn lemma_sign_row(a: ColumnView, b: ColumnView, i: int)
    requires
        integer_view_wf(a),
        integer_view_wf(b),
        integer_values_fit(a),
        integer_values_fit(b),
        can_divide(a, b),
        can_modulo(a, b),
        0 <= i < a.scalars.len(),
    ensures
        sign_column_view(a.scalars).scalars[i] == bool_to_nat(a.ints[i] >= 0),
        sign_column_view(remainder_view(a, b).scalars).scalars[i] == bool_to_nat(
            remainder_view(a, b).ints[i] >= 0,
        ),
        sign_column_view(difference_values(remainder_view(a, b).scalars, b.scalars)).scalars[i] == bool_to_nat(
            abs(remainder_view(a, b).ints[i]) >= abs(b.ints[i]),
        ),
{
    let r = remainder_view(a, b);
    assert(division_defined(a.column_type, a.ints[i], b.ints[i]));
    lemma_integer_value_small(a.column_type, a.ints[i]);
    lemma_integer_value_small(b.column_type, b.ints[i]);
    let ri = trunc_rem(a.ints[i], b.ints[i]);
    lemma_trunc_div_rem(a.ints[i], b.ints[i]);
    assert(r.ints[i] == ri);
    assert(r.scalars[i] == field(ri));
    lemma_sign_bit_of_small(a.ints[i]);
    lemma_sign_bit_of_small(ri);
    lemma_absolute_of_small(ri);
    lemma_absolute_of_small(b.ints[i]);
    assert(crate::scalar::pow10(0) == 1);
    let x = abs(ri) - abs(b.ints[i]);
    assert(abs(ri) * 1 - abs(b.ints[i]) * 1 == x);
    lemma_sign_bit_of_small(x);
    assert(difference_values(r.scalars, b.scalars)[i] == field(x));
}

/// The prover commits to eleven columns and produces twelve subpolynomials.
proof fn lemma_divide_and_modulo_lengths(a: ColumnView, b: ColumnView)
    ensures
        divide_and_modulo_mles(a, b).len() == 11,
        divide_and_modulo_subpolynomials(a, b).len() == 12,
{
}

impl DivideAndModuloExpr {
    /// The type of the quotient, when both operands have a type and the
    /// division applies to them.
    pub open spec fn spec_data_type(&self) -> Option<ColumnType> {
        match (self.lhs.spec_data_type(), self.rhs.spec_data_type()) {
            (Some(l), Some(r)) => match spec_try_divide_column_types(l, r) {
                Ok(t) => Some(t),
                Err(_) => None,
            },
            _ => None,
        }
    }

    /// Verifying the division from state `s`: the operands' evaluations, then
    /// the quotient's and remainder's evaluations and all the constraints;
    /// the quotient's and remainder's evaluations and the state after them,
    /// or the first error.
    pub open spec fn spec_verifier_evaluate(
        &self,
        s: VerifierState,
        accessor: Map<ColumnRefView, nat>,
        one_eval: nat,
    ) -> Result<((nat, nat), VerifierState), ProofError> {
        match self.lhs.spec_verifier_evaluate(s, accessor, one_eval) {
            Err(e) => Err(e),
            Ok((lhs, s1)) => match self.rhs.spec_verifier_evaluate(s1, accessor, one_eval) {
                Err(e) => Err(e),
                Ok((rhs, s2)) => spec_divide_and_modulo_checks(s2, lhs, rhs),
            },
        }
    }

    /// The prover can evaluate both operands on table `t`, and the quotient
    /// and the remainder of their columns are defined.
    pub open spec fn spec_provable(&self, t: TableView) -> bool {
        &&& self.lhs.spec_provable(t)
        &&& self.rhs.spec_provable(t)
        &&& match (self.lhs.spec_result(t), self.rhs.spec_result(t)) {
            (Some(a), Some(b)) => can_divide(a, b) && can_modulo(a, b),
            _ => false,
        }
    }

    /// The verifier reads exactly as many evaluations as the prover commits
    /// columns for, and produces as many subpolynomials as the prover does.
    pub proof fn lemma_verifier_matches_prover(
        &self,
        s: VerifierState,
        accessor: Map<ColumnRefView, nat>,
        one_eval: nat,
        t: TableView,
    )
        requires
            self.spec_verifier_evaluate(s, accessor, one_eval) is Ok,
        ensures
            ({
                let a = self.lhs.spec_result(t).unwrap();
                let b = self.rhs.spec_result(t).unwrap();
                let s2 = self.spec_verifier_evaluate(s, accessor, one_eval).unwrap().1;
                &&& s2.consumed_final_round_mles == s.consumed_final_round_mles
                    + self.lhs.spec_prover_mles(t).len() + self.rhs.spec_prover_mles(t).len()
                    + divide_and_modulo_mles(a, b).len()
                &&& s2.produced_subpolynomials == s.produced_subpolynomials
                    + self.lhs.spec_prover_subpolynomials(t).len()
                    + self.rhs.spec_prover_subpolynomials(t).len()
                    + divide_and_modulo_subpolynomials(a, b).len()
            }),
    {
        let (lhs, s1) = self.lhs.spec_verifier_evaluate(s, accessor, one_eval).unwrap();
        self.lhs.lemma_verifier_matches_prover(s, accessor, one_eval, t);
        let (rhs, s2) = self.rhs.spec_verifier_evaluate(s1, accessor, one_eval).unwrap();
        self.rhs.lemma_verifier_matches_prover(s1, accessor, one_eval, t);
        lemma_divide_and_modulo_checks_counts(s2, lhs, rhs);
        lemma_divide_and_modulo_lengths(self.lhs.spec_result(t).unwrap(), self.rhs.spec_result(t).unwrap());
    }

    /// On a table whose columns have the types the references name, the
    /// division's type is the type of the quotient column the prover gives,
    /// which is the dividend's type.
    pub proof fn lemma_result_has_data_type(&self, t: TableView)
        requires
            self.lhs.spec_refs_match(t),
            self.rhs.spec_refs_match(t),
            self.spec_provable(t),
        ensures
            self.spec_data_type() == Some(
                quotient_view(self.lhs.spec_result(t).unwrap(), self.rhs.spec_result(t).unwrap()).column_type,
            ),
            self.spec_data_type() == Some(self.lhs.spec_result(t).unwrap().column_type),
    {
        self.lhs.lemma_result_has_data_type(t);
        self.rhs.lemma_result_has_data_type(t);
    }

    pub fn new(lhs: Box<DynProofExpr>, rhs: Box<DynProofExpr>) -> (r: DivideAndModuloExpr)
        ensures
            r.lhs == lhs,
            r.rhs == rhs,
    {
        DivideAndModuloExpr { lhs, rhs }
    }

    /// The type of the quotient.
    pub fn data_type(&self) -> (r: ColumnType)
        requires
            self.spec_data_type() is Some,
        ensures
            self.spec_data_type() == Some(r),
            self.lhs.spec_data_type() == Some(r),
    {
        let l = self.lhs.data_type();
        let r = self.rhs.data_type();
        match try_divide_column_types(l, r) {
            Ok(t) => t,
            Err(_) => l,
        }
    }

    /// Verifies the division and gives the quotient's and the remainder's
    /// evaluations.
    pub fn verifier_evaluate(
        &self,
        builder: &mut VerificationBuilder,
        accessor: &IndexMap<ColumnRef, Scalar>,
        one_eval: Scalar,
    ) -> (r: Result<(Scalar, Scalar), ProofError>)
        requires
            accessor.well_formed(),
        ensures
            match self.spec_verifier_evaluate(old(builder)@, accessor@, one_eval@) {
                Ok(((q, m), s)) => r matches Ok((x, y)) && x@ == q && y@ == m && final(builder)@ == s,
                Err(e) => r == Err::<(Scalar, Scalar), ProofError>(e),
            },
    {
        let lhs = self.lhs.verifier_evaluate(builder, accessor, one_eval)?;
        let rhs = self.rhs.verifier_evaluate(builder, accessor, one_eval)?;

        let quotient = builder.try_consume_final_round_mle_evaluation()?;
        let remainder = builder.try_consume_final_round_mle_evaluation()?;

        // q * b - a + r = 0
        builder.try_produce_sumcheck_subpolynomial_evaluation(
            SumcheckSubpolynomialType::Identity,
            division_check_eval(&quotient, &rhs, &lhs, &remainder),
            2,
        )?;

        // sign(a) * r - sign(r) * r = 0
        let lhs_sign = verifier_evaluate_sign(builder, lhs)?;
        let remainder_sign = verifier_evaluate_sign(builder, remainder)?;
        let sign_eval = lhs_sign.times(&remainder).minus(&remainder_sign.times(&remainder));
        proof {
            crate::scalar::lemma_field_minus(lhs_sign@ as int * remainder@, remainder_sign@ as int * remainder@);
        }
        builder.try_produce_sumcheck_subpolynomial_evaluation(
            SumcheckSubpolynomialType::Identity,
            sign_eval,
            2,
        )?;

        // sign(|r| - |b|) * b = 0
        let rhs_sign = verifier_evaluate_sign(builder, rhs)?;
        let difference = scale_and_add_subtract_eval(
            absolute_eval(remainder_sign, remainder),
            absolute_eval(rhs_sign, rhs),
            0,
            0,
            true,
        );
        let remainder_and_rhs_difference_sign = verifier_evaluate_sign(builder, difference)?;
        builder.try_produce_sumcheck_subpolynomial_evaluation(
            SumcheckSubpolynomialType::Identity,
            remainder_and_rhs_difference_sign.times(&rhs),
            2,
        )?;

        // q * (1 - b * b^-1) = 0
        let rhs_inverse = builder.try_consume_final_round_mle_evaluation()?;
        let one = Scalar::one();
        let zero_check = quotient.times(&one.minus(&rhs.times(&rhs_inverse)));
        proof {
            let p = rhs@ * rhs_inverse@;
            crate::scalar::lemma_field_small(1);
            crate::scalar::lemma_field_minus(1, p as int);
            crate::scalar::lemma_field_times_right(quotient@ as int, 1 - p);
        }
        builder.try_produce_sumcheck_subpolynomial_evaluation(
            SumcheckSubpolynomialType::Identity,
            zero_check,
            3,
        )?;

        Ok((quotient, remainder))
    }

    /// Adds the columns both operands read to `columns`.
    pub fn get_column_references(&self, columns: &mut IndexSet<ColumnRef>)
        ensures
            final(columns)@ == seq_insert_all(
                old(columns)@,
                self.lhs.spec_column_refs() + self.rhs.spec_column_refs(),
            ),
    {
        self.lhs.get_column_references(columns);
        self.rhs.get_column_references(columns);
        proof {
            lemma_seq_insert_all_append(
                old(columns)@,
                self.lhs.spec_column_refs(),
                self.rhs.spec_column_refs(),
            );
        }
    }

    /// Evaluates the division for the prover: commits to the quotient, the
    /// remainder, the signs and the inverses of the divisor, and produces the
    /// constraints; gives the quotient and remainder columns.
    #[verifier::rlimit(50)]
    #[verifier::spinoff_prover]
    pub fn prover_evaluate<'a>(
        &self,
        builder: &mut FinalRoundBuilder<'a>,
        alloc: &'a bumpalo::Bump,
        table: &Table<'a>,
    ) -> (r: (Column<'a>, Column<'a>))
        requires
            self.spec_provable(table@),
        ensures
            ({
                let a = self.lhs.spec_result(table@).unwrap();
                let b = self.rhs.spec_result(table@).unwrap();
                &&& r.0@ == quotient_view(a, b)
                &&& r.1@ == remainder_view(a, b)
                &&& final(builder)@.intermediate_mles == old(builder)@.intermediate_mles
                    + self.lhs.spec_prover_mles(table@) + self.rhs.spec_prover_mles(table@)
                    + divide_and_modulo_mles(a, b)
                &&& final(builder)@.subpolynomials == old(builder)@.subpolynomials
                    + self.lhs.spec_prover_subpolynomials(table@)
                    + self.rhs.spec_prover_subpolynomials(table@)
                    + divide_and_modulo_subpolynomials(a, b)
                &&& identities_hold(old(builder)@) && fermat_inverses() ==> identities_hold(final(builder)@)
            }),
            ({
                let a = self.lhs.spec_result(table@).unwrap();
                let b = self.rhs.spec_result(table@).unwrap();
                let m0: int = old(builder)@.intermediate_mles.len() as int + self.lhs.spec_prover_mles(table@).len()
                    + self.rhs.spec_prover_mles(table@).len();
                let k0: int = old(builder)@.subpolynomials.len() as int + self.lhs.spec_prover_subpolynomials(table@).len()
                    + self.rhs.spec_prover_subpolynomials(table@).len();
                let mles = final(builder)@.intermediate_mles;
                let subs = final(builder)@.subpolynomials;
                let minus_one = (modulus() - 1) as nat;
                let inv = mles[m0 + 10];
                &&& mles.len() == m0 + 11
                &&& subs.len() == k0 + 12
                &&& mles[m0] == r.0@
                &&& mles[m0 + 1] == r.1@
                &&& inv.scalars.len() == b.scalars.len()
                &&& forall|i: int|
                    0 <= i < b.scalars.len() ==> #[trigger] inv.scalars[i] == field(
                        pow(b.scalars[i] as int, (modulus() - 2) as nat),
                    )
                &&& subs[k0] == (
                    SumcheckSubpolynomialType::Identity,
                    seq![(1nat, seq![r.0@, b]), (1nat, seq![r.1@]), (minus_one, seq![a])],
                )
                &&& subs[k0 + 5] == (
                    SumcheckSubpolynomialType::Identity,
                    seq![(1nat, seq![mles[m0 + 2], r.1@]), (minus_one, seq![mles[m0 + 4], r.1@])],
                )
                &&& subs[k0 + 10] == (SumcheckSubpolynomialType::Identity, seq![(1nat, seq![mles[m0 + 8], b])])
                &&& subs[k0 + 11] == (
                    SumcheckSubpolynomialType::Identity,
                    seq![(1nat, seq![r.0@, b, inv]), (minus_one, seq![r.0@])],
                )
                &&& forall|i: int|
                    0 <= i < a.scalars.len() ==> {
                        &&& #[trigger] mles[m0 + 2].scalars[i] == bool_to_nat(a.ints[i] >= 0)
                        &&& mles[m0 + 4].scalars[i] == bool_to_nat(r.1@.ints[i] >= 0)
                        &&& mles[m0 + 8].scalars[i] == bool_to_nat(abs(r.1@.ints[i]) >= abs(b.ints[i]))
                    }
            }),
    {
        let lhs_column = self.lhs.prover_evaluate(builder, alloc, table);
        let rhs_column = self.rhs.prover_evaluate(builder, alloc, table);
        let ghost start = builder@;
        let ghost a = lhs_column@;
        let ghost b = rhs_column@;

        let quotient = divide_columns(&lhs_column, &rhs_column, alloc);
        let remainder = modulo_columns(&lhs_column, &rhs_column, alloc);
        let ghost q = quotient@;
        let ghost m = remainder@;
        builder.produce_intermediate_mle(quotient);
        builder.produce_intermediate_mle(remainder);

        let one = Scalar::one();
        let minus_one = one.neg();
        proof {
            crate::scalar::lemma_field_small(1);
            crate::scalar::lemma_field_add_multiple(-1, 1);
            crate::scalar::lemma_field_small(modulus() - 1);
        }

        // q * b + r - a = 0
        let division = vec![
            (one, vec![quotient, rhs_column]),
            (one, vec![remainder]),
            (minus_one, vec![lhs_column]),
        ];
        proof {
            let tv = terms_view(division@);
            assert(tv[0].1 =~= seq![q, b]);
            assert(tv[1].1 =~= seq![m]);
            assert(tv[2].1 =~= seq![a]);
            assert(tv =~= division_terms(q, b, m, a));
        }
        builder.produce_sumcheck_subpolynomial(SumcheckSubpolynomialType::Identity, division);

        // sign(a) * r - sign(r) * r = 0
        let lhs_sign = prover_evaluate_sign(builder, alloc, columns_to_scalar_slice(&lhs_column, alloc));
        let remainder_sign = prover_evaluate_sign(builder, alloc, columns_to_scalar_slice(&remainder, alloc));
        let lhs_sign_column = Column::Boolean(lhs_sign);
        let remainder_sign_column = Column::Boolean(remainder_sign);
        proof {
            assert(lhs_sign_column@.scalars =~= sign_column_view(a.scalars).scalars);
            assert(lhs_sign_column@.ints =~= sign_column_view(a.scalars).ints);
            assert(remainder_sign_column@.scalars =~= sign_column_view(m.scalars).scalars);
            assert(remainder_sign_column@.ints =~= sign_column_view(m.scalars).ints);
        }
        let remainder_sign_check = vec![
            (one, vec![lhs_sign_column, remainder]),
            (minus_one, vec![remainder_sign_column, remainder]),
        ];
        proof {
            let tv = terms_view(remainder_sign_check@);
            assert(tv[0].1 =~= seq![sign_column_view(a.scalars), m]);
            assert(tv[1].1 =~= seq![sign_column_view(m.scalars), m]);
            assert(tv =~= remainder_sign_terms(sign_column_view(a.scalars), m, sign_column_view(m.scalars)));
        }
        builder.produce_sumcheck_subpolynomial(SumcheckSubpolynomialType::Identity, remainder_sign_check);

        // sign(|r| - |b|) * b = 0
        let rhs_sign = prover_evaluate_sign(builder, alloc, columns_to_scalar_slice(&rhs_column, alloc));
        proof {
            assert(m.scalars.len() == a.scalars.len());
            assert(b.scalars.len() == a.scalars.len());
            assert(remainder_sign@.len() == m.scalars.len());
            assert(rhs_sign@.len() == b.scalars.len());
        }
        let absolute_value_remainder = absolute_value_of_columns(remainder_sign, &remainder, alloc);
        let absolute_value_rhs = absolute_value_of_columns(rhs_sign, &rhs_column, alloc);
        proof {
            absolute_value_remainder.lemma_scalar_values_len();
            absolute_value_rhs.lemma_scalar_values_len();
            assert(absolute_value_remainder@.scalars.len() == remainder_sign@.len());
            assert(absolute_value_rhs@.scalars.len() == rhs_sign@.len());
            assert(absolute_value_remainder.spec_len() == absolute_value_rhs.spec_len());
        }
        let difference = add_subtract_columns(
            absolute_value_remainder,
            absolute_value_rhs,
            0,
            0,
            alloc,
            true,
        );
        let ghost d = difference_values(m.scalars, b.scalars);
        proof {
            assert forall|i: int| 0 <= i < d.len() implies (#[trigger] difference@[i])@ == d[i] by {
                assert(absolute_value_remainder@.scalars[i] == spec_absolute(bool_to_nat(sign_bit(m.scalars[i])), m.scalars[i]));
                assert(absolute_value_rhs@.scalars[i] == spec_absolute(bool_to_nat(sign_bit(b.scalars[i])), b.scalars[i]));
            }
            assert(difference@.map_values(|v: Scalar| v@) =~= d);
        }
        let remainder_and_rhs_difference_sign = prover_evaluate_sign(builder, alloc, difference);
        let difference_sign_column = Column::Boolean(remainder_and_rhs_difference_sign);
        proof {
            assert(difference_sign_column@.scalars =~= sign_column_view(d).scalars);
            assert(difference_sign_column@.ints =~= sign_column_view(d).ints);
        }
        let bound_check = vec![(one, vec![difference_sign_column, rhs_column])];
        proof {
            let tv = terms_view(bound_check@);
            assert(tv[0].1 =~= seq![sign_column_view(d), b]);
            assert(tv =~= remainder_bound_terms(sign_column_view(d), b));
        }
        builder.produce_sumcheck_subpolynomial(SumcheckSubpolynomialType::Identity, bound_check);

        // q * b * b^-1 - q = 0
        let rhs_inverse = Column::Scalar(inverse_of_columns(rhs_column, alloc));
        let ghost inv = rhs_inverse@;
        proof {
            assert(inv.scalars =~= inverse_values(b.scalars));
            assert(inv.ints =~= scalar_column_view(inverse_values(b.scalars)).ints);
        }
        builder.produce_intermediate_mle(rhs_inverse);
        let zero_check = vec![
            (one, vec![quotient, rhs_column, rhs_inverse]),
            (minus_one, vec![quotient]),
        ];
        proof {
            let tv = terms_view(zero_check@);
            assert(tv[0].1 =~= seq![q, b, inv]);
            assert(tv[1].1 =~= seq![q]);
            assert(tv =~= quotient_zero_terms(q, b, inv));
        }
        builder.produce_sumcheck_subpolynomial(SumcheckSubpolynomialType::Identity, zero_check);
        proof {
            let lhs_mles = self.lhs.spec_prover_mles(table@);
            let rhs_mles = self.rhs.spec_prover_mles(table@);
            assert(builder@.intermediate_mles =~= old(builder)@.intermediate_mles + lhs_mles + rhs_mles
                + divide_and_modulo_mles(a, b));
            assert(builder@.subpolynomials =~= old(builder)@.subpolynomials
                + self.lhs.spec_prover_subpolynomials(table@)
                + self.rhs.spec_prover_subpolynomials(table@)
                + divide_and_modulo_subpolynomials(a, b));
            assert(builder@.subpolynomials =~= start.subpolynomials + divide_and_modulo_subpolynomials(a, b));
            lhs_column.lemma_integer_view_wf();
            rhs_column.lemma_integer_view_wf();
            lhs_column.lemma_integer_values_fit();
            rhs_column.lemma_integer_values_fit();
            lemma_divide_and_modulo_layout(a, b);
            lemma_divide_and_modulo_signs(a, b);
            if identities_hold(old(builder)@) && fermat_inverses() {
                lhs_column.lemma_integer_view_wf();
                rhs_column.lemma_integer_view_wf();
                lhs_column.lemma_integer_values_fit();
                rhs_column.lemma_integer_values_fit();
                lemma_divide_and_modulo_identities(a, b);
                crate::final_round_builder::lemma_identities_extend(
                    start,
                    builder@,
                    divide_and_modulo_subpolynomials(a, b),
                );
            }
        }
        (quotient, remainder)
    }
}

} // verus!
