//! Integer division and remainder that round toward zero, as Rust's `/` and
//! `%` do on integers.
use vstd::prelude::*;
use vstd::arithmetic::div_mod::*;

verus! {

pub open spec fn abs(x: int) -> int {
    if x < 0 {
        -x
    } else {
        x
    }
}

/// The quotient of `x` by `d`, rounded toward zero.
pub open spec fn trunc_div(x: int, d: int) -> int {
    if (x >= 0) == (d > 0) {
        abs(x) / abs(d)
    } else {
        -(abs(x) / abs(d))
    }
}

/// The remainder of `x` by `d` that goes with `trunc_div`: it has the sign of
/// `x`.
pub open spec fn trunc_rem(x: int, d: int) -> int {
    if x >= 0 {
        abs(x) % abs(d)
    } else {
        -(abs(x) % abs(d))
    }
}

/// The quotient and the remainder rebuild the dividend, the remainder is
/// smaller than the divisor in absolute value, and it is zero or has the sign
/// of the dividend.
pub proof fn lemma_trunc_div_rem(x: int, d: int)
    requires
        d != 0,
    ensures
        trunc_div(x, d) * d + trunc_rem(x, d) == x,
        abs(trunc_rem(x, d)) < abs(d),
        trunc_rem(x, d) == 0 || (trunc_rem(x, d) < 0) == (x < 0),
        abs(trunc_div(x, d)) <= abs(x),
        abs(trunc_rem(x, d)) <= abs(x),
{
    let ax = abs(x);
    let ad = abs(d);
    lemma_mod_decreases(ax as nat, ad as nat);
    lemma_fundamental_div_mod(ax, ad);
    lemma_mod_bound(ax, ad);
    lemma_div_pos_is_pos(ax, ad);
    lemma_div_is_ordered_by_denominator(ax, 1, ad);
    lemma_div_basics(ax);
    let q = ax / ad;
    let r = ax % ad;
    assert(ad * q + r == ax);
    if x >= 0 && d > 0 {
        assert(q * d + r == x) by (nonlinear_arith)
            requires ad * q + r == ax, ax == x, ad == d;
    } else if x >= 0 {
        assert((-q) * d + r == x) by (nonlinear_arith)
            requires ad * q + r == ax, ax == x, ad == -d;
    } else if d > 0 {
        assert((-q) * d + (-r) == x) by (nonlinear_arith)
            requires ad * q + r == ax, ax == -x, ad == d;
    } else {
        assert(q * d + (-r) == x) by (nonlinear_arith)
            requires ad * q + r == ax, ax == -x, ad == -d;
    }
}

/// `trunc_div` is what `checked_div` computes on `i128` when it succeeds.
pub proof fn lemma_trunc_div_matches(x: int, d: int)
    requires
        d != 0,
    ensures
        trunc_div(x, d) == (if x == 0 {
            0
        } else if x > 0 && d > 0 {
            x / d
        } else if x < 0 && d < 0 {
            (x * -1) / (d * -1)
        } else if x < 0 {
            ((x * -1) / d) * -1
        } else {
            (x / (d * -1)) * -1
        }),
{
    if x == 0 {
        lemma_div_basics(abs(d));
    }
}

/// `trunc_rem` is what `checked_rem` computes on `i128` when it succeeds.
pub proof fn lemma_trunc_rem_matches(x: int, d: int)
    requires
        d != 0,
    ensures
        trunc_rem(x, d) == (if x == 0 {
            0
        } else if x > 0 && d > 0 {
            x % d
        } else if x < 0 && d < 0 {
            ((x * -1) % (d * -1)) * -1
        } else if x < 0 {
            ((x * -1) % d) * -1
        } else {
            x % (d * -1)
        }),
{
    if x == 0 {
        lemma_small_mod(0, abs(d) as nat);
    }
}

/// The quotient of two `i128` values fits in `i128` unless the dividend is
/// the least value and the divisor is minus one.
pub proof fn lemma_trunc_div_i128_range(x: int, d: int)
    requires
        i128::MIN <= x <= i128::MAX,
        i128::MIN <= d <= i128::MAX,
        d != 0,
        !(x == i128::MIN && d == -1),
    ensures
        i128::MIN <= trunc_div(x, d) <= i128::MAX,
{
    lemma_trunc_div_rem(x, d);
    let q = trunc_div(x, d);
    if q > i128::MAX {
        assert(abs(x) == 0x8000_0000_0000_0000_0000_0000_0000_0000);
        assert(x < 0);
        assert(d < 0);
        if abs(d) >= 2 {
            lemma_div_is_ordered_by_denominator(abs(x), 2, abs(d));
        }
        assert(abs(d) == 1);
        assert(false);
    }
}

} // verus!
