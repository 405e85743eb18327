//! The scalar field: integers modulo the prime order of the Curve25519
//! subgroup, 2^252 + 27742317777372353535851937790883648493.
//!
//! Every integer column value has a field element, and sums and products of
//! integers map to sums and products of their elements. Read as signed
//! values, elements stand for the integers of magnitude up to half the
//! modulus, which holds every value of every integer column type. An element
//! is held in two 128-bit limbs.
use vstd::prelude::*;
use vstd::arithmetic::div_mod::*;
use vstd::arithmetic::power::{
    lemma_pow0, lemma_pow1, lemma_pow_adds, lemma_pow_mod_noop, lemma_pow_multiplies,
    lemma_square_is_pow2, pow,
};

verus! {

/// The low 128 bits of the modulus.
pub const MODULUS_LO: u128 = 0x14de_f9de_a2f7_9cd6_5812_631a_5cf5_d3ed;

/// The modulus divided by `2^128`, rounded down.
pub const MODULUS_HI: u128 = 0x1000_0000_0000_0000_0000_0000_0000_0000;

/// The low 128 bits of half the modulus, rounded down.
const HALF_LO: u128 = 0x0a6f_7cef_517b_ce6b_2c09_318d_2e7a_e9f6;

/// Half the modulus, rounded down, divided by `2^128`.
const HALF_HI: u128 = 0x0800_0000_0000_0000_0000_0000_0000_0000;

/// The weight of the high limb, `2^128`.
pub open spec fn limb_base() -> int {
    0x1_0000_0000_0000_0000_0000_0000_0000_0000int
}

/// The integer held by a low and a high limb.
pub open spec fn limbs(lo: u128, hi: u128) -> int {
    hi * limb_base() + lo
}

/// The field modulus, a prime.
pub open spec fn modulus() -> int {
    0x1000_0000_0000_0000_0000_0000_0000_0000_14de_f9de_a2f7_9cd6_5812_631a_5cf5_d3edint
}

/// The field element that stands for the integer `x`.
pub open spec fn field(x: int) -> nat {
    (x % modulus()) as nat
}

/// `10^n` as an integer.
pub open spec fn pow10(n: nat) -> int
    decreases n,
{
    if n == 0 {
        1
    } else {
        10 * pow10((n - 1) as nat)
    }
}

/// The integer that a field element stands for when it is read as a signed
/// value: elements above half the modulus are negative.
pub open spec fn signed_value(v: nat) -> int {
    if v > (modulus() - 1) / 2 {
        v - modulus()
    } else {
        v as int
    }
}

/// An element of the scalar field.
#[derive(Clone, Copy, Debug, PartialEq, Eq)]
pub struct Scalar {
    lo: u128,
    hi: u128,
}

impl View for Scalar {
    type V = nat;

    open spec fn view(&self) -> nat {
        self.spec_value()
    }
}

/// The limb constants hold the modulus and half of it.
proof fn lemma_limb_constants()
    ensures
        limbs(MODULUS_LO, MODULUS_HI) == modulus(),
        limbs(HALF_LO, HALF_HI) == (modulus() - 1) / 2,
        limbs((MODULUS_LO - 2) as u128, MODULUS_HI) == modulus() - 2,
{
}

/// The sum of two integers held in limbs.
fn add_limbs(a_lo: u128, a_hi: u128, b_lo: u128, b_hi: u128) -> (r: (u128, u128))
    requires
        a_hi + b_hi + 1 <= u128::MAX,
    ensures
        limbs(r.0, r.1) == limbs(a_lo, a_hi) + limbs(b_lo, b_hi),
{
    if a_lo <= u128::MAX - b_lo {
        (a_lo + b_lo, a_hi + b_hi)
    } else {
        ((a_lo - (u128::MAX - b_lo)) - 1, a_hi + b_hi + 1)
    }
}

/// The difference of two integers held in limbs, the first not below the
/// second.
fn sub_limbs(a_lo: u128, a_hi: u128, b_lo: u128, b_hi: u128) -> (r: (u128, u128))
    requires
        limbs(a_lo, a_hi) >= limbs(b_lo, b_hi),
    ensures
        limbs(r.0, r.1) == limbs(a_lo, a_hi) - limbs(b_lo, b_hi),
{
    if a_lo >= b_lo {
        (a_lo - b_lo, a_hi - b_hi)
    } else {
        ((u128::MAX - b_lo) + a_lo + 1, a_hi - b_hi - 1)
    }
}

/// Whether the first integer held in limbs is at least the second.
fn ge_limbs(a_lo: u128, a_hi: u128, b_lo: u128, b_hi: u128) -> (r: bool)
    ensures
        r == (limbs(a_lo, a_hi) >= limbs(b_lo, b_hi)),
{
    a_hi > b_hi || (a_hi == b_hi && a_lo >= b_lo)
}

/// A field element is below the modulus.
pub broadcast proof fn lemma_field_bound(x: int)
    ensures
        #[trigger] field(x) < modulus(),
{
    lemma_mod_bound(x, modulus());
}

/// Reducing before a multiplication does not change the product's field
/// element.
pub proof fn lemma_field_times(x: int, y: int)
    ensures
        field(field(x) * y) == field(x * y),
{
    lemma_mul_mod_noop_left(x, y, modulus());
}

/// Reducing the right factor before a multiplication does not change the
/// product's field element.
pub proof fn lemma_field_times_right(x: int, y: int)
    ensures
        field(x * field(y)) == field(x * y),
{
    lemma_mul_mod_noop_right(x, y, modulus());
}

/// Reducing the operands of a sum does not change its field element.
pub proof fn lemma_field_plus(x: int, y: int)
    ensures
        field(field(x) as int + field(y)) == field(x + y),
{
    lemma_add_mod_noop(x, y, modulus());
}

/// Reducing the operands of a difference does not change its field element.
pub proof fn lemma_field_minus(x: int, y: int)
    ensures
        field(field(x) - field(y)) == field(x - y),
{
    lemma_sub_mod_noop(x, y, modulus());
}

/// Reducing both factors of a product does not change its field element.
pub proof fn lemma_field_times_both(x: int, y: int)
    ensures
        field(field(x) as int * field(y)) == field(x * y),
{
    lemma_mul_mod_noop_general(x, y, modulus());
}

/// A multiple of the modulus stands for zero.
pub proof fn lemma_field_multiple(k: int)
    ensures
        field(k * modulus()) == 0,
{
    lemma_mod_multiples_basic(k, modulus());
}

/// Adding a multiple of the modulus does not change the field element.
pub proof fn lemma_field_add_multiple(x: int, k: int)
    ensures
        field(x + k * modulus()) == field(x),
{
    assert(x + k * modulus() == modulus() * k + x);
    lemma_mod_multiples_vanish(k, x, modulus());
}

/// One step of exponentiation by squaring: with `e = 2k + bit`, the
/// accumulator times `base^e` is the new accumulator times the squared base to
/// the `k`.
proof fn lemma_square_step(acc: int, base: int, e: nat)
    ensures
        field(field(acc * pow(base, e % 2)) as int * pow(field(base * base) as int, e / 2)) == field(
            acc * pow(base, e),
        ),
{
    let k = e / 2;
    let bit = e % 2;
    let m = modulus();
    assert(e == bit + 2 * k);
    lemma_pow_adds(base, bit, 2 * k);
    lemma_pow_multiplies(base, 2, k);
    assert(2 * k == k * 2) by (nonlinear_arith);
    lemma_square_is_pow2(base);
    lemma_pow_mod_noop(base * base, k, m);
    let p = pow(base * base, k);
    assert(pow(base, 2 * k) == p);
    let lhs_acc = acc * pow(base, bit);
    let p1 = pow(field(base * base) as int, k);
    assert(field(base * base) as int == (base * base) % m);
    assert(p1 % m == p % m);
    assert(field(p1) == field(p));
    lemma_field_times(lhs_acc, p1);
    lemma_field_times_right(lhs_acc, p1);
    lemma_field_times_right(lhs_acc, p);
    assert(field(field(lhs_acc) as int * p1) == field(lhs_acc * p));
    assert(lhs_acc * p == acc * pow(base, e)) by (nonlinear_arith)
        requires
            lhs_acc == acc * pow(base, bit),
            pow(base, e) == pow(base, bit) * p,
    ;
}

/// A field element stands for itself.
pub proof fn lemma_field_small(x: int)
    requires
        0 <= x < modulus(),
    ensures
        field(x) == x,
{
    lemma_small_mod(x as nat, modulus() as nat);
}

/// An integer smaller than the modulus in magnitude stands for zero only
/// when it is zero.
pub proof fn lemma_field_zero_small(x: int)
    requires
        -modulus() < x < modulus(),
        field(x) == 0,
    ensures
        x == 0,
{
    let p = modulus();
    lemma_fundamental_div_mod(x, p);
    let k = x / p;
    assert(x == p * k);
    if k >= 1 {
        assert(p * k >= p) by (nonlinear_arith) requires k >= 1, p > 0;
    } else if k <= -1 {
        assert(p * k <= -p) by (nonlinear_arith) requires k <= -1, p > 0;
    }
}

/// The product of two residues differs from the product of the numbers by a
/// multiple of the modulus.
proof fn lemma_product_of_residues(m: int, q: int, b: int, kq: int, kb: int, fq: int, fb: int)
    by (nonlinear_arith)
    requires
        q == m * kq + fq,
        b == m * kb + fb,
    ensures
        fq * fb == q * b - (q * kb + kq * b - m * kq * kb) * m,
{
}

/// `q * b - a + r` has the same field element whether it is computed from
/// the integers or from their field elements.
pub proof fn lemma_field_division_identity(q: int, b: int, a: int, r: int)
    ensures
        field(field(q) as int * field(b) - field(a) + field(r)) == field(q * b - a + r),
{
    let p = modulus();
    lemma_fundamental_div_mod(q, p);
    lemma_fundamental_div_mod(b, p);
    lemma_fundamental_div_mod(a, p);
    lemma_fundamental_div_mod(r, p);
    let kq = q / p;
    let kb = b / p;
    let ka = a / p;
    let kr = r / p;
    let fq = q % p;
    let fb = b % p;
    let fa = a % p;
    let fr = r % p;
    assert(fq == field(q) && fb == field(b) && fa == field(a) && fr == field(r)) by {
        lemma_mod_bound(q, p);
        lemma_mod_bound(b, p);
        lemma_mod_bound(a, p);
        lemma_mod_bound(r, p);
    }
    let kp = q * kb + kq * b - p * kq * kb;
    lemma_product_of_residues(p, q, b, kq, kb, fq, fb);
    let k = ka - kr - kp;
    assert(fq * fb - fa + fr == (q * b - a + r) + k * p) by (nonlinear_arith)
        requires
            fq * fb == q * b - kp * p,
            a == p * ka + fa,
            r == p * kr + fr,
            k == ka - kr - kp,
    ;
    lemma_field_add_multiple(q * b - a + r, k);
}

/// Every element is below the modulus.
pub broadcast proof fn lemma_scalar_bound(s: Scalar)
    ensures
        #[trigger] s@ < modulus(),
{
    lemma_field_bound(limbs(s.lo, s.hi));
}

/// Replacing the two parts of `x + y * k` by numbers with the same field
/// elements does not change the field element of the whole.
proof fn lemma_field_affine(x: int, y: int, x1: int, y1: int, k: int)
    requires
        field(x1) == field(x),
        field(y1) == field(y),
    ensures
        field(x1 + y1 * k) == field(x + y * k),
{
    let m = modulus();
    lemma_mul_mod_noop_left(y1, k, m);
    lemma_mul_mod_noop_left(y, k, m);
    lemma_add_mod_noop(x1, y1 * k, m);
    lemma_add_mod_noop(x, y * k, m);
}

/// One step of multiplication by doubling: with `e = 2 e2 + bit`, adding the
/// addend for the low bit and doubling it keeps `acc + addend * e`.
proof fn lemma_times_step(acc: int, add: int, acc2: int, add2: int, bit: int, e2: int)
    requires
        bit == 0 || bit == 1,
        bit == 0 ==> acc2 == acc,
        bit == 1 ==> acc2 == field(acc + add),
        add2 == field(add + add),
    ensures
        field(acc2 + add2 * e2) == field(acc + add * (2 * e2 + bit)),
{
    let m = modulus();
    if bit == 1 {
        lemma_mod_twice(acc + add, m);
        assert(field(acc2) == field(acc + bit * add));
    } else {
        assert(acc + bit * add == acc);
    }
    lemma_mod_twice(add + add, m);
    assert(field(add2) == field(2 * add));
    lemma_field_affine(acc + bit * add, 2 * add, acc2, add2, e2);
    assert(acc + bit * add + (2 * add) * e2 == acc + add * (2 * e2 + bit)) by (nonlinear_arith);
}

/// Halving an integer held in limbs: the new limbs hold half of it, and the
/// dropped bit is the low limb's lowest bit.
proof fn lemma_halve_limbs(lo: u128, hi: u128, lo2: u128, hi2: u128)
    requires
        hi2 == hi / 2,
        lo2 == lo / 2 + (hi % 2) * 0x8000_0000_0000_0000_0000_0000_0000_0000,
    ensures
        limbs(lo, hi) == 2 * limbs(lo2, hi2) + lo % 2,
        limbs(lo2, hi2) == limbs(lo, hi) / 2,
        lo % 2 == limbs(lo, hi) % 2,
{
    lemma_fundamental_div_mod(lo as int, 2);
    lemma_fundamental_div_mod(hi as int, 2);
    assert(limbs(lo, hi) == 2 * limbs(lo2, hi2) + lo % 2);
    lemma_fundamental_div_mod_converse(limbs(lo, hi), 2, limbs(lo2, hi2), (lo % 2) as int);
}

impl Scalar {
    pub closed spec fn spec_value(&self) -> nat {
        field(limbs(self.lo, self.hi))
    }

    /// The view of the element it holds, which is reduced.
    proof fn lemma_view_is_value(&self)
        requires
            limbs(self.lo, self.hi) < modulus(),
        ensures
            self@ == limbs(self.lo, self.hi),
    {
        lemma_small_mod(limbs(self.lo, self.hi) as nat, modulus() as nat);
    }

    #[verifier::type_invariant]
    spec fn reduced(self) -> bool {
        limbs(self.lo, self.hi) < modulus()
    }

    /// The element held by limbs below the modulus.
    fn from_parts(lo: u128, hi: u128) -> (r: Scalar)
        requires
            limbs(lo, hi) < modulus(),
        ensures
            r@ == limbs(lo, hi),
    {
        let r = Scalar { lo, hi };
        proof {
            r.lemma_view_is_value();
        }
        r
    }

    /// The element of an integer held in limbs below twice the modulus.
    fn reduce_once(lo: u128, hi: u128) -> (r: Scalar)
        requires
            limbs(lo, hi) < 2 * modulus(),
        ensures
            r@ == field(limbs(lo, hi)),
    {
        proof {
            lemma_limb_constants();
        }
        if ge_limbs(lo, hi, MODULUS_LO, MODULUS_HI) {
            let (l, h) = sub_limbs(lo, hi, MODULUS_LO, MODULUS_HI);
            proof {
                lemma_fundamental_div_mod_converse(limbs(lo, hi), modulus(), 1, limbs(l, h));
            }
            Scalar::from_parts(l, h)
        } else {
            proof {
                lemma_field_small(limbs(lo, hi));
            }
            Scalar::from_parts(lo, hi)
        }
    }

    /// The canonical representative, below the modulus, as a low and a high
    /// limb.
    pub fn to_limbs(&self) -> (r: (u128, u128))
        ensures
            limbs(r.0, r.1) == self@,
    {
        proof {
            use_type_invariant(self);
            self.lemma_view_is_value();
        }
        (self.lo, self.hi)
    }

    /// The additive identity.
    pub fn zero() -> (r: Scalar)
        ensures
            r@ == 0,
    {
        Scalar::from_parts(0, 0)
    }

    /// The multiplicative identity.
    pub fn one() -> (r: Scalar)
        ensures
            r@ == 1,
    {
        Scalar::from_parts(1, 0)
    }

    /// The element that stands for an unsigned integer.
    pub fn from_u128(x: u128) -> (r: Scalar)
        ensures
            r@ == field(x as int),
    {
        proof {
            lemma_field_small(x as int);
        }
        Scalar::from_parts(x, 0)
    }

    /// The element that stands for an integer.
    pub fn from_i128(x: i128) -> (r: Scalar)
        ensures
            r@ == field(x as int),
    {
        if x >= 0 {
            Scalar::from_u128(x as u128)
        } else {
            let magnitude: u128 = ((-(x + 1)) as u128) + 1;
            proof {
                lemma_limb_constants();
            }
            let (lo, hi) = sub_limbs(MODULUS_LO, MODULUS_HI, magnitude, 0);
            proof {
                lemma_fundamental_div_mod_converse(x as int, modulus(), -1, limbs(lo, hi));
            }
            Scalar::from_parts(lo, hi)
        }
    }

    /// The element that stands for the integer held in a low and a high
    /// limb.
    pub fn from_limbs(lo: u128, hi: u128) -> (r: Scalar)
        ensures
            r@ == field(limbs(lo, hi)),
    {
        let base = Scalar::from_parts(0, 1);
        let high = Scalar::from_u128(hi).times(&base);
        let r = high.plus(&Scalar::from_u128(lo));
        proof {
            lemma_field_small(hi as int);
            lemma_field_small(lo as int);
            lemma_field_plus(hi * limb_base(), lo as int);
        }
        r
    }

    /// The element that stands for a boolean: one for true, zero for false.
    pub fn from_bool(b: bool) -> (r: Scalar)
        ensures
            r@ == (if b { 1nat } else { 0nat }),
    {
        if b {
            Scalar::one()
        } else {
            Scalar::zero()
        }
    }

    /// Field addition.
    pub fn plus(&self, other: &Scalar) -> (r: Scalar)
        ensures
            r@ == field(self@ + other@ as int),
    {
        proof {
            use_type_invariant(self);
            use_type_invariant(other);
            self.lemma_view_is_value();
            other.lemma_view_is_value();
        }
        let (lo, hi) = add_limbs(self.lo, self.hi, other.lo, other.hi);
        Scalar::reduce_once(lo, hi)
    }

    /// Field negation.
    pub fn neg(&self) -> (r: Scalar)
        ensures
            r@ == field(-(self@ as int)),
    {
        proof {
            use_type_invariant(self);
            self.lemma_view_is_value();
            lemma_limb_constants();
        }
        if self.lo == 0 && self.hi == 0 {
            proof {
                lemma_small_mod(0, modulus() as nat);
            }
            Scalar::zero()
        } else {
            let (lo, hi) = sub_limbs(MODULUS_LO, MODULUS_HI, self.lo, self.hi);
            proof {
                lemma_fundamental_div_mod_converse(-(self@ as int), modulus(), -1, limbs(lo, hi));
            }
            Scalar::from_parts(lo, hi)
        }
    }

    /// Field subtraction.
    pub fn minus(&self, other: &Scalar) -> (r: Scalar)
        ensures
            r@ == field(self@ - other@),
    {
        proof {
            lemma_scalar_bound(*self);
        }
        let n = other.neg();
        let r = self.plus(&n);
        proof {
            lemma_field_small(self@ as int);
            lemma_field_plus(self@ as int, -(other@ as int));
        }
        r
    }

    /// Field multiplication, by doubling and adding.
    pub fn times(&self, other: &Scalar) -> (r: Scalar)
        ensures
            r@ == field(self@ as int * other@ as int),
    {
        proof {
            use_type_invariant(other);
            other.lemma_view_is_value();
        }
        let mut acc = Scalar::zero();
        let mut addend = *self;
        let mut e_lo = other.lo;
        let mut e_hi = other.hi;
        while e_lo != 0 || e_hi != 0
            invariant
                field(acc@ + addend@ * limbs(e_lo, e_hi)) == field(self@ as int * other@ as int),
            decreases limbs(e_lo, e_hi),
        {
            let ghost acc0 = acc@ as int;
            let ghost add0 = addend@ as int;
            let ghost lo0 = e_lo;
            let ghost hi0 = e_hi;
            let bit: u128 = e_lo % 2;
            if bit == 1 {
                acc = acc.plus(&addend);
            }
            addend = addend.plus(&addend);
            let carry: u128 = e_hi % 2;
            e_hi = e_hi / 2;
            e_lo = e_lo / 2 + carry * 0x8000_0000_0000_0000_0000_0000_0000_0000;
            proof {
                lemma_halve_limbs(lo0, hi0, e_lo, e_hi);
                lemma_times_step(acc0, add0, acc@ as int, addend@ as int, bit as int, limbs(e_lo, e_hi));
            }
        }
        proof {
            assert(limbs(e_lo, e_hi) == 0);
            assert(addend@ * limbs(e_lo, e_hi) == 0) by (nonlinear_arith)
                requires
                    limbs(e_lo, e_hi) == 0,
            ;
            lemma_scalar_bound(acc);
            lemma_field_small(acc@ as int);
        }
        acc
    }

    /// `10^n` in the field.
    pub fn pow10(n: u8) -> (r: Scalar)
        ensures
            r@ == field(pow10(n as nat)),
    {
        let ten = Scalar::from_i128(10);
        let mut acc = Scalar::one();
        let mut i: u8 = 0;
        proof {
            lemma_small_mod(1, modulus() as nat);
            lemma_small_mod(10, modulus() as nat);
        }
        while i < n
            invariant
                i <= n,
                ten@ == 10,
                acc@ == field(pow10(i as nat)),
            decreases n - i,
        {
            let next = acc.times(&ten);
            proof {
                lemma_mul_mod_noop_left(pow10(i as nat), 10, modulus());
                assert(pow10((i + 1) as nat) == 10 * pow10(i as nat));
                assert(pow10(i as nat) * 10 == 10 * pow10(i as nat)) by (nonlinear_arith);
            }
            acc = next;
            i = i + 1;
        }
        acc
    }

    /// The element raised to the power held in a low and a high limb, by
    /// squaring.
    fn pow_limbs(&self, lo: u128, hi: u128) -> (r: Scalar)
        ensures
            r@ == field(pow(self@ as int, limbs(lo, hi) as nat)),
    {
        let mut acc = Scalar::one();
        let mut base = *self;
        let mut e_lo = lo;
        let mut e_hi = hi;
        proof {
            lemma_field_small(1);
            lemma_scalar_bound(*self);
            lemma_field_small(self@ as int);
            assert(1 * pow(self@ as int, limbs(lo, hi) as nat) == pow(self@ as int, limbs(lo, hi) as nat));
        }
        while e_lo != 0 || e_hi != 0
            invariant
                field(acc@ as int * pow(base@ as int, limbs(e_lo, e_hi) as nat)) == field(
                    pow(self@ as int, limbs(lo, hi) as nat),
                ),
            decreases limbs(e_lo, e_hi),
        {
            let ghost e = limbs(e_lo, e_hi) as nat;
            proof {
                lemma_square_step(acc@ as int, base@ as int, e);
                lemma_pow0(base@ as int);
                lemma_pow1(base@ as int);
                assert(acc@ as int * 1 == acc@ as int);
                lemma_scalar_bound(acc);
                lemma_field_small(acc@ as int);
            }
            let ghost lo0 = e_lo;
            let ghost hi0 = e_hi;
            let bit: u128 = e_lo % 2;
            if bit == 1 {
                acc = acc.times(&base);
            }
            base = base.times(&base);
            let carry: u128 = e_hi % 2;
            e_hi = e_hi / 2;
            e_lo = e_lo / 2 + carry * 0x8000_0000_0000_0000_0000_0000_0000_0000;
            proof {
                lemma_halve_limbs(lo0, hi0, e_lo, e_hi);
            }
        }
        proof {
            lemma_pow0(base@ as int);
            assert(acc@ as int * 1 == acc@ as int);
            lemma_scalar_bound(acc);
            lemma_field_small(acc@ as int);
        }
        acc
    }

    /// The element raised to the power `exp`.
    pub fn pow(&self, exp: u64) -> (r: Scalar)
        ensures
            r@ == field(pow(self@ as int, exp as nat)),
    {
        self.pow_limbs(exp as u128, 0)
    }

    /// `x^(p - 2)`: the multiplicative inverse of a non-zero element by
    /// Fermat's little theorem, and zero for zero.
    pub fn inverse(&self) -> (r: Scalar)
        ensures
            r@ == field(pow(self@ as int, (modulus() - 2) as nat)),
    {
        proof {
            lemma_limb_constants();
        }
        self.pow_limbs(MODULUS_LO - 2, MODULUS_HI)
    }

    /// Whether the element, read as a signed value, is negative.
    pub fn is_negative(&self) -> (r: bool)
        ensures
            r == (signed_value(self@) < 0),
    {
        proof {
            use_type_invariant(self);
            self.lemma_view_is_value();
            lemma_limb_constants();
        }
        !ge_limbs(HALF_LO, HALF_HI, self.lo, self.hi)
    }

    /// Field equality.
    pub fn equals(&self, other: &Scalar) -> (r: bool)
        ensures
            r == (self@ == other@),
    {
        proof {
            use_type_invariant(self);
            use_type_invariant(other);
            self.lemma_view_is_value();
            other.lemma_view_is_value();
        }
        self.lo == other.lo && self.hi == other.hi
    }
}

} // verus!
