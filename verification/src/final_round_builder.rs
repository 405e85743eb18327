//! The prover's side of the proof: the builder that collects the
//! intermediate columns the prover commits to and the subpolynomials that
//! constrain them.
use vstd::prelude::*;
use crate::column::{Column, ColumnView};
use crate::scalar::{field, Scalar};
use crate::verification_builder::SumcheckSubpolynomialType;

verus! {

broadcast use crate::scalar::lemma_scalar_bound;

/// A term of a subpolynomial: a coefficient times the product of columns.
pub type TermView = (nat, Seq<ColumnView>);

/// A subpolynomial: its type and its terms.
pub type SubpolynomialView = (SumcheckSubpolynomialType, Seq<TermView>);

/// What the prover has produced: the intermediate columns and the
/// subpolynomials, in order.
pub struct ProverState {
    pub intermediate_mles: Seq<ColumnView>,
    pub subpolynomials: Seq<SubpolynomialView>,
}

/// The product of the columns' values in row `i`.
pub open spec fn product_at(columns: Seq<ColumnView>, i: int) -> nat
    decreases columns.len(),
{
    if columns.len() == 0 {
        field(1)
    } else {
        field(columns[0].scalars[i] as int * product_at(columns.drop_first(), i))
    }
}

/// The value of a sum of terms in row `i`.
pub open spec fn terms_at(terms: Seq<TermView>, i: int) -> nat
    decreases terms.len(),
{
    if terms.len() == 0 {
        0
    } else {
        field(field(terms[0].0 as int * product_at(terms[0].1, i)) as int + terms_at(terms.drop_first(), i))
    }
}

/// The number of rows of a subpolynomial: that of the first column of its
/// first term.
pub open spec fn subpolynomial_rows(sub: SubpolynomialView) -> nat {
    sub.1[0].1[0].scalars.len()
}

/// An identity subpolynomial vanishes on every row.
pub open spec fn identity_holds(sub: SubpolynomialView) -> bool {
    sub.0 == SumcheckSubpolynomialType::Identity ==> forall|i: int|
        0 <= i < subpolynomial_rows(sub) ==> #[trigger] terms_at(sub.1, i) == 0
}

/// Every identity subpolynomial produced so far vanishes on every row.
pub open spec fn identities_hold(s: ProverState) -> bool {
    forall|k: int| 0 <= k < s.subpolynomials.len() ==> identity_holds(#[trigger] s.subpolynomials[k])
}

pub open spec fn terms_view<'a>(terms: Seq<(Scalar, Vec<Column<'a>>)>) -> Seq<TermView> {
    terms.map_values(|t: (Scalar, Vec<Column<'a>>)| (t.0@, t.1@.map_values(|c: Column<'a>| c@)))
}

/// Collects the columns the prover commits to and the subpolynomials that
/// constrain them.
pub struct FinalRoundBuilder<'a> {
    intermediate_mles: Vec<Column<'a>>,
    subpolynomials: Vec<(SumcheckSubpolynomialType, Vec<(Scalar, Vec<Column<'a>>)>)>,
}

impl<'a> View for FinalRoundBuilder<'a> {
    type V = ProverState;

    closed spec fn view(&self) -> ProverState {
        ProverState {
            intermediate_mles: self.intermediate_mles@.map_values(|c: Column<'a>| c@),
            subpolynomials: self.subpolynomials@.map_values(
                |s: (SumcheckSubpolynomialType, Vec<(Scalar, Vec<Column<'a>>)>)| (s.0, terms_view(s.1@)),
            ),
        }
    }
}

impl<'a> FinalRoundBuilder<'a> {
    /// A builder with nothing produced yet.
    pub fn new() -> (r: FinalRoundBuilder<'a>)
        ensures
            r@.intermediate_mles == Seq::<ColumnView>::empty(),
            r@.subpolynomials == Seq::<SubpolynomialView>::empty(),
    {
        let r = FinalRoundBuilder { intermediate_mles: Vec::new(), subpolynomials: Vec::new() };
        assert(r@.intermediate_mles =~= Seq::<ColumnView>::empty());
        assert(r@.subpolynomials =~= Seq::<SubpolynomialView>::empty());
        r
    }

    /// Commits to an intermediate column.
    pub fn produce_intermediate_mle(&mut self, mle: Column<'a>)
        ensures
            final(self)@.intermediate_mles == old(self)@.intermediate_mles.push(mle@),
            final(self)@.subpolynomials == old(self)@.subpolynomials,
    {
        self.intermediate_mles.push(mle);
        proof {
            assert(final(self)@.intermediate_mles =~= old(self)@.intermediate_mles.push(mle@));
            assert(final(self)@.subpolynomials =~= old(self)@.subpolynomials);
        }
    }

    /// Adds a subpolynomial of the given type made of the given terms.
    pub fn produce_sumcheck_subpolynomial(
        &mut self,
        subpolynomial_type: SumcheckSubpolynomialType,
        terms: Vec<(Scalar, Vec<Column<'a>>)>,
    )
        ensures
            final(self)@.intermediate_mles == old(self)@.intermediate_mles,
            final(self)@.subpolynomials == old(self)@.subpolynomials.push(
                (subpolynomial_type, terms_view(terms@)),
            ),
    {
        let ghost t = terms_view(terms@);
        self.subpolynomials.push((subpolynomial_type, terms));
        proof {
            assert(final(self)@.intermediate_mles =~= old(self)@.intermediate_mles);
            assert(final(self)@.subpolynomials =~= old(self)@.subpolynomials.push(
                (subpolynomial_type, t),
            ));
        }
    }

    /// The number of intermediate columns committed to.
    pub fn num_intermediate_mles(&self) -> (r: usize)
        ensures
            r == self@.intermediate_mles.len(),
    {
        self.intermediate_mles.len()
    }

    /// The `i`-th intermediate column.
    pub fn intermediate_mle(&self, i: usize) -> (r: Column<'a>)
        requires
            i < self@.intermediate_mles.len(),
        ensures
            r@ == self@.intermediate_mles[i as int],
    {
        self.intermediate_mles[i]
    }

    /// The number of subpolynomials produced.
    pub fn num_subpolynomials(&self) -> (r: usize)
        ensures
            r == self@.subpolynomials.len(),
    {
        self.subpolynomials.len()
    }
}

/// The product of one column in row `i` is its value.
pub proof fn lemma_product_one(a: ColumnView, i: int)
    requires
        a.scalars[i] < crate::scalar::modulus(),
    ensures
        product_at(seq![a], i) == a.scalars[i],
{
    crate::scalar::lemma_field_small(1);
    crate::scalar::lemma_field_small(a.scalars[i] as int);
    assert(seq![a].drop_first() =~= Seq::<ColumnView>::empty());
    assert(product_at(Seq::<ColumnView>::empty(), i) == 1);
    assert(a.scalars[i] as int * 1 == a.scalars[i] as int);
}

/// The product of two columns in row `i`.
pub proof fn lemma_product_two(a: ColumnView, b: ColumnView, i: int)
    requires
        b.scalars[i] < crate::scalar::modulus(),
    ensures
        product_at(seq![a, b], i) == field(a.scalars[i] as int * b.scalars[i]),
{
    lemma_product_one(b, i);
    assert(seq![a, b].drop_first() =~= seq![b]);
}

/// The product of three columns in row `i`.
pub proof fn lemma_product_three(a: ColumnView, b: ColumnView, c: ColumnView, i: int)
    requires
        c.scalars[i] < crate::scalar::modulus(),
    ensures
        product_at(seq![a, b, c], i) == field(a.scalars[i] as int * (b.scalars[i] as int * c.scalars[i])),
{
    lemma_product_two(b, c, i);
    assert(seq![a, b, c].drop_first() =~= seq![b, c]);
    crate::scalar::lemma_field_times_right(a.scalars[i] as int, b.scalars[i] as int * c.scalars[i]);
}

/// The value of one term in row `i`.
pub proof fn lemma_terms_one(t0: TermView, i: int)
    ensures
        terms_at(seq![t0], i) == field(t0.0 as int * product_at(t0.1, i)),
{
    let x = field(t0.0 as int * product_at(t0.1, i));
    assert(seq![t0].drop_first() =~= Seq::<TermView>::empty());
    assert(terms_at(Seq::<TermView>::empty(), i) == 0);
    assert(terms_at(seq![t0], i) == field(x as int + 0));
    crate::scalar::lemma_field_bound(t0.0 as int * product_at(t0.1, i));
    crate::scalar::lemma_field_small(x as int);
}

/// The value of two terms in row `i`.
pub proof fn lemma_terms_two(t0: TermView, t1: TermView, i: int)
    ensures
        terms_at(seq![t0, t1], i) == field(
            t0.0 as int * product_at(t0.1, i) + t1.0 as int * product_at(t1.1, i),
        ),
{
    lemma_terms_one(t1, i);
    assert(seq![t0, t1].drop_first() =~= seq![t1]);
    crate::scalar::lemma_field_plus(t0.0 as int * product_at(t0.1, i), t1.0 as int * product_at(t1.1, i));
    crate::scalar::lemma_field_small(terms_at(seq![t1], i) as int);
    crate::scalar::lemma_field_bound(t1.0 as int * product_at(t1.1, i));
}

/// The value of three terms in row `i`.
pub proof fn lemma_terms_three(t0: TermView, t1: TermView, t2: TermView, i: int)
    ensures
        terms_at(seq![t0, t1, t2], i) == field(
            t0.0 as int * product_at(t0.1, i) + t1.0 as int * product_at(t1.1, i) + t2.0 as int
                * product_at(t2.1, i),
        ),
{
    lemma_terms_two(t1, t2, i);
    assert(seq![t0, t1, t2].drop_first() =~= seq![t1, t2]);
    let x = t0.0 as int * product_at(t0.1, i);
    let y = t1.0 as int * product_at(t1.1, i) + t2.0 as int * product_at(t2.1, i);
    crate::scalar::lemma_field_plus(x, y);
    crate::scalar::lemma_field_bound(y);
    crate::scalar::lemma_field_small(field(y) as int);
}

/// Producing subpolynomials that all hold keeps every identity holding.
pub proof fn lemma_identities_extend(before: ProverState, after: ProverState, extra: Seq<SubpolynomialView>)
    requires
        identities_hold(before),
        forall|k: int| 0 <= k < extra.len() ==> identity_holds(#[trigger] extra[k]),
        after.subpolynomials == before.subpolynomials + extra,
    ensures
        identities_hold(after),
{
    assert forall|k: int| 0 <= k < after.subpolynomials.len() implies identity_holds(
        #[trigger] after.subpolynomials[k],
    ) by {
        if k < before.subpolynomials.len() {
            assert(after.subpolynomials[k] == before.subpolynomials[k]);
        } else {
            assert(after.subpolynomials[k] == extra[k - before.subpolynomials.len()]);
        }
    }
}

} // verus!
