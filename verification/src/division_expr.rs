//! The provable integer division expression.
use vstd::prelude::*;
use crate::column::{Column, ColumnType, ColumnView};
use crate::column_type_operation::{spec_try_divide_column_types, try_divide_column_types};
use crate::dyn_proof_expr::{ColumnRefView, DynProofExpr};
use crate::map::{lemma_seq_insert_all_append, seq_insert_all, ColumnRef, IndexMap, IndexSet};
use crate::numerical_util::{
    can_divide, can_modulo, divide_columns, modulo_columns, quotient_view, remainder_view,
};
use crate::column::integer_view_wf;
use crate::final_round_builder::{
    identities_hold, identity_holds, product_at, subpolynomial_rows, terms_at, FinalRoundBuilder,
    SubpolynomialView, TermView,
};
use crate::int_division::{lemma_trunc_div_rem, trunc_div, trunc_rem};
use crate::scalar::modulus;
use crate::scalar::{field, Scalar};
use crate::table::{Table, TableView};
use crate::verification_builder::{
    spec_consume_mle, spec_produce_subpolynomial, ProofError, SumcheckSubpolynomialType,
    VerificationBuilder, VerifierState,
};

verus! {

broadcast use crate::scalar::lemma_scalar_bound;

/// The evaluation of the division's constraint `q * rhs - lhs + r`, which
/// vanishes where the quotient and the remainder rebuild the dividend.
pub open spec fn division_check(quotient: nat, rhs: nat, lhs: nat, remainder: nat) -> nat {
    field(quotient * rhs - lhs + remainder)
}

/// Computes `q * rhs - lhs + r` in the field.
pub fn division_check_eval(quotient: &Scalar, rhs: &Scalar, lhs: &Scalar, remainder: &Scalar) -> (r: Scalar)
    ensures
        r@ == division_check(quotient@, rhs@, lhs@, remainder@),
{
    let product = quotient.times(rhs);
    let difference = product.minus(lhs);
    let r = difference.plus(remainder);
    proof {
        let qr = quotient@ * rhs@;
        crate::scalar::lemma_field_small(lhs@ as int);
        crate::scalar::lemma_field_small(remainder@ as int);
        crate::scalar::lemma_field_minus(qr as int, lhs@ as int);
        crate::scalar::lemma_field_small(qr as int % crate::scalar::modulus());
        crate::scalar::lemma_field_plus(qr - lhs@, remainder@ as int);
        vstd::arithmetic::div_mod::lemma_mod_twice(qr as int, crate::scalar::modulus());
        vstd::arithmetic::div_mod::lemma_mod_twice(qr - lhs@, crate::scalar::modulus());
    }
    r
}

/// The terms of the division's constraint `q * b + r - a`.
pub open spec fn division_terms(q: ColumnView, b: ColumnView, r: ColumnView, a: ColumnView) -> Seq<TermView> {
    seq![(1nat, seq![q, b]), (1nat, seq![r]), ((modulus() - 1) as nat, seq![a])]
}

/// The constraint `q * b + r - a` vanishes in a row where the quotient and
/// the remainder rebuild the dividend.
pub proof fn lemma_division_terms_vanish(q: ColumnView, b: ColumnView, r: ColumnView, a: ColumnView, i: int, qi: int, bi: int, ri: int, ai: int)
    requires
        0 <= i < q.scalars.len(),
        0 <= i < b.scalars.len(),
        0 <= i < r.scalars.len(),
        0 <= i < a.scalars.len(),
        q.scalars[i] == field(qi),
        b.scalars[i] == field(bi),
        r.scalars[i] == field(ri),
        a.scalars[i] == field(ai),
        qi * bi + ri == ai,
    ensures
        terms_at(division_terms(q, b, r, a), i) == 0,
{
    let t = division_terms(q, b, r, a);
    let m = modulus();
    let qs = q.scalars[i] as int;
    let bs = b.scalars[i] as int;
    let rs = r.scalars[i] as int;
    let as_ = a.scalars[i] as int;
    crate::scalar::lemma_field_small(1);
    assert(seq![b].drop_first() =~= Seq::<ColumnView>::empty());
    assert(seq![r].drop_first() =~= Seq::<ColumnView>::empty());
    assert(seq![a].drop_first() =~= Seq::<ColumnView>::empty());
    assert(seq![q, b].drop_first() =~= seq![b]);
    crate::scalar::lemma_field_small(bs);
    crate::scalar::lemma_field_small(rs);
    crate::scalar::lemma_field_small(as_);
    assert(product_at(Seq::<ColumnView>::empty(), i) == 1);
    assert(product_at(seq![b].drop_first(), i) == 1);
    assert(product_at(seq![b], i) == field(bs * 1));
    assert(bs * 1 == bs);
    assert(product_at(seq![b], i) == bs);
    assert(product_at(seq![q, b], i) == field(qs * bs));
    assert(product_at(seq![r].drop_first(), i) == 1);
    assert(product_at(seq![r], i) == field(rs * 1));
    assert(rs * 1 == rs);
    assert(product_at(seq![a].drop_first(), i) == 1);
    assert(product_at(seq![a], i) == field(as_ * 1));
    assert(as_ * 1 == as_);
    let t2 = t.drop_first();
    let t3 = t2.drop_first();
    assert(t2 =~= seq![(1nat, seq![r]), ((modulus() - 1) as nat, seq![a])]);
    assert(t3 =~= seq![((modulus() - 1) as nat, seq![a])]);
    assert(t3.drop_first() =~= Seq::<TermView>::empty());
    assert(terms_at(t3.drop_first(), i) == 0);
    let last = field((m - 1) * as_);
    assert(terms_at(t3, i) == field(field((m - 1) * product_at(seq![a], i)) as int + 0));
    crate::scalar::lemma_field_bound((m - 1) * as_);
    crate::scalar::lemma_field_small(last as int);
    assert(terms_at(t3, i) == last);
    let qb = field(qs * bs);
    crate::scalar::lemma_field_bound(qs * bs);
    crate::scalar::lemma_field_small(qb as int);
    assert(1 * (qb as int) == qb as int);
    assert(1 * rs == rs);
    assert(terms_at(t2, i) == field(rs + last));
    assert(terms_at(t, i) == field(qb as int + field(rs + last)));
    // Work modulo the modulus.
    crate::scalar::lemma_field_times_both(qi, bi);
    crate::scalar::lemma_field_times_both(m - 1, ai);
    crate::scalar::lemma_field_small(m - 1);
    crate::scalar::lemma_field_plus(ri, (m - 1) * ai);
    crate::scalar::lemma_field_plus(qi * bi, ri + (m - 1) * ai);
    assert(field(rs + last) == field(ri + (m - 1) * ai)) by {
        crate::scalar::lemma_field_small(rs);
        crate::scalar::lemma_field_small(last as int);
    }
    assert(qi * bi + ri + (m - 1) * ai == ai * m) by (nonlinear_arith)
        requires qi * bi + ri == ai;
    crate::scalar::lemma_field_multiple(ai);
    assert(ai * m == ai * modulus());
}

/// When the verifier reads, in some row, the values the honest prover
/// committed to (the dividend, the divisor, their quotient and remainder),
/// the division check it produces is zero.
pub proof fn lemma_division_check_honest(a: ColumnView, b: ColumnView, i: int)
    requires
        integer_view_wf(a),
        integer_view_wf(b),
        a.scalars.len() == b.scalars.len(),
        0 <= i < a.scalars.len(),
        b.ints[i] != 0,
    ensures
        division_check(
            quotient_view(a, b).scalars[i],
            b.scalars[i],
            a.scalars[i],
            remainder_view(a, b).scalars[i],
        ) == 0,
{
    let ai = a.ints[i];
    let bi = b.ints[i];
    let qi = trunc_div(ai, bi);
    let ri = trunc_rem(ai, bi);
    lemma_trunc_div_rem(ai, bi);
    let qs = field(qi) as int;
    let bs = field(bi) as int;
    let as_ = field(ai) as int;
    let rs = field(ri) as int;
    crate::scalar::lemma_field_times_both(qi, bi);
    crate::scalar::lemma_field_minus(qs * bs, as_);
    crate::scalar::lemma_field_minus(qi * bi, ai);
    crate::scalar::lemma_field_small(as_);
    crate::scalar::lemma_field_bound(ai);
    crate::scalar::lemma_field_bound(qi * bi);
    crate::scalar::lemma_field_small(field(qi * bi) as int);
    crate::scalar::lemma_field_plus(qs * bs - as_, rs);
    crate::scalar::lemma_field_plus(qi * bi - ai, ri);
    crate::scalar::lemma_field_bound(ri);
    crate::scalar::lemma_field_small(rs);
    crate::scalar::lemma_field_bound(qs * bs - as_);
    crate::scalar::lemma_field_small(field(qs * bs - as_) as int);
    crate::scalar::lemma_field_small(0);
    assert(qi * bi - ai + ri == 0);
}

/// Provable numerical `/` expression
#[derive(Debug, PartialEq)]
pub struct DivisionExpr {
    lhs: Box<DynProofExpr>,
    rhs: Box<DynProofExpr>,
}

impl DivisionExpr {
    pub closed spec fn spec_lhs(&self) -> DynProofExpr {
        *self.lhs
    }

    pub closed spec fn spec_rhs(&self) -> DynProofExpr {
        *self.rhs
    }

    /// The type of the quotient, when both operands have a type and the
    /// division applies to them.
    pub closed spec fn spec_data_type(&self) -> Option<ColumnType>
        decreases self,
    {
        match (self.lhs.spec_data_type(), self.rhs.spec_data_type()) {
            (Some(l), Some(r)) => match spec_try_divide_column_types(l, r) {
                Ok(t) => Some(t),
                Err(_) => None,
            },
            _ => None,
        }
    }

    /// The columns the operands read, the left one's first.
    pub closed spec fn spec_column_refs(&self) -> Seq<ColumnRefView>
        decreases self,
    {
        self.lhs.spec_column_refs() + self.rhs.spec_column_refs()
    }

    /// Verifying the division from state `s`: the evaluations of both
    /// operands, then those of the quotient and the remainder, then the
    /// constraint `q * rhs - lhs + r`; the quotient's evaluation and the state
    /// after it, or the first error.
    pub closed spec fn spec_verifier_evaluate(
        &self,
        s: VerifierState,
        accessor: Map<ColumnRefView, nat>,
        one_eval: nat,
    ) -> Result<(nat, VerifierState), ProofError>
        decreases self,
    {
        match self.lhs.spec_verifier_evaluate(s, accessor, one_eval) {
            Err(e) => Err(e),
            Ok((lhs, s1)) => match self.rhs.spec_verifier_evaluate(s1, accessor, one_eval) {
                Err(e) => Err(e),
                Ok((rhs, s2)) => match spec_consume_mle(s2) {
                    Err(e) => Err(e),
                    Ok((quotient, s3)) => match spec_consume_mle(s3) {
                        Err(e) => Err(e),
                        Ok((remainder, s4)) => match spec_produce_subpolynomial(
                            s4,
                            SumcheckSubpolynomialType::Identity,
                            division_check(quotient, rhs, lhs, remainder),
                            2,
                        ) {
                            Err(e) => Err(e),
                            Ok(s5) => Ok((quotient, s5)),
                        },
                    },
                },
            },
        }
    }

    /// The quotient column on table `t`, or `None` when an operand cannot be
    /// evaluated or the division does not apply to the operands' columns.
    pub closed spec fn spec_result(&self, t: TableView) -> Option<ColumnView>
        decreases self,
    {
        match (self.lhs.spec_result(t), self.rhs.spec_result(t)) {
            (Some(a), Some(b)) => if can_divide(a, b) {
                Some(quotient_view(a, b))
            } else {
                None
            },
            _ => None,
        }
    }

    /// The prover can evaluate both operands on table `t`, and the quotient
    /// and the remainder of their columns are defined.
    pub closed spec fn spec_provable(&self, t: TableView) -> bool
        decreases self,
    {
        &&& self.lhs.spec_provable(t)
        &&& self.rhs.spec_provable(t)
        &&& match (self.lhs.spec_result(t), self.rhs.spec_result(t)) {
            (Some(a), Some(b)) => can_divide(a, b) && can_modulo(a, b),
            _ => false,
        }
    }

    /// The intermediate columns the prover commits to: those of the
    /// operands, then the quotient and the remainder.
    pub closed spec fn spec_prover_mles(&self, t: TableView) -> Seq<ColumnView>
        decreases self,
    {
        let a = self.lhs.spec_result(t).unwrap();
        let b = self.rhs.spec_result(t).unwrap();
        self.lhs.spec_prover_mles(t) + self.rhs.spec_prover_mles(t) + seq![
            quotient_view(a, b),
            remainder_view(a, b),
        ]
    }

    /// The subpolynomials the prover produces: those of the operands, then
    /// the identity `q * b + r - a`.
    pub closed spec fn spec_prover_subpolynomials(&self, t: TableView) -> Seq<SubpolynomialView>
        decreases self,
    {
        let a = self.lhs.spec_result(t).unwrap();
        let b = self.rhs.spec_result(t).unwrap();
        self.lhs.spec_prover_subpolynomials(t) + self.rhs.spec_prover_subpolynomials(t) + seq![
            (
                SumcheckSubpolynomialType::Identity,
                division_terms(quotient_view(a, b), b, remainder_view(a, b), a),
            ),
        ]
    }

    /// Every column the operands read is in table `t`, with the type its
    /// reference names.
    pub closed spec fn spec_refs_match(&self, t: TableView) -> bool
        decreases self,
    {
        self.lhs.spec_refs_match(t) && self.rhs.spec_refs_match(t)
    }

    /// What each of the division's spec functions is, in terms of its
    /// operands.
    pub proof fn lemma_unfold(&self, s: VerifierState, accessor: Map<ColumnRefView, nat>, one_eval: nat, t: TableView)
        ensures
            self.spec_data_type() == ({
                match (self.spec_lhs().spec_data_type(), self.spec_rhs().spec_data_type()) {
                    (Some(l), Some(r)) => match spec_try_divide_column_types(l, r) {
                        Ok(t) => Some(t),
                        Err(_) => None,
                    },
                    _ => None,
                }
            }),
            self.spec_column_refs() == ({
                self.spec_lhs().spec_column_refs() + self.spec_rhs().spec_column_refs()
            }),
            self.spec_verifier_evaluate(s, accessor, one_eval) == ({
                match self.spec_lhs().spec_verifier_evaluate(s, accessor, one_eval) {
                    Err(e) => Err(e),
                    Ok((lhs, s1)) => match self.spec_rhs().spec_verifier_evaluate(s1, accessor, one_eval) {
                        Err(e) => Err(e),
                        Ok((rhs, s2)) => match spec_consume_mle(s2) {
                            Err(e) => Err(e),
                            Ok((quotient, s3)) => match spec_consume_mle(s3) {
                                Err(e) => Err(e),
                                Ok((remainder, s4)) => match spec_produce_subpolynomial(
                                    s4,
                                    SumcheckSubpolynomialType::Identity,
                                    division_check(quotient, rhs, lhs, remainder),
                                    2,
                                ) {
                                    Err(e) => Err(e),
                                    Ok(s5) => Ok((quotient, s5)),
                                },
                            },
                        },
                    },
                }
            }),
            self.spec_result(t) == ({
                match (self.spec_lhs().spec_result(t), self.spec_rhs().spec_result(t)) {
                    (Some(a), Some(b)) => if can_divide(a, b) {
                        Some(quotient_view(a, b))
                    } else {
                        None
                    },
                    _ => None,
                }
            }),
            self.spec_provable(t) == ({
                &&& self.spec_lhs().spec_provable(t)
                &&& self.spec_rhs().spec_provable(t)
                &&& match (self.spec_lhs().spec_result(t), self.spec_rhs().spec_result(t)) {
                    (Some(a), Some(b)) => can_divide(a, b) && can_modulo(a, b),
                    _ => false,
                }
            }),
            self.spec_prover_mles(t) == ({
                let a = self.spec_lhs().spec_result(t).unwrap();
                let b = self.spec_rhs().spec_result(t).unwrap();
                self.spec_lhs().spec_prover_mles(t) + self.spec_rhs().spec_prover_mles(t) + seq![
                    quotient_view(a, b),
                    remainder_view(a, b),
                ]
            }),
            self.spec_prover_subpolynomials(t) == ({
                let a = self.spec_lhs().spec_result(t).unwrap();
                let b = self.spec_rhs().spec_result(t).unwrap();
                self.spec_lhs().spec_prover_subpolynomials(t) + self.spec_rhs().spec_prover_subpolynomials(t) + seq![
                    (
                        SumcheckSubpolynomialType::Identity,
                        division_terms(quotient_view(a, b), b, remainder_view(a, b), a),
                    ),
                ]
            }),
            self.spec_refs_match(t) == ({
                self.spec_lhs().spec_refs_match(t) && self.spec_rhs().spec_refs_match(t)
            }),
    {
    }

    /// What the verifier computes after the operands' evaluations `lhs` and
    /// `rhs`: the quotient it gives is the next evaluation `q` it reads, the
    /// remainder `r` the one after, and the sumcheck evaluation gains
    /// `q * rhs - lhs + r` times the random evaluation and the next
    /// multiplier.
    pub proof fn lemma_verifier_sumcheck(&self, s: VerifierState, accessor: Map<ColumnRefView, nat>, one_eval: nat)
        requires
            self.spec_verifier_evaluate(s, accessor, one_eval) is Ok,
        ensures
            ({
                let (lhs, s1) = self.spec_lhs().spec_verifier_evaluate(s, accessor, one_eval).unwrap();
                let (rhs, s2) = self.spec_rhs().spec_verifier_evaluate(s1, accessor, one_eval).unwrap();
                let e = s2.final_round_mle_evaluations;
                let c = s2.consumed_final_round_mles as int;
                let q = e[c];
                let r = e[c + 1];
                let (v, s3) = self.spec_verifier_evaluate(s, accessor, one_eval).unwrap();
                &&& v == q
                &&& s3.sumcheck_evaluation == field(
                    s2.sumcheck_evaluation as int + s2.subpolynomial_multipliers[s2.produced_subpolynomials as int]
                        * field(q * rhs - lhs + r) * s2.random_evaluation,
                )
                &&& s3.consumed_final_round_mles == c + 2
                &&& s3.produced_subpolynomials == s2.produced_subpolynomials + 1
            }),
    {
        self.lemma_unfold(s, accessor, one_eval, TableView { columns: Seq::empty(), num_rows: 0 });
        let (lhs, s1) = self.spec_lhs().spec_verifier_evaluate(s, accessor, one_eval).unwrap();
        let (rhs, s2) = self.spec_rhs().spec_verifier_evaluate(s1, accessor, one_eval).unwrap();
        crate::verification_builder::lemma_consume_value(s2);
        let (q, s3) = spec_consume_mle(s2).unwrap();
        crate::verification_builder::lemma_consume_value(s3);
        let (r, s4) = spec_consume_mle(s3).unwrap();
        crate::verification_builder::lemma_produce_identity(s4, division_check(q, rhs, lhs, r), 2, s2.sumcheck_evaluation as int, 0);
    }

    /// On a table whose columns have the types the references name, the
    /// quotient column has the division's type.
    pub proof fn lemma_result_has_data_type(&self, t: TableView)
        requires
            self.spec_refs_match(t),
            self.spec_result(t) is Some,
        ensures
            self.spec_data_type() == Some(self.spec_result(t).unwrap().column_type),
        decreases self,
    {
        self.lhs.lemma_result_has_data_type(t);
        self.rhs.lemma_result_has_data_type(t);
    }

    /// The verifier reads exactly as many evaluations as the prover commits
    /// columns for, and produces as many subpolynomials as the prover does.
    pub proof fn lemma_verifier_matches_prover(
        &self,
        s: VerifierState,
        accessor: Map<ColumnRefView, nat>,
        one_eval: nat,
        t: TableView,
    )
        requires
            self.spec_verifier_evaluate(s, accessor, one_eval) is Ok,
        ensures
            ({
                let s2 = self.spec_verifier_evaluate(s, accessor, one_eval).unwrap().1;
                &&& s2.consumed_final_round_mles == s.consumed_final_round_mles + self.spec_prover_mles(t).len()
                &&& s2.produced_subpolynomials == s.produced_subpolynomials + self.spec_prover_subpolynomials(t).len()
            }),
        decreases self,
    {
        let (lhs, s1) = self.lhs.spec_verifier_evaluate(s, accessor, one_eval).unwrap();
        self.lhs.lemma_verifier_matches_prover(s, accessor, one_eval, t);
        self.rhs.lemma_verifier_matches_prover(s1, accessor, one_eval, t);
    }

    /// What the prover can evaluate it can also evaluate as a result.
    pub proof fn lemma_provable_has_result(&self, t: TableView)
        requires
            self.spec_provable(t),
        ensures
            self.spec_result(t) is Some,
    {
    }

    /// Create numerical `/` expression
    pub fn new(lhs: Box<DynProofExpr>, rhs: Box<DynProofExpr>) -> (r: DivisionExpr)
        ensures
            r.spec_lhs() == *lhs,
            r.spec_rhs() == *rhs,
    {
        DivisionExpr { lhs, rhs }
    }

    /// A copy of the division: it has the same type and reads the same
    /// columns.
    pub fn duplicate(&self) -> (r: DivisionExpr)
        ensures
            r.spec_data_type() == self.spec_data_type(),
            r.spec_column_refs() == self.spec_column_refs(),
        decreases self,
    {
        DivisionExpr { lhs: Box::new(self.lhs.duplicate()), rhs: Box::new(self.rhs.duplicate()) }
    }

    /// The dividend.
    pub fn lhs(&self) -> (r: &DynProofExpr)
        ensures
            *r == self.spec_lhs(),
    {
        &self.lhs
    }

    /// The divisor.
    pub fn rhs(&self) -> (r: &DynProofExpr)
        ensures
            *r == self.spec_rhs(),
    {
        &self.rhs
    }

    /// The type of the quotient.
    pub fn data_type(&self) -> (r: ColumnType)
        requires
            self.spec_data_type() is Some,
        ensures
            self.spec_data_type() == Some(r),
        decreases self,
    {
        let l = self.lhs.data_type();
        let r = self.rhs.data_type();
        match try_divide_column_types(l, r) {
            Ok(t) => t,
            Err(_) => l,
        }
    }

    /// Adds the columns both operands read to `columns`.
    pub fn get_column_references(&self, columns: &mut IndexSet<ColumnRef>)
        ensures
            final(columns)@ == seq_insert_all(old(columns)@, self.spec_column_refs()),
        decreases self,
    {
        self.lhs.get_column_references(columns);
        self.rhs.get_column_references(columns);
        proof {
            lemma_seq_insert_all_append(
                old(columns)@,
                self.lhs.spec_column_refs(),
                self.rhs.spec_column_refs(),
            );
        }
    }

    /// Verifies the division and gives the quotient's evaluation.
    pub fn verifier_evaluate(
        &self,
        builder: &mut VerificationBuilder,
        accessor: &IndexMap<ColumnRef, Scalar>,
        one_eval: Scalar,
    ) -> (r: Result<Scalar, ProofError>)
        requires
            accessor.well_formed(),
        ensures
            match self.spec_verifier_evaluate(old(builder)@, accessor@, one_eval@) {
                Ok((v, s)) => r matches Ok(x) && x@ == v && final(builder)@ == s,
                Err(e) => r == Err::<Scalar, ProofError>(e),
            },
        decreases self,
    {
        let lhs = self.lhs.verifier_evaluate(builder, accessor, one_eval)?;
        let rhs = self.rhs.verifier_evaluate(builder, accessor, one_eval)?;
        let lhs_divided_by_rhs = builder.try_consume_final_round_mle_evaluation()?;
        let lhs_mod_rhs = builder.try_consume_final_round_mle_evaluation()?;
        builder.try_produce_sumcheck_subpolynomial_evaluation(
            SumcheckSubpolynomialType::Identity,
            division_check_eval(&lhs_divided_by_rhs, &rhs, &lhs, &lhs_mod_rhs),
            2,
        )?;
        Ok(lhs_divided_by_rhs)
    }

    /// Evaluates both operands on the table and divides the left column by
    /// the right one.
    pub fn result_evaluate<'a>(&self, alloc: &'a bumpalo::Bump, table: &Table<'a>) -> (r: Column<'a>)
        requires
            self.spec_result(table@) is Some,
        ensures
            r@ == self.spec_result(table@).unwrap(),
        decreases self,
    {
        let lhs_column = self.lhs.result_evaluate(alloc, table);
        let rhs_column = self.rhs.result_evaluate(alloc, table);
        divide_columns(&lhs_column, &rhs_column, alloc)
    }

    /// Evaluates the division for the prover: commits to the quotient and
    /// the remainder and produces the constraint `q * b + r - a`; gives the
    /// quotient column.
    pub fn prover_evaluate<'a>(
        &self,
        builder: &mut FinalRoundBuilder<'a>,
        alloc: &'a bumpalo::Bump,
        table: &Table<'a>,
    ) -> (r: Column<'a>)
        requires
            self.spec_provable(table@),
        ensures
            self.spec_result(table@) == Some(r@),
            final(builder)@.intermediate_mles == old(builder)@.intermediate_mles + self.spec_prover_mles(table@),
            final(builder)@.subpolynomials == old(builder)@.subpolynomials + self.spec_prover_subpolynomials(table@),
            identities_hold(old(builder)@) ==> identities_hold(final(builder)@),
        decreases self,
    {
        let lhs_column = self.lhs.prover_evaluate(builder, alloc, table);
        let rhs_column = self.rhs.prover_evaluate(builder, alloc, table);
        let ghost mid = builder@;

        let lhs_divided_by_rhs = divide_columns(&lhs_column, &rhs_column, alloc);
        let lhs_mod_rhs = modulo_columns(&lhs_column, &rhs_column, alloc);
        builder.produce_intermediate_mle(lhs_divided_by_rhs);
        builder.produce_intermediate_mle(lhs_mod_rhs);

        // q * b + r - a
        let one = Scalar::one();
        let minus_one = one.neg();
        let terms = vec![
            (one, vec![lhs_divided_by_rhs, rhs_column]),
            (one, vec![lhs_mod_rhs]),
            (minus_one, vec![lhs_column]),
        ];
        let ghost a = lhs_column@;
        let ghost b = rhs_column@;
        let ghost q = lhs_divided_by_rhs@;
        let ghost m = lhs_mod_rhs@;
        proof {
            crate::scalar::lemma_field_small(1);
            crate::scalar::lemma_field_add_multiple(-1, 1);
            crate::scalar::lemma_field_small(modulus() - 1);
            let tv = crate::final_round_builder::terms_view(terms@);
            assert(tv[0].1 =~= seq![q, b]);
            assert(tv[1].1 =~= seq![m]);
            assert(tv[2].1 =~= seq![a]);
            assert(tv =~= division_terms(q, b, m, a));
        }
        builder.produce_sumcheck_subpolynomial(SumcheckSubpolynomialType::Identity, terms);
        proof {
            let mles = seq![q, m];
            assert(builder@.intermediate_mles =~= old(builder)@.intermediate_mles + self.spec_prover_mles(table@));
            assert(builder@.subpolynomials =~= old(builder)@.subpolynomials + self.spec_prover_subpolynomials(table@));
            let sub = (SumcheckSubpolynomialType::Identity, division_terms(q, b, m, a));
            assert forall|i: int| 0 <= i < subpolynomial_rows(sub) implies #[trigger] terms_at(sub.1, i) == 0 by {
                lhs_column.lemma_integer_view(i);
                rhs_column.lemma_integer_view(i);
                lemma_trunc_div_rem(a.ints[i], b.ints[i]);
                lemma_division_terms_vanish(
                    q,
                    b,
                    m,
                    a,
                    i,
                    trunc_div(a.ints[i], b.ints[i]),
                    b.ints[i],
                    trunc_rem(a.ints[i], b.ints[i]),
                    a.ints[i],
                );
            }
            if identities_hold(old(builder)@) {
                assert forall|k: int| 0 <= k < builder@.subpolynomials.len() implies identity_holds(
                    #[trigger] builder@.subpolynomials[k],
                ) by {
                    if k < mid.subpolynomials.len() {
                        assert(builder@.subpolynomials[k] == mid.subpolynomials[k]);
                    } else {
                        assert(builder@.subpolynomials[k] == sub);
                    }
                }
            }
        }
        lhs_divided_by_rhs
    }
}

impl Clone for DivisionExpr {
    fn clone(&self) -> Self {
        self.duplicate()
    }
}

} // verus!
