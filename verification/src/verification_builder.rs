//! The verifier's side of the proof: errors, the builder that consumes the
//! prover's evaluations and accumulates the sumcheck evaluation, and the
//! sign gadget.
use vstd::prelude::*;
use crate::scalar::{field, Scalar};

verus! {

broadcast use crate::scalar::lemma_scalar_bound;

/// Why a proof was rejected.
#[derive(Clone, Copy, Debug, PartialEq, Eq, Structural)]
pub enum ProofError {
    /// The proof holds fewer final-round evaluations than the verifier reads.
    TooFewMleEvaluations,
    /// More subpolynomials were produced than the proof has multipliers for.
    TooFewSubpolynomialMultipliers,
    /// A subpolynomial's degree is above the sumcheck's maximum degree.
    SubpolynomialDegreeTooHigh,
    /// A column that the expression refers to has no evaluation.
    ColumnNotFound,
}

/// How a subpolynomial enters the sumcheck: an identity must vanish on every
/// row, a zero-sum must sum to zero over the rows.
#[derive(Clone, Copy, Debug, PartialEq, Eq, Structural)]
pub enum SumcheckSubpolynomialType {
    Identity,
    ZeroSum,
}

/// What the verification builder holds: the prover's final-round
/// evaluations and how many were read, the multipliers of the subpolynomials
/// and how many were used, the accumulated sumcheck evaluation, the
/// evaluation of the random identity polynomial, and the maximum degree.
pub struct VerifierState {
    pub final_round_mle_evaluations: Seq<nat>,
    pub consumed_final_round_mles: nat,
    pub subpolynomial_multipliers: Seq<nat>,
    pub produced_subpolynomials: nat,
    pub sumcheck_evaluation: nat,
    pub random_evaluation: nat,
    pub max_degree: nat,
}

/// Reading the next final-round evaluation: it and the state after it, or
/// an error when none is left.
pub open spec fn spec_consume_mle(s: VerifierState) -> Result<(nat, VerifierState), ProofError> {
    if s.consumed_final_round_mles < s.final_round_mle_evaluations.len() {
        Ok(
            (
                s.final_round_mle_evaluations[s.consumed_final_round_mles as int],
                VerifierState { consumed_final_round_mles: s.consumed_final_round_mles + 1, ..s },
            ),
        )
    } else {
        Err(ProofError::TooFewMleEvaluations)
    }
}

/// The degree a subpolynomial has in the sumcheck: an identity is multiplied
/// by the random identity polynomial, which adds one.
pub open spec fn sumcheck_degree(ty: SumcheckSubpolynomialType, degree: nat) -> nat {
    match ty {
        SumcheckSubpolynomialType::Identity => degree + 1,
        SumcheckSubpolynomialType::ZeroSum => degree,
    }
}

/// What a subpolynomial evaluation adds to the sumcheck before its
/// multiplier: an identity's evaluation times the random identity
/// polynomial's, a zero-sum's evaluation as it is.
pub open spec fn sumcheck_term(ty: SumcheckSubpolynomialType, eval: nat, random_evaluation: nat) -> nat {
    match ty {
        SumcheckSubpolynomialType::Identity => field(eval as int * random_evaluation),
        SumcheckSubpolynomialType::ZeroSum => eval,
    }
}

/// Adding a subpolynomial evaluation to the sumcheck: the state after it, or
/// an error when its degree is too high or no multiplier is left.
pub open spec fn spec_produce_subpolynomial(
    s: VerifierState,
    ty: SumcheckSubpolynomialType,
    eval: nat,
    degree: nat,
) -> Result<VerifierState, ProofError> {
    if sumcheck_degree(ty, degree) > s.max_degree {
        Err(ProofError::SubpolynomialDegreeTooHigh)
    } else if s.produced_subpolynomials >= s.subpolynomial_multipliers.len() {
        Err(ProofError::TooFewSubpolynomialMultipliers)
    } else {
        let multiplier = s.subpolynomial_multipliers[s.produced_subpolynomials as int];
        Ok(
            VerifierState {
                sumcheck_evaluation: field(
                    s.sumcheck_evaluation as int + field(
                        multiplier as int * sumcheck_term(ty, eval, s.random_evaluation),
                    ),
                ),
                produced_subpolynomials: s.produced_subpolynomials + 1,
                ..s
            },
        )
    }
}

/// Producing an identity subpolynomial adds its evaluation, times the
/// random evaluation and the next multiplier, to the sumcheck evaluation,
/// and leaves everything but the count of produced subpolynomials as it was.
pub proof fn lemma_produce_identity(s: VerifierState, eval: nat, degree: nat, base: int, added: int)
    requires
        spec_produce_subpolynomial(s, SumcheckSubpolynomialType::Identity, eval, degree) is Ok,
        field(s.sumcheck_evaluation as int) == field(base + added),
    ensures
        ({
            let s2 = spec_produce_subpolynomial(s, SumcheckSubpolynomialType::Identity, eval, degree).unwrap();
            &&& s2.sumcheck_evaluation == field(
                base + added + s.subpolynomial_multipliers[s.produced_subpolynomials as int] * eval
                    * s.random_evaluation,
            )
            &&& s2.produced_subpolynomials == s.produced_subpolynomials + 1
            &&& s2.consumed_final_round_mles == s.consumed_final_round_mles
            &&& s2.final_round_mle_evaluations == s.final_round_mle_evaluations
            &&& s2.subpolynomial_multipliers == s.subpolynomial_multipliers
            &&& s2.random_evaluation == s.random_evaluation
            &&& s2.max_degree == s.max_degree
        }),
{
    let m = s.subpolynomial_multipliers[s.produced_subpolynomials as int] as int;
    let rnd = s.random_evaluation as int;
    let x = eval as int;
    crate::scalar::lemma_field_times_right(m, x * rnd);
    assert(m * (x * rnd) == m * x * rnd) by (nonlinear_arith);
    crate::scalar::lemma_field_plus(s.sumcheck_evaluation as int, m * x * rnd);
    crate::scalar::lemma_field_plus(base + added, m * x * rnd);
    crate::scalar::lemma_field_bound(m * x * rnd);
    crate::scalar::lemma_field_small(field(m * x * rnd) as int);
}

/// Reading the next evaluation gives the one at the count of those read so
/// far, and leaves everything but that count as it was.
pub proof fn lemma_consume_value(s: VerifierState)
    requires
        spec_consume_mle(s) is Ok,
    ensures
        ({
            let (v, s2) = spec_consume_mle(s).unwrap();
            &&& v == s.final_round_mle_evaluations[s.consumed_final_round_mles as int]
            &&& s2.consumed_final_round_mles == s.consumed_final_round_mles + 1
            &&& s2.produced_subpolynomials == s.produced_subpolynomials
            &&& s2.sumcheck_evaluation == s.sumcheck_evaluation
            &&& s2.final_round_mle_evaluations == s.final_round_mle_evaluations
            &&& s2.subpolynomial_multipliers == s.subpolynomial_multipliers
            &&& s2.random_evaluation == s.random_evaluation
            &&& s2.max_degree == s.max_degree
        }),
{
}

/// Collects, while an expression is verified, the prover's final-round
/// evaluations it reads and the sumcheck evaluation of the subpolynomials it
/// produces.
pub struct VerificationBuilder {
    final_round_mle_evaluations: Vec<Scalar>,
    consumed_final_round_mles: usize,
    subpolynomial_multipliers: Vec<Scalar>,
    produced_subpolynomials: usize,
    sumcheck_evaluation: Scalar,
    random_evaluation: Scalar,
    max_degree: usize,
}

impl View for VerificationBuilder {
    type V = VerifierState;

    closed spec fn view(&self) -> VerifierState {
        VerifierState {
            final_round_mle_evaluations: self.final_round_mle_evaluations@.map_values(|v: Scalar| v@),
            consumed_final_round_mles: self.consumed_final_round_mles as nat,
            subpolynomial_multipliers: self.subpolynomial_multipliers@.map_values(|v: Scalar| v@),
            produced_subpolynomials: self.produced_subpolynomials as nat,
            sumcheck_evaluation: self.sumcheck_evaluation@,
            random_evaluation: self.random_evaluation@,
            max_degree: self.max_degree as nat,
        }
    }
}

impl VerificationBuilder {
    /// A builder over the prover's final-round evaluations and the
    /// subpolynomial multipliers, with nothing read or produced yet.
    pub fn new(
        final_round_mle_evaluations: Vec<Scalar>,
        subpolynomial_multipliers: Vec<Scalar>,
        random_evaluation: Scalar,
        max_degree: usize,
    ) -> (r: VerificationBuilder)
        ensures
            r@ == (VerifierState {
                final_round_mle_evaluations: final_round_mle_evaluations@.map_values(|v: Scalar| v@),
                consumed_final_round_mles: 0,
                subpolynomial_multipliers: subpolynomial_multipliers@.map_values(|v: Scalar| v@),
                produced_subpolynomials: 0,
                sumcheck_evaluation: 0,
                random_evaluation: random_evaluation@,
                max_degree: max_degree as nat,
            }),
    {
        VerificationBuilder {
            final_round_mle_evaluations,
            consumed_final_round_mles: 0,
            subpolynomial_multipliers,
            produced_subpolynomials: 0,
            sumcheck_evaluation: Scalar::zero(),
            random_evaluation,
            max_degree,
        }
    }

    /// The sumcheck evaluation accumulated so far.
    pub fn sumcheck_evaluation(&self) -> (r: Scalar)
        ensures
            r@ == self@.sumcheck_evaluation,
    {
        self.sumcheck_evaluation
    }

    /// How many final-round evaluations have been read.
    pub fn consumed_final_round_mles(&self) -> (r: usize)
        ensures
            r == self@.consumed_final_round_mles,
    {
        self.consumed_final_round_mles
    }

    /// How many subpolynomials have been produced.
    pub fn produced_subpolynomials(&self) -> (r: usize)
        ensures
            r == self@.produced_subpolynomials,
    {
        self.produced_subpolynomials
    }

    /// Reads the next final-round evaluation of the prover's intermediate
    /// columns.
    pub fn try_consume_final_round_mle_evaluation(&mut self) -> (r: Result<Scalar, ProofError>)
        ensures
            match spec_consume_mle(old(self)@) {
                Ok((v, s)) => r matches Ok(x) && x@ == v && final(self)@ == s,
                Err(e) => r == Err::<Scalar, ProofError>(e) && final(self)@ == old(self)@,
            },
    {
        let index = self.consumed_final_round_mles;
        if index < self.final_round_mle_evaluations.len() {
            let v = self.final_round_mle_evaluations[index];
            self.consumed_final_round_mles = index + 1;
            Ok(v)
        } else {
            Err(ProofError::TooFewMleEvaluations)
        }
    }

    /// Adds the evaluation of a subpolynomial of the given type and degree to
    /// the sumcheck evaluation, weighted by the next multiplier.
    pub fn try_produce_sumcheck_subpolynomial_evaluation(
        &mut self,
        subpolynomial_type: SumcheckSubpolynomialType,
        eval: Scalar,
        degree: usize,
    ) -> (r: Result<(), ProofError>)
        ensures
            match spec_produce_subpolynomial(old(self)@, subpolynomial_type, eval@, degree as nat) {
                Ok(s) => r is Ok && final(self)@ == s,
                Err(e) => r == Err::<(), ProofError>(e) && final(self)@ == old(self)@,
            },
    {
        let too_high = match subpolynomial_type {
            SumcheckSubpolynomialType::Identity => degree >= self.max_degree,
            SumcheckSubpolynomialType::ZeroSum => degree > self.max_degree,
        };
        if too_high {
            return Err(ProofError::SubpolynomialDegreeTooHigh);
        }
        let index = self.produced_subpolynomials;
        if index >= self.subpolynomial_multipliers.len() {
            return Err(ProofError::TooFewSubpolynomialMultipliers);
        }
        let term = match subpolynomial_type {
            SumcheckSubpolynomialType::Identity => eval.times(&self.random_evaluation),
            SumcheckSubpolynomialType::ZeroSum => eval,
        };
        let weighted = self.subpolynomial_multipliers[index].times(&term);
        self.sumcheck_evaluation = self.sumcheck_evaluation.plus(&weighted);
        self.produced_subpolynomials = index + 1;
        Ok(())
    }
}

} // verus!
