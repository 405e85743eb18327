//! Provable expressions: column references, literals and divisions.
use vstd::prelude::*;
use crate::column::{literal_column_view, Column, ColumnType, ColumnView, LiteralValue};
use crate::division_expr::DivisionExpr;
use crate::final_round_builder::{identities_hold, FinalRoundBuilder, SubpolynomialView};
use crate::map::{seq_insert_all, ColumnRef, IndexMap, IndexSet};
use crate::scalar::{field, Scalar};
use crate::table::{table_column, Table, TableView};
use crate::verification_builder::{ProofError, VerificationBuilder, VerifierState};

verus! {

broadcast use crate::scalar::lemma_scalar_bound;

/// The view of a column reference: table, column name and type.
pub type ColumnRefView = (Seq<char>, Seq<char>, ColumnType);

/// An expression that reads a column.
#[derive(Clone, Debug, PartialEq)]
pub struct ColumnExpr {
    column_ref: ColumnRef,
}

impl ColumnExpr {
    pub closed spec fn spec_column_ref(&self) -> ColumnRefView {
        self.column_ref@
    }

    /// The expression reading the referenced column.
    pub fn new(column_ref: ColumnRef) -> (r: ColumnExpr)
        ensures
            r.spec_column_ref() == column_ref@,
    {
        ColumnExpr { column_ref }
    }

    /// An expression reading the same column.
    pub fn duplicate(&self) -> (r: ColumnExpr)
        ensures
            r.spec_column_ref() == self.spec_column_ref(),
    {
        ColumnExpr { column_ref: self.column_ref.duplicate() }
    }

    /// The referenced column.
    pub fn column_ref(&self) -> (r: &ColumnRef)
        ensures
            r@ == self.spec_column_ref(),
    {
        &self.column_ref
    }
}

/// An expression that stands for one value in every row.
#[derive(Clone, Debug, PartialEq)]
pub struct LiteralExpr {
    value: LiteralValue,
}

impl LiteralExpr {
    pub closed spec fn spec_value(&self) -> LiteralValue {
        self.value
    }

    /// The expression standing for `value`.
    pub fn new(value: LiteralValue) -> (r: LiteralExpr)
        ensures
            r.spec_value() == value,
    {
        LiteralExpr { value }
    }

    /// The value.
    pub fn value(&self) -> (r: LiteralValue)
        ensures
            r == self.spec_value(),
    {
        self.value
    }
}

/// A provable expression.
#[derive(Debug, PartialEq)]
pub enum DynProofExpr {
    Column(ColumnExpr),
    Literal(LiteralExpr),
    Divide(DivisionExpr),
}

impl DynProofExpr {
    /// The type of the expression, when it has one.
    pub open spec fn spec_data_type(&self) -> Option<ColumnType>
        decreases self,
    {
        match self {
            DynProofExpr::Column(c) => Some(c.spec_column_ref().2),
            DynProofExpr::Literal(l) => Some(l.spec_value().spec_column_type()),
            DynProofExpr::Divide(d) => d.spec_data_type(),
        }
    }

    /// The columns the expression reads, in order, with repeats.
    pub open spec fn spec_column_refs(&self) -> Seq<ColumnRefView>
        decreases self,
    {
        match self {
            DynProofExpr::Column(c) => seq![c.spec_column_ref()],
            DynProofExpr::Literal(_) => Seq::empty(),
            DynProofExpr::Divide(d) => d.spec_column_refs(),
        }
    }

    /// Verifying the expression from state `s`, with the columns'
    /// evaluations in `accessor`: its evaluation and the state after it, or
    /// the first error.
    pub open spec fn spec_verifier_evaluate(
        &self,
        s: VerifierState,
        accessor: Map<ColumnRefView, nat>,
        one_eval: nat,
    ) -> Result<(nat, VerifierState), ProofError>
        decreases self,
    {
        match self {
            DynProofExpr::Column(c) => if accessor.contains_key(c.spec_column_ref()) {
                Ok((accessor[c.spec_column_ref()], s))
            } else {
                Err(ProofError::ColumnNotFound)
            },
            DynProofExpr::Literal(l) => Ok(
                (field(one_eval as int * l.spec_value().spec_to_scalar()), s),
            ),
            DynProofExpr::Divide(d) => d.spec_verifier_evaluate(s, accessor, one_eval),
        }
    }

    /// The column that evaluating the expression on table `t` gives, or
    /// `None` when the evaluation cannot be carried out.
    pub open spec fn spec_result(&self, t: TableView) -> Option<ColumnView>
        decreases self,
    {
        match self {
            DynProofExpr::Column(c) => table_column(t, c.spec_column_ref().1),
            DynProofExpr::Literal(l) => Some(literal_column_view(l.spec_value(), t.num_rows)),
            DynProofExpr::Divide(d) => d.spec_result(t),
        }
    }

    /// The prover can evaluate the expression on table `t`: every column it
    /// reads is in the table and every division in it applies to its
    /// operands' columns, with defined quotients and remainders.
    pub open spec fn spec_provable(&self, t: TableView) -> bool
        decreases self,
    {
        match self {
            DynProofExpr::Column(c) => table_column(t, c.spec_column_ref().1) is Some,
            DynProofExpr::Literal(_) => true,
            DynProofExpr::Divide(d) => d.spec_provable(t),
        }
    }

    /// The intermediate columns the prover commits to for the expression.
    pub open spec fn spec_prover_mles(&self, t: TableView) -> Seq<ColumnView>
        decreases self,
    {
        match self {
            DynProofExpr::Divide(d) => d.spec_prover_mles(t),
            _ => Seq::empty(),
        }
    }

    /// The subpolynomials the prover produces for the expression.
    pub open spec fn spec_prover_subpolynomials(&self, t: TableView) -> Seq<SubpolynomialView>
        decreases self,
    {
        match self {
            DynProofExpr::Divide(d) => d.spec_prover_subpolynomials(t),
            _ => Seq::empty(),
        }
    }

    /// Every column the expression reads is in table `t`, with the type its
    /// reference names.
    pub open spec fn spec_refs_match(&self, t: TableView) -> bool
        decreases self,
    {
        match self {
            DynProofExpr::Column(c) => match table_column(t, c.spec_column_ref().1) {
                Some(v) => v.column_type == c.spec_column_ref().2,
                None => false,
            },
            DynProofExpr::Literal(_) => true,
            DynProofExpr::Divide(d) => d.spec_refs_match(t),
        }
    }

    /// A constant's evaluation is its value times the evaluation of the
    /// all-ones column, and verifying it reads and produces nothing; a
    /// column's evaluation is the one the accessor holds for it.
    pub proof fn lemma_leaf_evaluations(&self, s: VerifierState, accessor: Map<ColumnRefView, nat>, one_eval: nat)
        ensures
            self matches DynProofExpr::Literal(l) ==> self.spec_verifier_evaluate(s, accessor, one_eval) == Ok::<
                (nat, VerifierState),
                ProofError,
            >((field(one_eval as int * l.spec_value().spec_to_scalar()), s)),
            self matches DynProofExpr::Column(c) ==> self.spec_verifier_evaluate(s, accessor, one_eval) == if accessor.contains_key(
                c.spec_column_ref(),
            ) {
                Ok::<(nat, VerifierState), ProofError>((accessor[c.spec_column_ref()], s))
            } else {
                Err::<(nat, VerifierState), ProofError>(ProofError::ColumnNotFound)
            },
    {
    }

    /// On a table whose columns have the types the references name, the
    /// column an expression evaluates to has the expression's type.
    pub proof fn lemma_result_has_data_type(&self, t: TableView)
        requires
            self.spec_refs_match(t),
            self.spec_result(t) is Some,
        ensures
            self.spec_data_type() == Some(self.spec_result(t).unwrap().column_type),
        decreases self,
    {
        match self {
            DynProofExpr::Divide(d) => d.lemma_result_has_data_type(t),
            _ => {},
        }
    }

    /// The verifier reads exactly as many evaluations as the prover commits
    /// columns for, and produces as many subpolynomials as the prover does.
    pub proof fn lemma_verifier_matches_prover(
        &self,
        s: VerifierState,
        accessor: Map<ColumnRefView, nat>,
        one_eval: nat,
        t: TableView,
    )
        requires
            self.spec_verifier_evaluate(s, accessor, one_eval) is Ok,
        ensures
            ({
                let s2 = self.spec_verifier_evaluate(s, accessor, one_eval).unwrap().1;
                &&& s2.consumed_final_round_mles == s.consumed_final_round_mles + self.spec_prover_mles(t).len()
                &&& s2.produced_subpolynomials == s.produced_subpolynomials + self.spec_prover_subpolynomials(t).len()
            }),
        decreases self,
    {
        match self {
            DynProofExpr::Divide(d) => d.lemma_verifier_matches_prover(s, accessor, one_eval, t),
            _ => {},
        }
    }

    /// What the prover can evaluate it can also evaluate as a result.
    pub proof fn lemma_provable_has_result(&self, t: TableView)
        requires
            self.spec_provable(t),
        ensures
            self.spec_result(t) is Some,
    {
        match self {
            DynProofExpr::Divide(d) => d.lemma_provable_has_result(t),
            _ => {},
        }
    }

    /// The type of the expression.
    pub fn data_type(&self) -> (r: ColumnType)
        requires
            self.spec_data_type() is Some,
        ensures
            self.spec_data_type() == Some(r),
        decreases self,
    {
        match self {
            DynProofExpr::Column(c) => c.column_ref().column_type(),
            DynProofExpr::Literal(l) => l.value().column_type(),
            DynProofExpr::Divide(d) => d.data_type(),
        }
    }

    /// Adds the columns the expression reads to `columns`.
    pub fn get_column_references(&self, columns: &mut IndexSet<ColumnRef>)
        ensures
            final(columns)@ == seq_insert_all(old(columns)@, self.spec_column_refs()),
        decreases self,
    {
        match self {
            DynProofExpr::Column(c) => {
                columns.insert(c.column_ref().duplicate());
                proof {
                    let refs = seq![c.spec_column_ref()];
                    let inserted = crate::map::seq_insert(old(columns)@, c.spec_column_ref());
                    assert(refs.drop_first() =~= Seq::<ColumnRefView>::empty());
                    assert(seq_insert_all(inserted, refs.drop_first()) == inserted);
                    assert(seq_insert_all(old(columns)@, refs) == seq_insert_all(inserted, refs.drop_first()));
                }
            },
            DynProofExpr::Literal(_) => {},
            DynProofExpr::Divide(d) => d.get_column_references(columns),
        }
    }

    /// Verifies the expression and gives its evaluation.
    pub fn verifier_evaluate(
        &self,
        builder: &mut VerificationBuilder,
        accessor: &IndexMap<ColumnRef, Scalar>,
        one_eval: Scalar,
    ) -> (r: Result<Scalar, ProofError>)
        requires
            accessor.well_formed(),
        ensures
            match self.spec_verifier_evaluate(old(builder)@, accessor@, one_eval@) {
                Ok((v, s)) => r matches Ok(x) && x@ == v && final(builder)@ == s,
                Err(e) => r == Err::<Scalar, ProofError>(e),
            },
            self matches DynProofExpr::Literal(l) ==> r matches Ok(x) && x@ == field(
                one_eval@ as int * l.spec_value().spec_to_scalar(),
            ) && final(builder)@ == old(builder)@,
            self matches DynProofExpr::Column(c) ==> final(builder)@ == old(builder)@ && if accessor@.contains_key(
                c.spec_column_ref(),
            ) {
                r matches Ok(x) && x@ == accessor@[c.spec_column_ref()]
            } else {
                r == Err::<Scalar, ProofError>(ProofError::ColumnNotFound)
            },
        decreases self,
    {
        match self {
            DynProofExpr::Column(c) => match accessor.get(c.column_ref()) {
                Some(v) => Ok(v),
                None => Err(ProofError::ColumnNotFound),
            },
            DynProofExpr::Literal(l) => Ok(one_eval.times(&l.value().to_scalar())),
            DynProofExpr::Divide(d) => d.verifier_evaluate(builder, accessor, one_eval),
        }
    }

    /// Evaluates the expression on a table.
    pub fn result_evaluate<'a>(&self, alloc: &'a bumpalo::Bump, table: &Table<'a>) -> (r: Column<'a>)
        requires
            self.spec_result(table@) is Some,
        ensures
            r@ == self.spec_result(table@).unwrap(),
        decreases self,
    {
        match self {
            DynProofExpr::Column(c) => table.get(c.column_ref().column_id()).unwrap(),
            DynProofExpr::Literal(l) => Column::from_literal_with_length(&l.value(), table.num_rows(), alloc),
            DynProofExpr::Divide(d) => d.result_evaluate(alloc, table),
        }
    }

    /// Evaluates the expression for the prover: the column it stands for,
    /// committing to the intermediate columns and producing the
    /// subpolynomials of the divisions in it.
    pub fn prover_evaluate<'a>(
        &self,
        builder: &mut FinalRoundBuilder<'a>,
        alloc: &'a bumpalo::Bump,
        table: &Table<'a>,
    ) -> (r: Column<'a>)
        requires
            self.spec_provable(table@),
        ensures
            self.spec_result(table@) == Some(r@),
            final(builder)@.intermediate_mles == old(builder)@.intermediate_mles + self.spec_prover_mles(table@),
            final(builder)@.subpolynomials == old(builder)@.subpolynomials + self.spec_prover_subpolynomials(table@),
            identities_hold(old(builder)@) ==> identities_hold(final(builder)@),
        decreases self,
    {
        match self {
            DynProofExpr::Column(c) => {
                let r = table.get(c.column_ref().column_id()).unwrap();
                assert(old(builder)@.intermediate_mles + Seq::<ColumnView>::empty() =~= old(builder)@.intermediate_mles);
                assert(old(builder)@.subpolynomials + Seq::<SubpolynomialView>::empty() =~= old(builder)@.subpolynomials);
                r
            },
            DynProofExpr::Literal(l) => {
                let r = Column::from_literal_with_length(&l.value(), table.num_rows(), alloc);
                assert(old(builder)@.intermediate_mles + Seq::<ColumnView>::empty() =~= old(builder)@.intermediate_mles);
                assert(old(builder)@.subpolynomials + Seq::<SubpolynomialView>::empty() =~= old(builder)@.subpolynomials);
                r
            },
            DynProofExpr::Divide(d) => d.prover_evaluate(builder, alloc, table),
        }
    }
}

impl DynProofExpr {
    /// A copy of the expression: it has the same type and reads the same
    /// columns.
    pub fn duplicate(&self) -> (r: DynProofExpr)
        ensures
            r.spec_data_type() == self.spec_data_type(),
            r.spec_column_refs() == self.spec_column_refs(),
        decreases self,
    {
        match self {
            DynProofExpr::Column(c) => DynProofExpr::Column(c.duplicate()),
            DynProofExpr::Literal(l) => DynProofExpr::Literal(LiteralExpr::new(l.value())),
            DynProofExpr::Divide(d) => DynProofExpr::Divide(d.duplicate()),
        }
    }
}

impl Clone for DynProofExpr {
    fn clone(&self) -> Self {
        self.duplicate()
    }
}

} // verus!
