//! The accumulator of the lookup argument.
//!
//! Every row adds the terms `numerator / denominator` of its lookups to a
//! running sum, which the interaction columns hold: one secure-field column
//! per term, each holding the sum up to and including its term. The
//! accumulator constrains each column against the one before it, and the
//! last column of a row against the last column of the row before. On the
//! first row, the row before is the last one, where the sum has reached its
//! total: there the total is taken off.

use vstd::prelude::*;
use crate::constraint_framework::trace::TraceEvaluator;
use crate::constraint_framework::{extension_mask, next_extension_interaction_mask, EvalAtRow};
use crate::fields::{lemma_results_canonical, lemma_sub_is_zero_iff_equal, M31, QM31};

verus! {

/// One term `numerator / denominator` of a lookup sum.
#[derive(Clone, Copy, Debug)]
pub struct Fraction<N, D> {
    pub numerator: N,
    pub denominator: D,
}

impl<N, D> Fraction<N, D> {
    pub fn new(numerator: N, denominator: D) -> (r: Self)
        ensures
            r.numerator == numerator,
            r.denominator == denominator,
    {
        Fraction { numerator, denominator }
    }
}

/// The value that vanishes when the running sum grows by `fraction` from
/// `prev` to `cur`: `(cur - prev) * denominator - numerator`.
pub open spec fn step_constraint<E: EvalAtRow>(
    prev: E::EF,
    cur: E::EF,
    fraction: Fraction<E::EF, E::EF>,
) -> E::EF {
    E::spec_ext_sub(
        E::spec_ext_mul(E::spec_ext_sub(cur, prev), fraction.denominator),
        fraction.numerator,
    )
}

/// The value that vanishes when the last running sum of a row, `cur`, is
/// that of the row before, `prev_row`, plus what the row's earlier columns
/// added, `prev_col`, plus `fraction`; on the first row, where `is_first`
/// is one, `total_sum` is first taken off `prev_row`.
pub open spec fn boundary_constraint<E: EvalAtRow>(
    total_sum: QM31,
    is_first: E::F,
    prev_col: E::EF,
    cur: E::EF,
    prev_row: E::EF,
    fraction: Fraction<E::EF, E::EF>,
) -> E::EF {
    let fixed_prev_row = E::spec_ext_sub(prev_row, E::spec_base_times(is_first, total_sum));
    let diff = E::spec_ext_sub(E::spec_ext_sub(cur, fixed_prev_row), prev_col);
    E::spec_ext_sub(E::spec_ext_mul(diff, fraction.denominator), fraction.numerator)
}

/// The state of the lookup argument while one row is evaluated.
pub struct LogupAtRow<E: EvalAtRow> {
    /// The phase that holds the running-sum columns.
    pub interaction: usize,
    /// The sum of all terms of all rows.
    pub total_sum: QM31,
    /// The running sum in the last column read, zero before the first.
    pub prev_col_cumsum: E::EF,
    /// The term written last, not yet constrained.
    pub cur_frac: Option<Fraction<E::EF, E::EF>>,
    /// The cell of the constant column that is one on the first row and
    /// zero elsewhere.
    pub is_first: E::F,
}

impl<E: EvalAtRow> LogupAtRow<E> {
    pub open spec fn wf(&self) -> bool {
        &&& self.total_sum.wf()
        &&& E::ef_wf(self.prev_col_cumsum)
        &&& E::f_wf(self.is_first)
        &&& self.cur_frac matches Some(f) ==> E::ef_wf(f.numerator) && E::ef_wf(f.denominator)
    }

    /// An accumulator with no term written yet.
    pub fn new(interaction: usize, total_sum: QM31, is_first: E::F) -> (r: Self)
        requires
            total_sum.wf(),
            E::f_wf(is_first),
        ensures
            r.wf(),
            r.interaction == interaction,
            r.total_sum == total_sum,
            r.prev_col_cumsum == E::spec_ext_const(QM31::spec_zero()),
            r.cur_frac is None,
            r.is_first == is_first,
    {
        LogupAtRow {
            interaction,
            total_sum,
            prev_col_cumsum: E::ext_const(QM31::zero()),
            cur_frac: None,
            is_first,
        }
    }

    /// Takes one more term. The term written before it, if any, is
    /// constrained against the next running-sum column.
    pub fn write_frac(&mut self, eval: &mut E, fraction: Fraction<E::EF, E::EF>)
        requires
            old(self).wf(),
            old(eval).wf(),
            E::ef_wf(fraction.numerator),
            E::ef_wf(fraction.denominator),
            old(self).cur_frac is Some ==> old(eval)@.can_read(old(self).interaction as int, 4),
        ensures
            final(self).wf(),
            final(eval).wf(),
            final(self).interaction == old(self).interaction,
            final(self).total_sum == old(self).total_sum,
            final(self).is_first == old(self).is_first,
            final(self).cur_frac == Some(fraction),
            match old(self).cur_frac {
                None => {
                    &&& final(eval)@ == old(eval)@
                    &&& final(self).prev_col_cumsum == old(self).prev_col_cumsum
                },
                Some(written) => {
                    let phase = old(self).interaction as int;
                    let cur = extension_mask::<E>(old(eval)@, phase, old(eval)@.cursor(phase), 0);
                    &&& final(eval)@ == old(eval)@.read_extension(phase, seq![0isize]).emit(
                        step_constraint::<E>(old(self).prev_col_cumsum, cur, written),
                    )
                    &&& final(self).prev_col_cumsum == cur
                },
            },
    {
        let pending = self.cur_frac.take();
        match pending {
            Some(written) => {
                let offsets: Vec<isize> = vec![0isize];
                assert(offsets@ =~= seq![0isize]);
                let mut cells = next_extension_interaction_mask(eval, self.interaction, &offsets);
                let cur_cumsum = cells.pop().unwrap();
                let diff = E::ext_sub(E::clone_ext(&cur_cumsum), E::clone_ext(&self.prev_col_cumsum));
                self.prev_col_cumsum = cur_cumsum;
                let constraint = E::ext_sub(E::ext_mul(diff, written.denominator), written.numerator);
                eval.add_constraint(constraint);
            },
            None => {},
        }
        self.cur_frac = Some(fraction);
    }

    /// Constrains the last term against the last running-sum column of
    /// this row and of the row before, which ends the row.
    pub fn finalize(self, eval: &mut E)
        requires
            self.wf(),
            old(eval).wf(),
            self.cur_frac is Some,
            old(eval)@.can_read(self.interaction as int, 4),
        ensures
            final(eval).wf(),
            final(eval)@ == old(eval)@.read_extension(
                self.interaction as int,
                seq![0isize, -1isize],
            ).emit(
                boundary_constraint::<E>(
                    self.total_sum,
                    self.is_first,
                    self.prev_col_cumsum,
                    extension_mask::<E>(
                        old(eval)@,
                        self.interaction as int,
                        old(eval)@.cursor(self.interaction as int),
                        0,
                    ),
                    extension_mask::<E>(
                        old(eval)@,
                        self.interaction as int,
                        old(eval)@.cursor(self.interaction as int),
                        -1,
                    ),
                    self.cur_frac->0,
                ),
            ),
    {
        let LogupAtRow { interaction, total_sum, prev_col_cumsum, cur_frac, is_first } = self;
        let frac = cur_frac.unwrap();
        let offsets: Vec<isize> = vec![0isize, -1isize];
        assert(offsets@ =~= seq![0isize, -1isize]);
        let mut cells = next_extension_interaction_mask(eval, interaction, &offsets);
        let prev_row_cumsum = cells.pop().unwrap();
        let cur_cumsum = cells.pop().unwrap();
        let fixed_prev_row_cumsum = E::ext_sub(prev_row_cumsum, E::base_times(is_first, total_sum));
        let diff = E::ext_sub(E::ext_sub(cur_cumsum, fixed_prev_row_cumsum), prev_col_cumsum);
        let constraint = E::ext_sub(E::ext_mul(diff, frac.denominator), frac.numerator);
        eval.add_constraint(constraint);
    }
}

/// On known values, a step constraint vanishes exactly when the running
/// sum grows by the term: `(cur - prev) * denominator = numerator`.
pub proof fn lemma_step_vanishes<'a>(prev: QM31, cur: QM31, fraction: Fraction<QM31, QM31>)
    requires
        prev.wf(),
        cur.wf(),
        fraction.numerator.wf(),
        fraction.denominator.wf(),
    ensures
        step_constraint::<TraceEvaluator<'a>>(prev, cur, fraction) == QM31::spec_zero()
            <==> cur.spec_sub(prev).spec_mul(fraction.denominator) == fraction.numerator,
{
    let none = M31 { value: 0 };
    lemma_results_canonical(cur, prev, none, none, 0);
    lemma_results_canonical(cur.spec_sub(prev), fraction.denominator, none, none, 0);
    lemma_sub_is_zero_iff_equal(
        cur.spec_sub(prev).spec_mul(fraction.denominator),
        fraction.numerator,
    );
}

/// The sum that the last running sum of a row is measured against: that
/// of the row before, less the total where the row is the first.
pub open spec fn fixed_prev_row(total_sum: QM31, is_first: M31, prev_row: QM31) -> QM31 {
    prev_row.spec_sub(total_sum.spec_scale(is_first))
}

/// On known values, a boundary constraint vanishes exactly when the last
/// running sum of the row is that of the row before, less the total on
/// the first row, plus what the earlier columns of the row hold, plus the
/// term: `(cur - fixed_prev_row - prev_col) * denominator = numerator`.
pub proof fn lemma_boundary_vanishes<'a>(
    total_sum: QM31,
    is_first: M31,
    prev_col: QM31,
    cur: QM31,
    prev_row: QM31,
    fraction: Fraction<QM31, QM31>,
)
    requires
        total_sum.wf(),
        is_first.wf(),
        prev_col.wf(),
        cur.wf(),
        prev_row.wf(),
        fraction.numerator.wf(),
        fraction.denominator.wf(),
    ensures
        boundary_constraint::<TraceEvaluator<'a>>(
            total_sum,
            is_first,
            prev_col,
            cur,
            prev_row,
            fraction,
        ) == QM31::spec_zero() <==> cur.spec_sub(
            fixed_prev_row(total_sum, is_first, prev_row),
        ).spec_sub(prev_col).spec_mul(fraction.denominator) == fraction.numerator,
{
    let none = M31 { value: 0 };
    let fixed = fixed_prev_row(total_sum, is_first, prev_row);
    lemma_results_canonical(total_sum, total_sum, is_first, none, 0);
    lemma_results_canonical(prev_row, total_sum.spec_scale(is_first), none, none, 0);
    lemma_results_canonical(cur, fixed, none, none, 0);
    lemma_results_canonical(cur.spec_sub(fixed), prev_col, none, none, 0);
    let diff = cur.spec_sub(fixed).spec_sub(prev_col);
    lemma_results_canonical(diff, fraction.denominator, none, none, 0);
    lemma_sub_is_zero_iff_equal(diff.spec_mul(fraction.denominator), fraction.numerator);
}

} // verus!
