//! What holds of the component's constraints on known values.

use vstd::prelude::*;
use crate::components::memory::id_to_f252::lemma_combine_canonical;
use crate::components::ret_opcode::component::{
    frame_access, pc_access, ret_layout, Eval, RET_INSTRUCTION, RET_N_LOOKUPS,
};
use crate::constraint_framework::logup::{
    boundary_constraint, fixed_prev_row, lemma_boundary_vanishes, lemma_step_vanishes,
    step_constraint,
};
use crate::constraint_framework::trace::{Trace, TraceEvaluator};
use crate::constraint_framework::{
    extension_mask, EvalAtRow, EvalState, CONSTANT_TRACE_IDX, INTERACTION_TRACE_IDX,
    MAIN_TRACE_IDX,
};
use crate::fields::{
    lemma_results_canonical, lemma_sub_undoes_add, M31, QM31, SECURE_EXTENSION_DEGREE,
};

verus! {

/// Evaluating a row reads, in each phase, as many columns as the claim
/// lays out for the phase, whatever the log size.
pub proof fn lemma_evaluate_fills_layout<E: EvalAtRow>(
    this: Eval,
    s: EvalState<E::F, E::EF>,
    log_size: u32,
)
    requires
        Eval::can_evaluate::<E>(s),
    ensures
        ret_layout(log_size).len() == 3,
        forall|phase: int|
            0 <= phase < 3 ==> #[trigger] this.evaluated::<E>(s).cursors[phase] == s.cursors[phase]
                + ret_layout(log_size)[phase].len(),
        forall|phase: int|
            3 <= phase < s.cursors.len() ==> #[trigger] this.evaluated::<E>(s).cursors[phase]
                == s.cursors[phase],
{
}

/// The running sum in one of the three secure interaction columns of a
/// row of a trace, at a row offset.
pub open spec fn running_sum(trace: &Trace, row: int, column: int, offset: int) -> QM31 {
    extension_mask::<TraceEvaluator>(
        trace.row_state(row),
        INTERACTION_TRACE_IDX as int,
        SECURE_EXTENSION_DEGREE * column,
        offset,
    )
}

/// The constraints of the component vanish on a row of a trace exactly
/// when its running sums grow by its lookup terms: the first is the first
/// term, the second adds the second term, and the third adds the third
/// term to the second and to the third of the row before, from which the
/// claimed sum is taken off where the row is the first.
pub proof fn lemma_holds_at_iff_sums_grow(this: Eval, trace: &Trace, row: int)
    requires
        this.wf(),
        trace.wf(),
        0 <= row < trace.n_rows,
        Eval::can_evaluate::<TraceEvaluator>(trace.row_state(row)),
    ensures
        this.holds_at(trace, row) <==> {
            let terms = this.fractions::<TraceEvaluator>(trace.row_state(row));
            let is_first = trace.row_state(row).mask(CONSTANT_TRACE_IDX as int, 0, 0);
            let sum0 = running_sum(trace, row, 0, 0);
            let sum1 = running_sum(trace, row, 1, 0);
            let sum2 = running_sum(trace, row, 2, 0);
            let before = fixed_prev_row(this.claimed_sum, is_first, running_sum(trace, row, 2, -1));
            &&& sum0.spec_sub(QM31::spec_zero()).spec_mul(terms[0].denominator)
                == terms[0].numerator
            &&& sum1.spec_sub(sum0).spec_mul(terms[1].denominator) == terms[1].numerator
            &&& sum2.spec_sub(before).spec_sub(sum1).spec_mul(terms[2].denominator)
                == terms[2].numerator
        },
{
    let s = trace.row_state(row);
    let terms = this.fractions::<TraceEvaluator>(s);
    let is_first = s.mask(CONSTANT_TRACE_IDX as int, 0, 0);
    let sum0 = running_sum(trace, row, 0, 0);
    let sum1 = running_sum(trace, row, 1, 0);
    let sum2 = running_sum(trace, row, 2, 0);
    let sum2_before = running_sum(trace, row, 2, -1);
    trace.lemma_cells_canonical(row);
    lemma_fractions_canonical(this, s);
    lemma_step_vanishes(QM31::spec_zero(), sum0, terms[0]);
    lemma_step_vanishes(sum0, sum1, terms[1]);
    lemma_boundary_vanishes(this.claimed_sum, is_first, sum1, sum2, sum2_before, terms[2]);
    let c = this.constraints::<TraceEvaluator>(s);
    assert(c[0] == step_constraint::<TraceEvaluator>(QM31::spec_zero(), sum0, terms[0]));
    assert(c[1] == step_constraint::<TraceEvaluator>(sum0, sum1, terms[1]));
    assert(c[2] == boundary_constraint::<TraceEvaluator>(
        this.claimed_sum,
        is_first,
        sum1,
        sum2,
        sum2_before,
        terms[2],
    ));
    if this.holds_at(trace, row) {
        assert(c[0] == QM31::spec_zero());
        assert(c[1] == QM31::spec_zero());
        assert(c[2] == QM31::spec_zero());
    }
}

/// Where the three secure interaction columns of a row hold the running
/// sums of the quotients of its lookup terms, the constraints of the
/// component vanish on the row: the first column holds the first
/// quotient, the second adds the second quotient, and the third adds the
/// second column and the third quotient to the third column of the row
/// before, from which the claimed sum is taken off where the row is the
/// first.
pub proof fn lemma_running_sums_hold(this: Eval, trace: &Trace, row: int, quotients: Seq<QM31>)
    requires
        this.wf(),
        trace.wf(),
        0 <= row < trace.n_rows,
        Eval::can_evaluate::<TraceEvaluator>(trace.row_state(row)),
        quotients.len() == RET_N_LOOKUPS,
        forall|k: int|
            0 <= k < RET_N_LOOKUPS ==> {
                let term = this.fractions::<TraceEvaluator>(trace.row_state(row))[k];
                &&& (#[trigger] quotients[k]).wf()
                &&& quotients[k].spec_mul(term.denominator) == term.numerator
            },
        running_sum(trace, row, 0, 0) == quotients[0],
        running_sum(trace, row, 1, 0) == running_sum(trace, row, 0, 0).spec_add(quotients[1]),
        running_sum(trace, row, 2, 0) == fixed_prev_row(
            this.claimed_sum,
            trace.row_state(row).mask(CONSTANT_TRACE_IDX as int, 0, 0),
            running_sum(trace, row, 2, -1),
        ).spec_add(running_sum(trace, row, 1, 0)).spec_add(quotients[2]),
    ensures
        this.holds_at(trace, row),
{
    let s = trace.row_state(row);
    let none = M31 { value: 0 };
    let is_first = s.mask(CONSTANT_TRACE_IDX as int, 0, 0);
    let sum0 = running_sum(trace, row, 0, 0);
    let sum1 = running_sum(trace, row, 1, 0);
    let sum2_before = running_sum(trace, row, 2, -1);
    let before = fixed_prev_row(this.claimed_sum, is_first, sum2_before);
    trace.lemma_cells_canonical(row);
    assert(quotients[0].wf() && quotients[1].wf() && quotients[2].wf());
    lemma_results_canonical(this.claimed_sum, this.claimed_sum, is_first, none, 0);
    lemma_results_canonical(sum2_before, this.claimed_sum.spec_scale(is_first), none, none, 0);
    lemma_sub_undoes_add(sum0, sum0, quotients[0]);
    lemma_sub_undoes_add(sum0, sum0, quotients[1]);
    lemma_sub_undoes_add(before, sum1, quotients[2]);
    lemma_holds_at_iff_sums_grow(this, trace, row);
}

/// The lookup terms of a row of canonical cells are canonical.
pub proof fn lemma_fractions_canonical(this: Eval, s: EvalState<M31, QM31>)
    requires
        this.wf(),
        forall|p: int, c: int, o: int| (#[trigger] s.mask(p, c, o)).wf(),
    ensures
        forall|k: int|
            0 <= k < RET_N_LOOKUPS ==> {
                &&& (#[trigger] this.fractions::<TraceEvaluator>(s)[k]).numerator.wf()
                &&& this.fractions::<TraceEvaluator>(s)[k].denominator.wf()
            },
{
    let main = MAIN_TRACE_IDX as int;
    let c = s.cursor(main);
    let none = M31 { value: 0 };
    let zero = QM31::spec_zero();
    let coefficients = this.memory_lookup_elements@;
    let fp = s.mask(main, c + 2, 0);
    lemma_results_canonical(zero, zero, fp, M31::of_int(1), 1);
    lemma_results_canonical(zero, zero, fp, M31::of_int(2), 2);
    lemma_results_canonical(zero, zero, none, none, 0);
    let pc = pc_access::<TraceEvaluator>(s.mask(main, c, 0));
    assert forall|i: int| 0 <= i < pc.len() implies (#[trigger] pc[i]).wf() by {
        if i > 0 {
            lemma_results_canonical(zero, zero, none, none, RET_INSTRUCTION@[i - 1] as int);
        }
    }
    lemma_combine_canonical(coefficients, pc);
    let one = frame_access::<TraceEvaluator>(fp, 1, s.mask(main, c + 3, 0), s.mask(main, c + 4, 0));
    assert forall|i: int| 0 <= i < one.len() implies (#[trigger] one[i]).wf() by {}
    lemma_combine_canonical(coefficients, one);
    let two = frame_access::<TraceEvaluator>(fp, 2, s.mask(main, c + 5, 0), s.mask(main, c + 6, 0));
    assert forall|i: int| 0 <= i < two.len() implies (#[trigger] two[i]).wf() by {}
    lemma_combine_canonical(coefficients, two);
}

/// Evaluating twice from equal states, with the same elements and claimed
/// sum, gives the same lookup terms and leaves equal states.
pub proof fn lemma_evaluate_idempotent<E: EvalAtRow>(this: Eval, a: E, b: E, out_a: E, out_b: E)
    requires
        a@ == b@,
        out_a@ == this.evaluated::<E>(a@),
        out_b@ == this.evaluated::<E>(b@),
    ensures
        this.fractions::<E>(a@) == this.fractions::<E>(b@),
        out_a@ == out_b@,
{
}

} // verus!
