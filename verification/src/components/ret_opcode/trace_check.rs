//! Checking a generated trace against the component.

use vstd::prelude::*;
use crate::components::ret_opcode::component::{
    ret_layout, Eval, RET_N_LOOKUPS, RET_N_TRACE_CELLS,
};
use crate::constraint_framework::trace::{layout_of, Trace, TraceEvaluator};
use crate::constraint_framework::{CONSTANT_TRACE_IDX, INTERACTION_TRACE_IDX, MAIN_TRACE_IDX};
use crate::fields::{QM31, SECURE_EXTENSION_DEGREE};
use crate::pcs::layout_view;

verus! {

/// Why a trace is not one of the component.
#[derive(Clone, Copy, Debug, PartialEq, Eq)]
pub enum TraceError {
    /// The trace does not have the claimed shape: three phases of seven,
    /// twelve and one column, all of the claimed log size.
    Shape,
    /// A constraint does not vanish on a row.
    Unsatisfied { row: usize, constraint: usize },
}

/// Whether a trace has the shape that a claim of the given log size
/// declares.
pub open spec fn has_ret_shape(trace: &Trace, log_size: u32) -> bool {
    &&& trace.log_size == log_size
    &&& trace.widths() == seq![
        RET_N_TRACE_CELLS as nat,
        (SECURE_EXTENSION_DEGREE * RET_N_LOOKUPS) as nat,
        1nat,
    ]
}

/// A trace that has the layout of a claim has the shape that the claim
/// declares, and on each of its rows the columns that the component
/// reads.
pub proof fn lemma_layout_is_shape(trace: &Trace, log_sizes: Seq<Vec<u32>>, log_size: u32, row: int)
    requires
        layout_of(trace.columns@, trace.log_size, log_sizes),
        layout_view(log_sizes) == ret_layout(log_size),
    ensures
        has_ret_shape(trace, log_size),
        Eval::can_evaluate::<TraceEvaluator>(trace.row_state(row)),
{
    let layout = ret_layout(log_size);
    assert(layout_view(log_sizes).len() == 3);
    assert(layout_view(log_sizes)[0] =~= layout[0]);
    assert(layout_view(log_sizes)[1] =~= layout[1]);
    assert(layout_view(log_sizes)[2] =~= layout[2]);
    assert(log_sizes[2]@[0] == log_size);
    assert(trace.widths() =~= seq![
        RET_N_TRACE_CELLS as nat,
        (SECURE_EXTENSION_DEGREE * RET_N_LOOKUPS) as nat,
        1nat,
    ]);
}

/// A trace of the shape that a claim declares has on each of its rows the
/// columns that the component reads.
pub proof fn lemma_shape_can_evaluate(trace: &Trace, log_size: u32, row: int)
    requires
        has_ret_shape(trace, log_size),
    ensures
        Eval::can_evaluate::<TraceEvaluator>(trace.row_state(row)),
{
    assert(trace.widths().len() == 3);
}

impl Eval {
    /// Whether every constraint of the component vanishes on a row of a
    /// trace.
    pub open spec fn holds_at(&self, trace: &Trace, row: int) -> bool {
        forall|k: int|
            0 <= k < RET_N_LOOKUPS ==> #[trigger] self.constraints::<TraceEvaluator>(
                trace.row_state(row),
            )[k] == QM31::spec_zero()
    }

    /// The first row of a trace on which a constraint of the component
    /// does not vanish, with the index of the first such constraint; none
    /// if the trace meets the constraints on every row.
    pub fn first_violation(&self, trace: &Trace) -> (r: Option<(usize, usize)>)
        requires
            self.wf(),
            trace.wf(),
            Self::can_evaluate::<TraceEvaluator>(trace.row_state(0)),
        ensures
            r is None <==> forall|row: int| 0 <= row < trace.n_rows ==> self.holds_at(trace, row),
            r matches Some((row, k)) ==> {
                &&& row < trace.n_rows
                &&& k < RET_N_LOOKUPS
                &&& forall|before: int| 0 <= before < row ==> self.holds_at(trace, before)
                &&& forall|j: int|
                    0 <= j < k ==> #[trigger] self.constraints::<TraceEvaluator>(
                        trace.row_state(row as int),
                    )[j] == QM31::spec_zero()
                &&& self.constraints::<TraceEvaluator>(trace.row_state(row as int))[k as int]
                    != QM31::spec_zero()
            },
    {
        let mut row: usize = 0;
        while row < trace.n_rows
            invariant
                row <= trace.n_rows,
                self.wf(),
                trace.wf(),
                Self::can_evaluate::<TraceEvaluator>(trace.row_state(0)),
                forall|before: int| 0 <= before < row ==> self.holds_at(trace, before),
            decreases trace.n_rows - row,
        {
            let eval = TraceEvaluator::new(trace, row).unwrap();
            let ghost s = trace.row_state(row as int);
            let out = self.evaluate(eval);
            let values = out.constraints();
            assert(values@ =~= self.constraints::<TraceEvaluator>(s));
            let mut k: usize = 0;
            while k < RET_N_LOOKUPS
                invariant
                    k <= RET_N_LOOKUPS,
                    row < trace.n_rows,
                    values@ == self.constraints::<TraceEvaluator>(s),
                    values@.len() == RET_N_LOOKUPS,
                    s == trace.row_state(row as int),
                    forall|before: int| 0 <= before < row ==> self.holds_at(trace, before),
                    forall|j: int| 0 <= j < k ==> #[trigger] values@[j] == QM31::spec_zero(),
                decreases RET_N_LOOKUPS - k,
            {
                if !values[k].is_zero() {
                    proof {
                        assert(!self.holds_at(trace, row as int));
                    }
                    return Some((row, k));
                }
                k = k + 1;
            }
            row = row + 1;
        }
        None
    }

    /// Checks a trace against the component: first its shape, then the
    /// constraints on every row, in order.
    pub fn check_trace(&self, trace: &Trace) -> (r: Result<(), TraceError>)
        requires
            self.wf(),
            trace.wf(),
        ensures
            r is Ok <==> has_ret_shape(trace, self.log_size) && forall|row: int|
                0 <= row < trace.n_rows ==> self.holds_at(trace, row),
            r == Err::<(), TraceError>(TraceError::Shape) <==> !has_ret_shape(trace, self.log_size),
            r matches Err(TraceError::Unsatisfied { row, constraint }) ==> {
                &&& row < trace.n_rows
                &&& constraint < RET_N_LOOKUPS
                &&& forall|before: int| 0 <= before < row ==> self.holds_at(trace, before)
                &&& forall|j: int|
                    0 <= j < constraint ==> #[trigger] self.constraints::<TraceEvaluator>(
                        trace.row_state(row as int),
                    )[j] == QM31::spec_zero()
                &&& self.constraints::<TraceEvaluator>(trace.row_state(row as int))[constraint as int]
                    != QM31::spec_zero()
            },
    {
        let shaped = trace.log_size == self.log_size && trace.columns.len() == 3
            && trace.columns[MAIN_TRACE_IDX].len() == RET_N_TRACE_CELLS
            && trace.columns[INTERACTION_TRACE_IDX].len() == SECURE_EXTENSION_DEGREE
            * RET_N_LOOKUPS && trace.columns[CONSTANT_TRACE_IDX].len() == 1;
        proof {
            let expected = seq![
                RET_N_TRACE_CELLS as nat,
                (SECURE_EXTENSION_DEGREE * RET_N_LOOKUPS) as nat,
                1nat,
            ];
            if shaped {
                assert(trace.widths() =~= expected);
            } else if trace.widths() == expected {
                assert(trace.widths().len() == 3);
                assert(trace.widths()[0] == expected[0]);
                assert(trace.widths()[1] == expected[1]);
                assert(trace.widths()[2] == expected[2]);
            }
        }
        if !shaped {
            return Err(TraceError::Shape);
        }
        match self.first_violation(trace) {
            None => Ok(()),
            Some((row, constraint)) => Err(TraceError::Unsatisfied { row, constraint }),
        }
    }
}

} // verus!
