//! The lookup terms of a row, and the interaction trace that holds their
//! running sums.

use vstd::prelude::*;
use vstd::arithmetic::div_mod::{lemma_mod_add_multiples_vanish, lemma_small_mod};
use vstd::arithmetic::power2::lemma_pow2_pos;
use crate::components::memory::id_to_f252::RelationElements;
use crate::components::ret_opcode::component::{
    fetch_cells, frame_cells, ret_fractions, Eval, RET_N_LOOKUPS, RET_N_TRACE_CELLS,
};
use crate::components::ret_opcode::laws::{lemma_running_sums_hold, running_sum};
use crate::components::ret_opcode::trace_check::has_ret_shape;
use crate::constraint_framework::logup::{fixed_prev_row, Fraction};
use crate::constraint_framework::trace::{
    column_ok, columns_ok, phase_ok, row_at, Trace, TraceEvaluator,
};
use crate::constraint_framework::{
    next_trace_mask, EvalAtRow, EvalState, CONSTANT_TRACE_IDX, MAIN_TRACE_IDX,
};
use crate::fields::{
    lemma_flags_and_zero, lemma_results_canonical, lemma_sub_undoes_add, qm31_add, qm31_inverse,
    M31, QM31, SECURE_EXTENSION_DEGREE,
};

verus! {

/// The state after the seven cells of a row were read.
pub open spec fn main_cells_read<F, EF>(s: EvalState<F, EF>) -> EvalState<F, EF> {
    let here = seq![0isize];
    let main = MAIN_TRACE_IDX as int;
    s.read(main, here).read(main, here).read(main, here).read(main, here).read(main, here).read(
        main,
        here,
    ).read(main, here)
}

/// Reads the seven cells of a row and gives its three lookup terms, in
/// the order in which the constraints take them.
pub fn lookup_terms<E: EvalAtRow>(elements: &RelationElements, eval: &mut E) -> (r: Vec<
    Fraction<E::EF, E::EF>,
>)
    requires
        elements.wf(),
        old(eval).wf(),
        old(eval)@.can_read(MAIN_TRACE_IDX as int, RET_N_TRACE_CELLS as nat),
    ensures
        final(eval).wf(),
        final(eval)@ == main_cells_read(old(eval)@),
        r@ == ret_fractions::<E>(elements@, old(eval)@),
        forall|k: int|
            0 <= k < r@.len() ==> E::ef_wf((#[trigger] r@[k]).numerator) && E::ef_wf(
                r@[k].denominator,
            ),
{
    let ghost s = eval@;
    let pc = next_trace_mask(eval);
    let _ap = next_trace_mask(eval);
    let fp = next_trace_mask(eval);
    let fp_minus_one_0 = next_trace_mask(eval);
    let fp_minus_one_1 = next_trace_mask(eval);
    let fp_minus_two_0 = next_trace_mask(eval);
    let fp_minus_two_1 = next_trace_mask(eval);
    let mut terms: Vec<Fraction<E::EF, E::EF>> = Vec::new();
    let fetch = fetch_cells::<E>(pc);
    terms.push(Fraction::new(E::ext_const(QM31::one()), elements.combine::<E>(&fetch)));
    let first = frame_cells::<E>(E::clone_base(&fp), 1, fp_minus_one_0, fp_minus_one_1);
    terms.push(Fraction::new(E::ext_const(QM31::one()), elements.combine::<E>(&first)));
    let second = frame_cells::<E>(fp, 2, fp_minus_two_0, fp_minus_two_1);
    terms.push(Fraction::new(E::ext_const(QM31::one()), elements.combine::<E>(&second)));
    proof {
        assert(terms@ =~= ret_fractions::<E>(elements@, s));
        assert(eval@.cursors =~= main_cells_read(s).cursors);
    }
    terms
}

/// Why no interaction trace was generated.
#[derive(Clone, Copy, Debug, PartialEq, Eq)]
pub enum InteractionError {
    /// The trace given does not hold the seven main columns and nothing
    /// else.
    Shape,
    /// A lookup term has the denominator zero.
    ZeroDenominator { row: usize, term: usize },
}

/// Whether a trace holds the seven main columns and nothing else.
pub open spec fn is_main_trace(trace: &Trace) -> bool {
    trace.widths() == seq![RET_N_TRACE_CELLS as nat]
}

/// The denominator of a lookup term of a row of a main trace.
pub open spec fn denominator(elements: &RelationElements, main: &Trace, row: int, term: int) -> QM31 {
    ret_fractions::<TraceEvaluator>(elements@, main.row_state(row))[term].denominator
}

/// The twelve cells of a row of the interaction trace: the coordinates of
/// its three running sums.
pub open spec fn row_cells(sums: Seq<QM31>) -> Seq<M31> {
    seq![
        sums[0].first.real,
        sums[0].first.imag,
        sums[0].second.real,
        sums[0].second.imag,
        sums[1].first.real,
        sums[1].first.imag,
        sums[1].second.real,
        sums[1].second.imag,
        sums[2].first.real,
        sums[2].first.imag,
        sums[2].second.real,
        sums[2].second.imag,
    ]
}

/// Whether the running sums of row `i` follow from the quotients of its
/// lookup terms and from the last running sum of the row before: the
/// first is the first quotient, the second adds the second quotient, the
/// third adds the second sum and the third quotient to the third sum of
/// the row before, or to zero on the first row.
pub open spec fn sums_follow(
    elements: &RelationElements,
    main: &Trace,
    quotients: Seq<Seq<QM31>>,
    sums: Seq<Seq<QM31>>,
    i: int,
) -> bool {
    &&& quotients[i].len() == RET_N_LOOKUPS
    &&& sums[i].len() == RET_N_LOOKUPS
    &&& forall|k: int|
        0 <= k < RET_N_LOOKUPS ==> {
            &&& (#[trigger] quotients[i][k]).wf()
            &&& sums[i][k].wf()
            &&& quotients[i][k].spec_mul(denominator(elements, main, i, k)) == QM31::spec_one()
        }
    &&& sums[i][0] == quotients[i][0]
    &&& sums[i][1] == sums[i][0].spec_add(quotients[i][1])
    &&& sums[i][2] == (if i == 0 {
        QM31::spec_zero()
    } else {
        sums[i - 1][2]
    }).spec_add(sums[i][1]).spec_add(quotients[i][2])
}

/// Whether a trace is a main trace with its interaction trace: the main
/// columns, then the coordinates of the running sums `sums`, which follow
/// from the quotients `quotients` of the lookup terms, then the constant
/// column that is one on the first row and zero elsewhere; and whether
/// `claimed_sum` is the last running sum of the last row.
pub open spec fn is_interaction_trace_of(
    trace: &Trace,
    main: &Trace,
    elements: &RelationElements,
    claimed_sum: QM31,
    quotients: Seq<Seq<QM31>>,
    sums: Seq<Seq<QM31>>,
) -> bool {
    &&& trace.wf()
    &&& main.wf()
    &&& is_main_trace(main)
    &&& has_ret_shape(trace, main.log_size)
    &&& trace.n_rows == main.n_rows
    &&& trace.columns@[0] == main.columns@[0]
    &&& quotients.len() == trace.n_rows
    &&& sums.len() == trace.n_rows
    &&& forall|i: int|
        0 <= i < trace.n_rows ==> #[trigger] sums_follow(elements, main, quotients, sums, i)
    &&& forall|i: int, c: int|
        0 <= i < trace.n_rows && 0 <= c < 12 ==> (#[trigger] trace.columns@[1]@[c])@[i]
            == row_cells(#[trigger] sums[i])[c]
    &&& forall|i: int|
        0 <= i < trace.n_rows ==> #[trigger] trace.columns@[2]@[0]@[i] == (M31 {
            value: if i == 0 { 1u32 } else { 0u32 },
        })
    &&& claimed_sum == sums[trace.n_rows - 1][2]
}

/// What holds of the trace generated from a main trace and of the sum to
/// be claimed for it: no lookup term of the main trace has the
/// denominator zero; the trace is the main trace with its interaction
/// trace, for some quotients of the lookup terms; and it meets the
/// constraints of the component on every row, for the sum to be claimed.
pub open spec fn is_generated_from(
    main: &Trace,
    elements: &RelationElements,
    trace: &Trace,
    claimed_sum: QM31,
) -> bool {
    &&& forall|i: int, k: int|
        0 <= i < main.n_rows && 0 <= k < RET_N_LOOKUPS ==> #[trigger] denominator(
            elements,
            main,
            i,
            k,
        ) != QM31::spec_zero()
    &&& claimed_sum.wf()
    &&& exists|quotients: Seq<Seq<QM31>>, sums: Seq<Seq<QM31>>|
        is_interaction_trace_of(trace, main, elements, claimed_sum, quotients, sums)
    &&& forall|row: int|
        0 <= row < trace.n_rows ==> (#[trigger] (Eval {
            log_size: main.log_size,
            memory_lookup_elements: *elements,
            claimed_sum,
        }).holds_at(trace, row))
}

/// The twelve cells of a row of the interaction trace.
fn secure_cells(s0: QM31, s1: QM31, s2: QM31) -> (r: Vec<M31>)
    ensures
        r@ == row_cells(seq![s0, s1, s2]),
{
    let mut cells: Vec<M31> = Vec::new();
    cells.push(s0.first.real);
    cells.push(s0.first.imag);
    cells.push(s0.second.real);
    cells.push(s0.second.imag);
    cells.push(s1.first.real);
    cells.push(s1.first.imag);
    cells.push(s1.second.real);
    cells.push(s1.second.imag);
    cells.push(s2.first.real);
    cells.push(s2.first.imag);
    cells.push(s2.second.real);
    cells.push(s2.second.imag);
    assert(cells@ =~= row_cells(seq![s0, s1, s2]));
    cells
}

/// The columns of a table given by its rows, all of `width` cells.
fn transpose(rows: &Vec<Vec<M31>>, width: usize) -> (r: Vec<Vec<M31>>)
    requires
        forall|i: int| 0 <= i < rows@.len() ==> (#[trigger] rows@[i])@.len() == width,
    ensures
        r@.len() == width,
        forall|c: int| 0 <= c < width ==> (#[trigger] r@[c])@.len() == rows@.len(),
        forall|c: int, i: int|
            0 <= c < width && 0 <= i < rows@.len() ==> (#[trigger] r@[c])@[i] == (
            #[trigger] rows@[i])@[c],
{
    let mut columns: Vec<Vec<M31>> = Vec::new();
    let mut c: usize = 0;
    while c < width
        invariant
            c <= width,
            columns@.len() == c,
            forall|i: int| 0 <= i < rows@.len() ==> (#[trigger] rows@[i])@.len() == width,
            forall|d: int| 0 <= d < c ==> (#[trigger] columns@[d])@.len() == rows@.len(),
            forall|d: int, i: int|
                0 <= d < c && 0 <= i < rows@.len() ==> (#[trigger] columns@[d])@[i] == (
                #[trigger] rows@[i])@[d],
        decreases width - c,
    {
        let mut column: Vec<M31> = Vec::new();
        let mut i: usize = 0;
        while i < rows.len()
            invariant
                i <= rows@.len(),
                c < width,
                column@.len() == i,
                forall|j: int| 0 <= j < rows@.len() ==> (#[trigger] rows@[j])@.len() == width,
                forall|j: int| 0 <= j < i ==> #[trigger] column@[j] == rows@[j]@[c as int],
            decreases rows@.len() - i,
        {
            column.push(rows[i][c]);
            i = i + 1;
        }
        columns.push(column);
        c = c + 1;
    }
    columns
}

/// The constant column that is one on the first row and zero elsewhere.
fn is_first_column(n_rows: usize) -> (r: Vec<M31>)
    ensures
        r@.len() == n_rows,
        forall|i: int|
            0 <= i < n_rows ==> #[trigger] r@[i] == (M31 { value: if i == 0 { 1u32 } else { 0u32 } }),
{
    let mut flags: Vec<M31> = Vec::new();
    let mut i: usize = 0;
    while i < n_rows
        invariant
            i <= n_rows,
            flags@.len() == i,
            forall|j: int|
                0 <= j < i ==> #[trigger] flags@[j] == (M31 {
                    value: if j == 0 { 1u32 } else { 0u32 },
                }),
        decreases n_rows - i,
    {
        flags.push(if i == 0 { M31::one() } else { M31::zero() });
        i = i + 1;
    }
    flags
}

/// A trace whose interaction columns hold the running sums of the
/// quotients of its lookup terms meets the constraints of the component
/// on every row, where the sum claimed is the last running sum of the
/// last row.
pub proof fn lemma_interaction_trace_holds(
    eval: Eval,
    trace: &Trace,
    main: &Trace,
    quotients: Seq<Seq<QM31>>,
    sums: Seq<Seq<QM31>>,
    row: int,
)
    requires
        eval.wf(),
        is_interaction_trace_of(
            trace,
            main,
            &eval.memory_lookup_elements,
            eval.claimed_sum,
            quotients,
            sums,
        ),
        0 <= row < trace.n_rows,
    ensures
        eval.holds_at(trace, row),
{
    let n = trace.n_rows as int;
    let s = trace.row_state(row);
    let m = main.row_state(row);
    let elements = &eval.memory_lookup_elements;
    let before_row = if row == 0 { n - 1 } else { row - 1 };
    assert(row_at(row, 0, n) == row && row_at(row, -1, n) == before_row) by {
        lemma_small_mod(row as nat, n as nat);
        lemma_small_mod(before_row as nat, n as nat);
        lemma_mod_add_multiples_vanish(-1, n);
    }
    assert(trace.widths().len() == 3);
    assert(trace.widths()[0] == 7 && trace.widths()[1] == 12 && trace.widths()[2] == 1);
    assert(main.widths().len() == 1 && main.widths()[0] == 7);
    assert(sums_follow(elements, main, quotients, sums, row));
    assert(sums_follow(elements, main, quotients, sums, before_row));
    assert(sums_follow(elements, main, quotients, sums, n - 1));
    assert(phase_ok(trace.columns@[0]@, trace.n_rows as nat));
    assert(phase_ok(trace.columns@[1]@, trace.n_rows as nat));
    assert(phase_ok(trace.columns@[2]@, trace.n_rows as nat));
    assert forall|c: int| 0 <= c < 7 implies #[trigger] s.mask(0, c, 0) == m.mask(0, c, 0) by {
        assert(column_ok(trace.columns@[0]@[c]@, trace.n_rows as nat));
    }
    assert(ret_fractions::<TraceEvaluator>(elements@, s) == ret_fractions::<TraceEvaluator>(
        elements@,
        m,
    ));
    assert forall|c: int| 0 <= c < 12 implies #[trigger] s.mask(1, c, 0) == row_cells(sums[row])[c]
        && s.mask(1, c, -1) == row_cells(sums[before_row])[c] by {
        assert(column_ok(trace.columns@[1]@[c]@, trace.n_rows as nat));
    }
    assert(s.mask(1, 0, 0) == row_cells(sums[row])[0]);
    assert(s.mask(1, 1, 0) == row_cells(sums[row])[1]);
    assert(s.mask(1, 2, 0) == row_cells(sums[row])[2]);
    assert(s.mask(1, 3, 0) == row_cells(sums[row])[3]);
    assert(s.mask(1, 4, 0) == row_cells(sums[row])[4]);
    assert(s.mask(1, 5, 0) == row_cells(sums[row])[5]);
    assert(s.mask(1, 6, 0) == row_cells(sums[row])[6]);
    assert(s.mask(1, 7, 0) == row_cells(sums[row])[7]);
    assert(s.mask(1, 8, 0) == row_cells(sums[row])[8]);
    assert(s.mask(1, 9, 0) == row_cells(sums[row])[9]);
    assert(s.mask(1, 10, 0) == row_cells(sums[row])[10]);
    assert(s.mask(1, 11, 0) == row_cells(sums[row])[11]);
    assert(s.mask(1, 8, -1) == row_cells(sums[before_row])[8]);
    assert(s.mask(1, 9, -1) == row_cells(sums[before_row])[9]);
    assert(s.mask(1, 10, -1) == row_cells(sums[before_row])[10]);
    assert(s.mask(1, 11, -1) == row_cells(sums[before_row])[11]);
    assert(running_sum(trace, row, 0, 0) == sums[row][0]);
    assert(running_sum(trace, row, 1, 0) == sums[row][1]);
    assert(running_sum(trace, row, 2, 0) == sums[row][2]);
    assert(running_sum(trace, row, 2, -1) == sums[before_row][2]);
    let is_first = s.mask(CONSTANT_TRACE_IDX as int, 0, 0);
    assert(is_first == (M31 { value: if row == 0 { 1u32 } else { 0u32 } })) by {
        assert(column_ok(trace.columns@[2]@[0]@, trace.n_rows as nat));
    }
    assert(quotients[row][0].wf() && quotients[row][1].wf() && quotients[row][2].wf());
    assert(sums[before_row][2].wf());
    lemma_flags_and_zero(eval.claimed_sum, sums[before_row][2]);
    lemma_sub_undoes_add(sums[before_row][2], sums[before_row][2], sums[before_row][2]);
    let before = fixed_prev_row(eval.claimed_sum, is_first, sums[before_row][2]);
    assert(before == (if row == 0 { QM31::spec_zero() } else { sums[row - 1][2] }));
    assert forall|k: int| 0 <= k < RET_N_LOOKUPS implies {
        let term = eval.fractions::<TraceEvaluator>(s)[k];
        &&& (#[trigger] quotients[row][k]).wf()
        &&& quotients[row][k].spec_mul(term.denominator) == term.numerator
    } by {
        assert(eval.fractions::<TraceEvaluator>(s)[k].denominator == denominator(
            elements,
            main,
            row,
            k,
        ));
    }
    lemma_running_sums_hold(eval, trace, row, quotients[row]);
}

/// Generates the interaction trace of a main trace: for every row the
/// running sums of the quotients of its lookup terms, and the constant
/// column that marks the first row. Gives the whole trace, which meets
/// the constraints of the component on every row, and the sum of all
/// lookup terms, to be claimed.
pub fn gen_interaction_trace(main: Trace, elements: &RelationElements) -> (r: Result<
    (Trace, QM31),
    InteractionError,
>)
    requires
        main.wf(),
        elements.wf(),
    ensures
        r == Err::<(Trace, QM31), InteractionError>(InteractionError::Shape) <==> !is_main_trace(
            &main,
        ),
        r matches Err(InteractionError::ZeroDenominator { row, term }) ==> {
            &&& is_main_trace(&main)
            &&& row < main.n_rows
            &&& term < RET_N_LOOKUPS
            &&& denominator(elements, &main, row as int, term as int) == QM31::spec_zero()
            &&& forall|i: int, k: int|
                (0 <= i < row && 0 <= k < RET_N_LOOKUPS) || (i == row && 0 <= k < term)
                    ==> #[trigger] denominator(elements, &main, i, k) != QM31::spec_zero()
        },
        r matches Ok((trace, claimed_sum)) ==> is_generated_from(
            &main,
            elements,
            &trace,
            claimed_sum,
        ),
{
    if main.columns.len() != 1 || main.columns[0].len() != RET_N_TRACE_CELLS {
        proof {
            if is_main_trace(&main) {
                assert(main.widths().len() == 1);
                assert(main.widths()[0] == RET_N_TRACE_CELLS);
            }
        }
        return Err(InteractionError::Shape);
    }
    assert(main.widths() =~= seq![RET_N_TRACE_CELLS as nat]);
    let n = main.n_rows;
    let mut rows: Vec<Vec<M31>> = Vec::new();
    let mut running = QM31::zero();
    let ghost mut quotients: Seq<Seq<QM31>> = Seq::empty();
    let ghost mut sums: Seq<Seq<QM31>> = Seq::empty();
    let mut row: usize = 0;
    while row < n
        invariant
            row <= n,
            n == main.n_rows,
            main.wf(),
            elements.wf(),
            is_main_trace(&main),
            rows@.len() == row,
            quotients.len() == row,
            sums.len() == row,
            running.wf(),
            running == (if row == 0 {
                QM31::spec_zero()
            } else {
                sums[row - 1][2]
            }),
            forall|i: int| 0 <= i < row ==> #[trigger] sums_follow(elements, &main, quotients, sums, i),
            forall|i: int| 0 <= i < row ==> (#[trigger] rows@[i])@ == row_cells(sums[i]),
            forall|i: int, k: int|
                0 <= i < row && 0 <= k < RET_N_LOOKUPS ==> #[trigger] denominator(
                    elements,
                    &main,
                    i,
                    k,
                ) != QM31::spec_zero(),
        decreases n - row,
    {
        let mut eval = TraceEvaluator::new(&main, row).unwrap();
        assert(main.widths().len() == 1 && main.widths()[0] == RET_N_TRACE_CELLS);
        assert(eval@.cursors.len() == 1 && eval@.cursors[0] == 0);
        let terms = lookup_terms::<TraceEvaluator>(elements, &mut eval);
        let d0 = terms[0].denominator;
        let d1 = terms[1].denominator;
        let d2 = terms[2].denominator;
        assert(d0 == denominator(elements, &main, row as int, 0));
        assert(d1 == denominator(elements, &main, row as int, 1));
        assert(d2 == denominator(elements, &main, row as int, 2));
        if d0.is_zero() {
            return Err(InteractionError::ZeroDenominator { row, term: 0 });
        }
        if d1.is_zero() {
            return Err(InteractionError::ZeroDenominator { row, term: 1 });
        }
        if d2.is_zero() {
            return Err(InteractionError::ZeroDenominator { row, term: 2 });
        }
        let q0 = qm31_inverse(d0);
        let q1 = qm31_inverse(d1);
        let q2 = qm31_inverse(d2);
        let s0 = q0;
        proof {
            let none = M31 { value: 0 };
            lemma_results_canonical(s0, q1, none, none, 0);
            lemma_results_canonical(running, s0.spec_add(q1), none, none, 0);
            lemma_results_canonical(running.spec_add(s0.spec_add(q1)), q2, none, none, 0);
        }
        let s1 = qm31_add(s0, q1);
        let s2 = qm31_add(qm31_add(running, s1), q2);
        let cells = secure_cells(s0, s1, s2);
        rows.push(cells);
        proof {
            let old_quotients = quotients;
            let old_sums = sums;
            quotients = quotients.push(seq![q0, q1, q2]);
            sums = sums.push(seq![s0, s1, s2]);
            assert forall|i: int| 0 <= i < row + 1 implies #[trigger] sums_follow(
                elements,
                &main,
                quotients,
                sums,
                i,
            ) by {
                if i < row {
                    assert(sums_follow(elements, &main, old_quotients, old_sums, i));
                    assert(quotients[i] == old_quotients[i]);
                    assert(sums[i] == old_sums[i]);
                    if i > 0 {
                        assert(sums[i - 1] == old_sums[i - 1]);
                    }
                }
            }
        }
        running = s2;
        row = row + 1;
    }
    let interaction = transpose(&rows, SECURE_EXTENSION_DEGREE * RET_N_LOOKUPS);
    let flags = is_first_column(n);
    let ghost main_before = main;
    let Trace { log_size, n_rows, columns } = main;
    let mut columns = columns;
    let mut constant: Vec<Vec<M31>> = Vec::new();
    constant.push(flags);
    columns.push(interaction);
    columns.push(constant);
    let trace = Trace { log_size, n_rows, columns };
    let claimed_sum = running;
    proof {
        lemma_pow2_pos(log_size as nat);
        assert(n_rows > 0);
        assert(trace.widths() =~= seq![
            RET_N_TRACE_CELLS as nat,
            (SECURE_EXTENSION_DEGREE * RET_N_LOOKUPS) as nat,
            1nat,
        ]);
        assert(phase_ok(main_before.columns@[0]@, n_rows as nat));
        assert forall|c: int| 0 <= c < 12 implies column_ok(
            (#[trigger] trace.columns@[1]@[c])@,
            n_rows as nat,
        ) by {
            assert forall|i: int| 0 <= i < n_rows implies (#[trigger] trace.columns@[1]@[c]@[i]).wf() by {
                assert(sums_follow(elements, &main_before, quotients, sums, i));
                assert(rows@[i]@ == row_cells(sums[i]));
                assert(sums[i][0].wf() && sums[i][1].wf() && sums[i][2].wf());
            }
        }
        assert(column_ok(trace.columns@[2]@[0]@, n_rows as nat));
        assert(phase_ok(trace.columns@[1]@, n_rows as nat));
        assert(phase_ok(trace.columns@[2]@, n_rows as nat));
        assert(columns_ok(trace.columns@, n_rows as nat)) by {
            assert forall|p: int| 0 <= p < trace.columns@.len() implies phase_ok(
                (#[trigger] trace.columns@[p])@,
                n_rows as nat,
            ) by {
                if p == 0 {
                    assert(trace.columns@[0] == main_before.columns@[0]);
                }
            }
        }
        let eval = Eval { log_size, memory_lookup_elements: *elements, claimed_sum };
        assert forall|i: int, c: int| 0 <= i < trace.n_rows && 0 <= c < 12 implies (
        #[trigger] trace.columns@[1]@[c])@[i] == row_cells(#[trigger] sums[i])[c] by {
            assert(rows@[i]@ == row_cells(sums[i]));
        }
        assert(is_interaction_trace_of(
            &trace,
            &main_before,
            elements,
            claimed_sum,
            quotients,
            sums,
        ));
        assert forall|r: int| 0 <= r < trace.n_rows implies #[trigger] eval.holds_at(&trace, r) by {
            lemma_interaction_trace_holds(eval, &trace, &main_before, quotients, sums, r);
        }
        assert(is_generated_from(&main_before, elements, &trace, claimed_sum));
    }
    Ok((trace, claimed_sum))
}

} // verus!
