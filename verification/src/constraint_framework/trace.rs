//! Evaluation over known field values: the rows of a trace that was
//! generated, to check that it meets the constraints.

use vstd::prelude::*;
use vstd::arithmetic::div_mod::{
    lemma_add_mod_noop_right, lemma_mod_add_multiples_vanish, lemma_sub_mod_noop_right,
};
use vstd::arithmetic::power2::{
    lemma2_to64, lemma_pow2_strictly_increases, lemma_pow2_unfold, pow2,
};
use crate::constraint_framework::{EvalAtRow, EvalState, MaskRead};
use crate::fields::{
    lemma_results_canonical, m31_sub, qm31_add, qm31_mul, qm31_scale, qm31_sub, M31, QM31,
};

verus! {

/// Whether a column has `n_rows` cells, all canonical.
pub open spec fn column_ok(column: Seq<M31>, n_rows: nat) -> bool {
    &&& column.len() == n_rows
    &&& forall|r: int| 0 <= r < column.len() ==> (#[trigger] column[r]).wf()
}

/// Whether every column of a phase has `n_rows` cells, all canonical.
pub open spec fn phase_ok(phase: Seq<Vec<M31>>, n_rows: nat) -> bool {
    forall|c: int| 0 <= c < phase.len() ==> column_ok((#[trigger] phase[c])@, n_rows)
}

/// Whether every column of every phase has `n_rows` cells, all canonical.
pub open spec fn columns_ok(columns: Seq<Vec<Vec<M31>>>, n_rows: nat) -> bool {
    forall|p: int| 0 <= p < columns.len() ==> phase_ok((#[trigger] columns[p])@, n_rows)
}

/// Whether a layout of log sizes, one per column and phase by phase, is
/// that of columns which all have the log size `log_size`.
pub open spec fn layout_of(columns: Seq<Vec<Vec<M31>>>, log_size: u32, log_sizes: Seq<Vec<u32>>) -> bool {
    &&& log_sizes.len() == columns.len()
    &&& forall|p: int| 0 <= p < log_sizes.len() ==> phase_layout_of(columns[p]@.len(), log_size, (#[trigger] log_sizes[p])@)
}

/// Whether a phase's layout names `width` columns of log size `log_size`.
pub open spec fn phase_layout_of(width: nat, log_size: u32, log_sizes: Seq<u32>) -> bool {
    &&& log_sizes.len() == width
    &&& forall|c: int| 0 <= c < log_sizes.len() ==> #[trigger] log_sizes[c] == log_size
}

/// The row that stands `offset` rows after `row`, the last row being
/// followed by the first.
pub open spec fn row_at(row: int, offset: int, n_rows: int) -> int {
    (row + offset) % n_rows
}

/// The columns of a trace, phase by phase, all of one length.
#[derive(Debug)]
pub struct Trace {
    pub log_size: u32,
    pub n_rows: usize,
    pub columns: Vec<Vec<Vec<M31>>>,
}

impl Trace {
    /// Every column has `2^log_size` canonical cells.
    pub open spec fn wf(&self) -> bool {
        &&& self.n_rows == pow2(self.log_size as nat)
        &&& columns_ok(self.columns@, self.n_rows as nat)
    }

    /// The cell of a column at a row; zero where there is no such cell.
    pub open spec fn cell(&self, phase: int, column: int, row: int) -> M31 {
        if 0 <= phase < self.columns@.len() && 0 <= column < self.columns@[phase]@.len() && 0 <= row
            < self.columns@[phase]@[column]@.len() {
            self.columns@[phase]@[column]@[row]
        } else {
            M31 { value: 0 }
        }
    }

    /// The cells as seen from a row: by phase, column and row offset.
    pub open spec fn masks_at(&self, row: int) -> spec_fn(int, int, int) -> M31 {
        |phase: int, column: int, offset: int|
            self.cell(phase, column, row_at(row, offset, self.n_rows as int))
    }

    /// The number of columns of each phase.
    pub open spec fn widths(&self) -> Seq<nat> {
        Seq::new(self.columns@.len(), |p: int| self.columns@[p]@.len())
    }

    /// What an evaluator at a row observes before it has read anything.
    pub open spec fn row_state(&self, row: int) -> EvalState<M31, QM31> {
        EvalState {
            cursors: Seq::new(self.columns@.len(), |p: int| 0nat),
            widths: self.widths(),
            masks: self.masks_at(row),
            reads: Seq::empty(),
            constraints: Seq::empty(),
        }
    }

    /// Every cell that an evaluator at a row observes is canonical.
    pub proof fn lemma_cells_canonical(&self, row: int)
        requires
            self.wf(),
        ensures
            forall|p: int, c: int, o: int| (#[trigger] self.row_state(row).mask(p, c, o)).wf(),
    {
        assert forall|p: int, c: int, o: int| (#[trigger] self.row_state(row).mask(p, c, o)).wf() by {
            let r = row_at(row, o, self.n_rows as int);
            if 0 <= p < self.columns@.len() && 0 <= c < self.columns@[p]@.len() && 0 <= r
                < self.columns@[p]@[c]@.len() {
                assert(phase_ok(self.columns@[p]@, self.n_rows as nat));
                assert(column_ok(self.columns@[p]@[c]@, self.n_rows as nat));
                assert(self.columns@[p]@[c]@[r].wf());
            }
        }
    }

    /// The trace with the given columns, if each of them has `2^log_size`
    /// cells, that many rows can be counted, and every cell is canonical.
    pub fn new(log_size: u32, columns: Vec<Vec<Vec<M31>>>) -> (r: Option<Trace>)
        ensures
            r is Some <==> pow2(log_size as nat) <= usize::MAX && columns_ok(
                columns@,
                pow2(log_size as nat),
            ),
            r matches Some(trace) ==> trace.wf() && trace.log_size == log_size && trace.columns
                == columns,
    {
        let mut n_rows: usize = 1;
        let mut k: u32 = 0;
        proof {
            lemma2_to64();
        }
        while k < log_size
            invariant
                k <= log_size,
                n_rows == pow2(k as nat),
            decreases log_size - k,
        {
            proof {
                lemma_pow2_unfold((k + 1) as nat);
                if k + 1 < log_size {
                    lemma_pow2_strictly_increases((k + 1) as nat, log_size as nat);
                }
            }
            if n_rows > usize::MAX / 2 {
                return None;
            }
            n_rows = n_rows * 2;
            k = k + 1;
        }
        let mut p: usize = 0;
        while p < columns.len()
            invariant
                p <= columns@.len(),
                n_rows == pow2(log_size as nat),
                forall|q: int| 0 <= q < p ==> phase_ok((#[trigger] columns@[q])@, n_rows as nat),
            decreases columns@.len() - p,
        {
            if !Self::phase_is_ok(&columns[p], n_rows) {
                return None;
            }
            p = p + 1;
        }
        Some(Trace { log_size, n_rows, columns })
    }

    fn phase_is_ok(phase: &Vec<Vec<M31>>, n_rows: usize) -> (r: bool)
        ensures
            r == phase_ok(phase@, n_rows as nat),
    {
        let mut c: usize = 0;
        while c < phase.len()
            invariant
                c <= phase@.len(),
                forall|d: int| 0 <= d < c ==> column_ok((#[trigger] phase@[d])@, n_rows as nat),
            decreases phase@.len() - c,
        {
            if !Self::column_is_ok(&phase[c], n_rows) {
                return false;
            }
            c = c + 1;
        }
        true
    }

    fn column_is_ok(column: &Vec<M31>, n_rows: usize) -> (r: bool)
        ensures
            r == column_ok(column@, n_rows as nat),
    {
        if column.len() != n_rows {
            return false;
        }
        let mut i: usize = 0;
        while i < column.len()
            invariant
                i <= column@.len(),
                forall|j: int| 0 <= j < i ==> (#[trigger] column@[j]).wf(),
            decreases column@.len() - i,
        {
            if !column[i].is_canonical() {
                return false;
            }
            i = i + 1;
        }
        true
    }

    fn phase_has_layout(width: usize, log_size: u32, layout: &Vec<u32>) -> (r: bool)
        ensures
            r == phase_layout_of(width as nat, log_size, layout@),
    {
        if layout.len() != width {
            return false;
        }
        let mut c: usize = 0;
        while c < layout.len()
            invariant
                c <= layout@.len(),
                forall|d: int| 0 <= d < c ==> #[trigger] layout@[d] == log_size,
            decreases layout@.len() - c,
        {
            if layout[c] != log_size {
                return false;
            }
            c = c + 1;
        }
        true
    }

    /// The number of rows.
    pub fn n_rows(&self) -> (r: usize)
        ensures
            r == self.n_rows,
    {
        self.n_rows
    }

    /// Whether the trace has the columns that a layout of log sizes names:
    /// as many phases, in each as many columns, and every column of the
    /// layout's log size.
    pub fn has_layout(&self, log_sizes: &Vec<Vec<u32>>) -> (r: bool)
        ensures
            r == layout_of(self.columns@, self.log_size, log_sizes@),
    {
        if log_sizes.len() != self.columns.len() {
            return false;
        }
        let mut p: usize = 0;
        while p < log_sizes.len()
            invariant
                p <= log_sizes@.len(),
                log_sizes@.len() == self.columns@.len(),
                forall|q: int| 0 <= q < p ==> phase_layout_of(self.columns@[q]@.len(), self.log_size, (#[trigger] log_sizes@[q])@),
            decreases log_sizes@.len() - p,
        {
            if !Self::phase_has_layout(self.columns[p].len(), self.log_size, &log_sizes[p]) {
                return false;
            }
            p = p + 1;
        }
        true
    }
}

/// The index of the row `offset` rows after `row`.
pub(crate) fn offset_row(row: usize, offset: isize, n_rows: usize) -> (r: usize)
    requires
        row < n_rows,
    ensures
        r == row_at(row as int, offset as int, n_rows as int),
        r < n_rows,
{
    let n = n_rows as u128;
    if offset >= 0 {
        let forth = (offset as u128) % n;
        proof {
            lemma_add_mod_noop_right(row as int, offset as int, n as int);
        }
        ((row as u128 + forth) % n) as usize
    } else {
        let back = ((-(offset as i128)) as u128) % n;
        proof {
            lemma_sub_mod_noop_right(row as int, -(offset as int), n as int);
            lemma_mod_add_multiples_vanish(row as int - back as int, n as int);
        }
        ((row as u128 + n - back) % n) as usize
    }
}

/// An evaluator over the known cells of a trace, at one of its rows. The
/// constraints handed in are kept as the values they have on that row.
pub struct TraceEvaluator<'a> {
    pub trace: &'a Trace,
    pub row: usize,
    pub cursors: Vec<usize>,
    pub reads: Ghost<Seq<MaskRead>>,
    pub constraints: Vec<QM31>,
}

impl<'a> TraceEvaluator<'a> {
    /// An evaluator at a row of the trace that has read no column yet;
    /// none if the trace has no such row.
    pub fn new(trace: &'a Trace, row: usize) -> (r: Option<Self>)
        requires
            trace.wf(),
        ensures
            r is Some <==> row < trace.n_rows,
            r matches Some(eval) ==> {
                &&& eval.wf()
                &&& eval.trace == trace
                &&& eval.row == row
                &&& eval@ == trace.row_state(row as int)
            },
    {
        if row >= trace.n_rows {
            return None;
        }
        let mut cursors: Vec<usize> = Vec::new();
        let mut p: usize = 0;
        while p < trace.columns.len()
            invariant
                p <= trace.columns@.len(),
                cursors@.len() == p,
                forall|q: int| 0 <= q < p ==> #[trigger] cursors@[q] == 0,
            decreases trace.columns@.len() - p,
        {
            cursors.push(0);
            p = p + 1;
        }
        let eval = TraceEvaluator {
            trace,
            row,
            cursors,
            reads: Ghost(Seq::empty()),
            constraints: Vec::new(),
        };
        proof {
            assert(eval@.cursors =~= Seq::new(trace.columns@.len(), |p: int| 0nat));
            assert(eval@.constraints =~= Seq::<QM31>::empty());
        }
        Some(eval)
    }

    /// The values on the row of the constraints handed in so far.
    pub fn constraints(&self) -> (r: &Vec<QM31>)
        ensures
            r@ == self@.constraints,
    {
        &self.constraints
    }
}

impl<'a> EvalAtRow for TraceEvaluator<'a> {
    type F = M31;

    type EF = QM31;

    open spec fn view(&self) -> EvalState<M31, QM31> {
        EvalState {
            cursors: Seq::new(self.cursors@.len(), |p: int| self.cursors@[p] as nat),
            widths: self.trace.widths(),
            masks: self.trace.masks_at(self.row as int),
            reads: self.reads@,
            constraints: self.constraints@,
        }
    }

    open spec fn wf(&self) -> bool {
        &&& self.trace.wf()
        &&& self.row < self.trace.n_rows
        &&& self.cursors@.len() == self.trace.columns@.len()
        &&& forall|p: int|
            0 <= p < self.cursors@.len() ==> #[trigger] self.cursors@[p]
                <= self.trace.columns@[p]@.len()
        &&& forall|k: int| 0 <= k < self.constraints@.len() ==> (#[trigger] self.constraints@[k]).wf()
    }

    open spec fn f_wf(v: M31) -> bool {
        v.wf()
    }

    open spec fn ef_wf(v: QM31) -> bool {
        v.wf()
    }

    open spec fn spec_base_const(v: M31) -> M31 {
        v
    }

    open spec fn spec_base_sub(a: M31, b: M31) -> M31 {
        a.spec_sub(b)
    }

    open spec fn spec_base_times(a: M31, c: QM31) -> QM31 {
        c.spec_scale(a)
    }

    open spec fn spec_ext_const(v: QM31) -> QM31 {
        v
    }

    open spec fn spec_ext_add(a: QM31, b: QM31) -> QM31 {
        a.spec_add(b)
    }

    open spec fn spec_ext_sub(a: QM31, b: QM31) -> QM31 {
        a.spec_sub(b)
    }

    open spec fn spec_ext_mul(a: QM31, b: QM31) -> QM31 {
        a.spec_mul(b)
    }

    open spec fn spec_combine_ef(a: M31, b: M31, c: M31, d: M31) -> QM31 {
        QM31::spec_from_m31_array(a, b, c, d)
    }

    fn next_interaction_mask(&mut self, interaction: usize, offsets: &Vec<isize>) -> (r: Vec<M31>) {
        let ghost s = self@;
        assert(s.cursors[interaction as int] == self.cursors@[interaction as int]);
        assert(s.widths[interaction as int] == self.trace.columns@[interaction as int]@.len());
        let column_index = self.cursors[interaction];
        let width = self.trace.columns[interaction].len();
        let column = &self.trace.columns[interaction][column_index];
        let mut r: Vec<M31> = Vec::new();
        let mut k: usize = 0;
        while k < offsets.len()
            invariant
                k <= offsets@.len(),
                r@.len() == k,
                self.trace.wf(),
                self.row < self.trace.n_rows,
                0 <= interaction < self.trace.columns@.len(),
                0 <= column_index < self.trace.columns@[interaction as int]@.len(),
                column_index < width,
                column == self.trace.columns@[interaction as int]@[column_index as int],
                s.masks == self.trace.masks_at(self.row as int),
                forall|j: int|
                    0 <= j < k ==> (#[trigger] r@[j]).wf() && r@[j] == s.mask(
                        interaction as int,
                        column_index as int,
                        offsets@[j] as int,
                    ),
            decreases offsets@.len() - k,
        {
            let at = offset_row(self.row, offsets[k], self.trace.n_rows);
            r.push(column[at]);
            k = k + 1;
        }
        self.cursors.set(interaction, column_index + 1);
        self.reads = Ghost(s.reads.push(MaskRead { phase: interaction as int, offsets: offsets@ }));
        proof {
            assert(self@.cursors =~= s.read(interaction as int, offsets@).cursors);
            assert(r@ =~= s.next_masks(interaction as int, offsets@));
        }
        r
    }

    fn add_constraint(&mut self, constraint: QM31) {
        let ghost s = self@;
        self.constraints.push(constraint);
        proof {
            assert(self@.cursors =~= s.cursors);
        }
    }

    fn base_const(v: M31) -> (r: M31) {
        v
    }

    fn base_sub(a: M31, b: M31) -> (r: M31) {
        proof {
            lemma_results_canonical(QM31::spec_zero(), QM31::spec_zero(), a, b, 0);
        }
        m31_sub(a, b)
    }

    fn base_times(a: M31, c: QM31) -> (r: QM31) {
        proof {
            lemma_results_canonical(c, c, a, a, 0);
        }
        qm31_scale(c, a)
    }

    fn ext_const(v: QM31) -> (r: QM31) {
        v
    }

    fn ext_add(a: QM31, b: QM31) -> (r: QM31) {
        proof {
            lemma_results_canonical(a, b, M31 { value: 0 }, M31 { value: 0 }, 0);
        }
        qm31_add(a, b)
    }

    fn ext_sub(a: QM31, b: QM31) -> (r: QM31) {
        proof {
            lemma_results_canonical(a, b, M31 { value: 0 }, M31 { value: 0 }, 0);
        }
        qm31_sub(a, b)
    }

    fn ext_mul(a: QM31, b: QM31) -> (r: QM31) {
        proof {
            lemma_results_canonical(a, b, M31 { value: 0 }, M31 { value: 0 }, 0);
        }
        qm31_mul(a, b)
    }

    fn combine_ef(a: M31, b: M31, c: M31, d: M31) -> (r: QM31) {
        QM31::from_m31_array(a, b, c, d)
    }

    fn clone_base(v: &M31) -> (r: M31) {
        *v
    }

    fn clone_ext(v: &QM31) -> (r: QM31) {
        *v
    }
}

} // verus!
