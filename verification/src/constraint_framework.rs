//! The row-evaluator capability through which a component states its
//! constraints, once for every way of evaluating them.
//!
//! A component reads the cells of the current row one column after another
//! and hands back constraints that must vanish. Whether a cell is a known
//! field value or a symbolic handle is up to the evaluator: a component is
//! written against [`EvalAtRow`] alone, so every evaluator sees the same
//! reads in the same order and the same constraints.

use vstd::prelude::*;
use crate::fields::{M31, QM31};

pub mod trace;
pub mod expr;
pub mod logup;

verus! {

/// The phase that holds the main trace columns.
pub const MAIN_TRACE_IDX: usize = 0;

/// The phase that holds the columns of the lookup argument.
pub const INTERACTION_TRACE_IDX: usize = 1;

/// The phase that holds the constant columns.
pub const CONSTANT_TRACE_IDX: usize = 2;

/// One read of a column: its phase and the row offsets asked for.
pub struct MaskRead {
    pub phase: int,
    pub offsets: Seq<isize>,
}

/// What can be observed of an evaluator at one row: per phase the next
/// unread column and the number of columns, the cell that stands at each
/// (phase, column, row offset), the reads made so far and the constraints
/// handed in so far, both in their order.
pub struct EvalState<F, EF> {
    pub cursors: Seq<nat>,
    pub widths: Seq<nat>,
    pub masks: spec_fn(int, int, int) -> F,
    pub reads: Seq<MaskRead>,
    pub constraints: Seq<EF>,
}

impl<F, EF> EvalState<F, EF> {
    /// The cell of a column at a row offset.
    pub open spec fn mask(self, phase: int, column: int, offset: int) -> F {
        (self.masks)(phase, column, offset)
    }

    /// Whether `n` more columns of a phase can be read.
    pub open spec fn can_read(self, phase: int, n: nat) -> bool {
        &&& 0 <= phase < self.cursors.len()
        &&& self.cursors.len() == self.widths.len()
        &&& self.cursors[phase] + n <= self.widths[phase]
    }

    /// The next unread column of a phase.
    pub open spec fn cursor(self, phase: int) -> int {
        self.cursors[phase] as int
    }

    /// The state after the next column of a phase was read at the given
    /// offsets.
    pub open spec fn read(self, phase: int, offsets: Seq<isize>) -> Self {
        EvalState {
            cursors: self.cursors.update(phase, self.cursors[phase] + 1),
            widths: self.widths,
            masks: self.masks,
            reads: self.reads.push(MaskRead { phase, offsets }),
            constraints: self.constraints,
        }
    }

    /// The state after the next four columns of a phase were read, each at
    /// the given offsets.
    pub open spec fn read_extension(self, phase: int, offsets: Seq<isize>) -> Self {
        self.read(phase, offsets).read(phase, offsets).read(phase, offsets).read(phase, offsets)
    }

    /// The state after a constraint was handed in.
    pub open spec fn emit(self, constraint: EF) -> Self {
        EvalState {
            cursors: self.cursors,
            widths: self.widths,
            masks: self.masks,
            reads: self.reads,
            constraints: self.constraints.push(constraint),
        }
    }

    /// The cells of the next unread column of a phase, one per offset.
    pub open spec fn next_masks(self, phase: int, offsets: Seq<isize>) -> Seq<F> {
        Seq::new(offsets.len(), |k: int| self.mask(phase, self.cursor(phase), offsets[k] as int))
    }
}

/// An evaluator of expressions at some row.
pub trait EvalAtRow: Sized {
    /// What a trace cell is to this evaluator.
    type F;

    /// What a secure-field combination of cells is to this evaluator.
    type EF;

    spec fn view(&self) -> EvalState<Self::F, Self::EF>;

    /// The evaluator's own invariant.
    spec fn wf(&self) -> bool;

    /// Validity of a cell value.
    spec fn f_wf(v: Self::F) -> bool;

    /// Validity of a secure-field value.
    spec fn ef_wf(v: Self::EF) -> bool;

    /// A base-field constant as a cell value.
    spec fn spec_base_const(v: M31) -> Self::F;

    /// The difference of two cell values.
    spec fn spec_base_sub(a: Self::F, b: Self::F) -> Self::F;

    /// A cell value times a secure-field constant.
    spec fn spec_base_times(a: Self::F, c: QM31) -> Self::EF;

    /// A secure-field constant.
    spec fn spec_ext_const(v: QM31) -> Self::EF;

    spec fn spec_ext_add(a: Self::EF, b: Self::EF) -> Self::EF;

    spec fn spec_ext_sub(a: Self::EF, b: Self::EF) -> Self::EF;

    spec fn spec_ext_mul(a: Self::EF, b: Self::EF) -> Self::EF;

    /// The secure-field value with the four given coordinates.
    spec fn spec_combine_ef(a: Self::F, b: Self::F, c: Self::F, d: Self::F) -> Self::EF;

    /// Reads the next column of a phase at the given row offsets.
    fn next_interaction_mask(&mut self, interaction: usize, offsets: &Vec<isize>) -> (r: Vec<
        Self::F,
    >)
        requires
            old(self).wf(),
            old(self)@.can_read(interaction as int, 1),
        ensures
            final(self).wf(),
            final(self)@ == old(self)@.read(interaction as int, offsets@),
            r@ == old(self)@.next_masks(interaction as int, offsets@),
            forall|k: int| 0 <= k < r@.len() ==> Self::f_wf(#[trigger] r@[k]),
    ;

    /// Hands in a constraint: a value that must vanish on every row.
    fn add_constraint(&mut self, constraint: Self::EF)
        requires
            old(self).wf(),
            Self::ef_wf(constraint),
        ensures
            final(self).wf(),
            final(self)@ == old(self)@.emit(constraint),
    ;

    fn base_const(v: M31) -> (r: Self::F)
        requires
            v.wf(),
        ensures
            r == Self::spec_base_const(v),
            Self::f_wf(r),
    ;

    fn base_sub(a: Self::F, b: Self::F) -> (r: Self::F)
        requires
            Self::f_wf(a),
            Self::f_wf(b),
        ensures
            r == Self::spec_base_sub(a, b),
            Self::f_wf(r),
    ;

    fn base_times(a: Self::F, c: QM31) -> (r: Self::EF)
        requires
            Self::f_wf(a),
            c.wf(),
        ensures
            r == Self::spec_base_times(a, c),
            Self::ef_wf(r),
    ;

    fn ext_const(v: QM31) -> (r: Self::EF)
        requires
            v.wf(),
        ensures
            r == Self::spec_ext_const(v),
            Self::ef_wf(r),
    ;

    fn ext_add(a: Self::EF, b: Self::EF) -> (r: Self::EF)
        requires
            Self::ef_wf(a),
            Self::ef_wf(b),
        ensures
            r == Self::spec_ext_add(a, b),
            Self::ef_wf(r),
    ;

    fn ext_sub(a: Self::EF, b: Self::EF) -> (r: Self::EF)
        requires
            Self::ef_wf(a),
            Self::ef_wf(b),
        ensures
            r == Self::spec_ext_sub(a, b),
            Self::ef_wf(r),
    ;

    fn ext_mul(a: Self::EF, b: Self::EF) -> (r: Self::EF)
        requires
            Self::ef_wf(a),
            Self::ef_wf(b),
        ensures
            r == Self::spec_ext_mul(a, b),
            Self::ef_wf(r),
    ;

    /// Combines four cell values into one secure-field value.
    fn combine_ef(a: Self::F, b: Self::F, c: Self::F, d: Self::F) -> (r: Self::EF)
        requires
            Self::f_wf(a),
            Self::f_wf(b),
            Self::f_wf(c),
            Self::f_wf(d),
        ensures
            r == Self::spec_combine_ef(a, b, c, d),
            Self::ef_wf(r),
    ;

    fn clone_base(v: &Self::F) -> (r: Self::F)
        ensures
            r == *v,
    ;

    fn clone_ext(v: &Self::EF) -> (r: Self::EF)
        ensures
            r == *v,
    ;
}

/// The secure-field value whose coordinates stand in four consecutive
/// columns of a phase, at a row offset.
pub open spec fn extension_mask<E: EvalAtRow>(
    s: EvalState<E::F, E::EF>,
    phase: int,
    column: int,
    offset: int,
) -> E::EF {
    E::spec_combine_ef(
        s.mask(phase, column, offset),
        s.mask(phase, column + 1, offset),
        s.mask(phase, column + 2, offset),
        s.mask(phase, column + 3, offset),
    )
}

/// The secure-field values of the next four unread columns of a phase, one
/// per offset.
pub open spec fn next_extension_masks<E: EvalAtRow>(
    s: EvalState<E::F, E::EF>,
    phase: int,
    offsets: Seq<isize>,
) -> Seq<E::EF> {
    Seq::new(
        offsets.len(),
        |k: int| extension_mask::<E>(s, phase, s.cursor(phase), offsets[k] as int),
    )
}

/// Reads the next column of the main trace at the current row.
pub fn next_trace_mask<E: EvalAtRow>(eval: &mut E) -> (r: E::F)
    requires
        old(eval).wf(),
        old(eval)@.can_read(MAIN_TRACE_IDX as int, 1),
    ensures
        final(eval).wf(),
        final(eval)@ == old(eval)@.read(MAIN_TRACE_IDX as int, seq![0isize]),
        r == old(eval)@.mask(MAIN_TRACE_IDX as int, old(eval)@.cursor(MAIN_TRACE_IDX as int), 0),
        E::f_wf(r),
{
    let offsets: Vec<isize> = vec![0isize];
    assert(offsets@ =~= seq![0isize]);
    let mut cells = eval.next_interaction_mask(MAIN_TRACE_IDX, &offsets);
    assert(cells@[0] == old(eval)@.mask(MAIN_TRACE_IDX as int, old(eval)@.cursor(MAIN_TRACE_IDX as int), offsets@[0] as int));
    cells.pop().unwrap()
}

/// Reads the next four columns of a phase at the given row offsets and
/// combines them, offset by offset, into secure-field values.
pub fn next_extension_interaction_mask<E: EvalAtRow>(
    eval: &mut E,
    interaction: usize,
    offsets: &Vec<isize>,
) -> (r: Vec<E::EF>)
    requires
        old(eval).wf(),
        old(eval)@.can_read(interaction as int, 4),
    ensures
        final(eval).wf(),
        final(eval)@ == old(eval)@.read_extension(interaction as int, offsets@),
        r@ == next_extension_masks::<E>(old(eval)@, interaction as int, offsets@),
        forall|k: int| 0 <= k < r@.len() ==> E::ef_wf(#[trigger] r@[k]),
{
    let ghost s = eval@;
    let ghost phase = interaction as int;
    let ghost column = s.cursor(phase);
    let c0 = eval.next_interaction_mask(interaction, offsets);
    let c1 = eval.next_interaction_mask(interaction, offsets);
    let c2 = eval.next_interaction_mask(interaction, offsets);
    let c3 = eval.next_interaction_mask(interaction, offsets);
    assert(eval@.cursors =~= s.read_extension(phase, offsets@).cursors);
    let mut r: Vec<E::EF> = Vec::new();
    let mut k: usize = 0;
    while k < offsets.len()
        invariant
            k <= offsets@.len(),
            r@.len() == k,
            c0@.len() == offsets@.len(),
            c1@.len() == offsets@.len(),
            c2@.len() == offsets@.len(),
            c3@.len() == offsets@.len(),
            forall|j: int| 0 <= j < offsets@.len() ==> E::f_wf(#[trigger] c0@[j]) && c0@[j] == s.mask(phase, column, offsets@[j] as int),
            forall|j: int| 0 <= j < offsets@.len() ==> E::f_wf(#[trigger] c1@[j]) && c1@[j] == s.mask(phase, column + 1, offsets@[j] as int),
            forall|j: int| 0 <= j < offsets@.len() ==> E::f_wf(#[trigger] c2@[j]) && c2@[j] == s.mask(phase, column + 2, offsets@[j] as int),
            forall|j: int| 0 <= j < offsets@.len() ==> E::f_wf(#[trigger] c3@[j]) && c3@[j] == s.mask(phase, column + 3, offsets@[j] as int),
            forall|j: int| 0 <= j < k ==> E::ef_wf(#[trigger] r@[j]) && r@[j] == extension_mask::<E>(s, phase, column, offsets@[j] as int),
        decreases offsets@.len() - k,
    {
        let v = E::combine_ef(
            E::clone_base(&c0[k]),
            E::clone_base(&c1[k]),
            E::clone_base(&c2[k]),
            E::clone_base(&c3[k]),
        );
        r.push(v);
        k = k + 1;
    }
    assert(r@ =~= next_extension_masks::<E>(s, phase, offsets@));
    r
}

} // verus!
