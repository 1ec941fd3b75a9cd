//! The component states the same constraints to every evaluator: what it
//! hands to the symbolic evaluator has, on every row, the value of what it
//! hands to the evaluator of known values.

use vstd::prelude::*;
use crate::components::memory::id_to_f252::combine_spec;
use crate::components::ret_opcode::component::{
    frame_access, lookup_fraction, pc_access, row_constraints, Eval,
};
use crate::constraint_framework::expr::{column_masks, BaseExpr, ExprEvaluator, ExtExpr};
use crate::constraint_framework::trace::TraceEvaluator;
use crate::constraint_framework::logup::{boundary_constraint, step_constraint, Fraction};
use crate::constraint_framework::{
    extension_mask, EvalState, CONSTANT_TRACE_IDX, INTERACTION_TRACE_IDX, MAIN_TRACE_IDX,
};
use crate::fields::{M31, QM31};

verus! {

/// Where every symbolic cell value has the value of the known one, the
/// symbolic combination has the value of the known combination.
pub proof fn lemma_combine_value<'a>(
    coefficients: Seq<QM31>,
    symbolic: Seq<BaseExpr>,
    known: Seq<M31>,
    masks: spec_fn(int, int, int) -> M31,
)
    requires
        symbolic.len() == known.len(),
        forall|i: int| 0 <= i < symbolic.len() ==> (#[trigger] symbolic[i]).value(masks) == known[i],
    ensures
        combine_spec::<ExprEvaluator>(coefficients, symbolic).value(masks) == combine_spec::<
            TraceEvaluator<'a>,
        >(coefficients, known),
    decreases symbolic.len(),
{
    reveal_with_fuel(ExtExpr::value, 3);
    if symbolic.len() > 0 {
        lemma_combine_value(
            coefficients.drop_last(),
            symbolic.drop_last(),
            known.drop_last(),
            masks,
        );
        assert(symbolic.last().value(masks) == known.last());
    }
}

/// Whether the columns that a row reads can be named by handles.
pub open spec fn handles_in_range(cursors: Seq<nat>) -> bool {
    &&& cursors.len() > CONSTANT_TRACE_IDX
    &&& cursors[MAIN_TRACE_IDX as int] + 7 <= usize::MAX
    &&& cursors[INTERACTION_TRACE_IDX as int] + 12 <= usize::MAX
    &&& cursors[CONSTANT_TRACE_IDX as int] + 1 <= usize::MAX
}

/// A column handle within the range of the machine's integers has the
/// value of the cell that it stands for.
pub proof fn lemma_mask_value(
    symbolic: EvalState<BaseExpr, ExtExpr>,
    known: EvalState<M31, QM31>,
    phase: int,
    column: int,
    offset: int,
)
    requires
        symbolic.masks == column_masks(),
        0 <= phase <= usize::MAX,
        0 <= column <= usize::MAX,
        isize::MIN <= offset <= isize::MAX,
    ensures
        symbolic.mask(phase, column, offset).value(known.masks) == known.mask(phase, column, offset),
{
}

/// Four consecutive column handles, combined, have the value of the cells
/// combined.
pub proof fn lemma_extension_mask_value<'a>(
    symbolic: EvalState<BaseExpr, ExtExpr>,
    known: EvalState<M31, QM31>,
    phase: int,
    column: int,
    offset: int,
)
    requires
        symbolic.masks == column_masks(),
        0 <= phase <= usize::MAX,
        0 <= column,
        column + 3 <= usize::MAX,
        isize::MIN <= offset <= isize::MAX,
    ensures
        extension_mask::<ExprEvaluator>(symbolic, phase, column, offset).value(known.masks)
            == extension_mask::<TraceEvaluator<'a>>(known, phase, column, offset),
{
    reveal_with_fuel(ExtExpr::value, 2);
    lemma_mask_value(symbolic, known, phase, column, offset);
    lemma_mask_value(symbolic, known, phase, column + 1, offset);
    lemma_mask_value(symbolic, known, phase, column + 2, offset);
    lemma_mask_value(symbolic, known, phase, column + 3, offset);
}

/// The instruction fetch as expressions has the values of the fetch.
pub proof fn lemma_pc_access_value<'a>(pc_s: BaseExpr, pc_k: M31, masks: spec_fn(int, int, int) -> M31)
    requires
        pc_s.value(masks) == pc_k,
    ensures
        pc_access::<ExprEvaluator>(pc_s).len() == pc_access::<TraceEvaluator<'a>>(pc_k).len(),
        forall|i: int|
            0 <= i < pc_access::<ExprEvaluator>(pc_s).len() ==> (#[trigger] pc_access::<
                ExprEvaluator,
            >(pc_s)[i]).value(masks) == pc_access::<TraceEvaluator<'a>>(pc_k)[i],
{
    reveal_with_fuel(BaseExpr::value, 2);
}

/// A frame access as expressions has the values of the access.
pub proof fn lemma_frame_access_value<'a>(
    fp_s: BaseExpr,
    limb0_s: BaseExpr,
    limb1_s: BaseExpr,
    fp_k: M31,
    limb0_k: M31,
    limb1_k: M31,
    back: int,
    masks: spec_fn(int, int, int) -> M31,
)
    requires
        fp_s.value(masks) == fp_k,
        limb0_s.value(masks) == limb0_k,
        limb1_s.value(masks) == limb1_k,
    ensures
        frame_access::<ExprEvaluator>(fp_s, back, limb0_s, limb1_s).len() == frame_access::<
            TraceEvaluator<'a>,
        >(fp_k, back, limb0_k, limb1_k).len(),
        forall|i: int|
            0 <= i < frame_access::<ExprEvaluator>(fp_s, back, limb0_s, limb1_s).len()
                ==> (#[trigger] frame_access::<ExprEvaluator>(fp_s, back, limb0_s, limb1_s)[i]).value(
                masks,
            ) == frame_access::<TraceEvaluator<'a>>(fp_k, back, limb0_k, limb1_k)[i],
{
    reveal_with_fuel(BaseExpr::value, 3);
}

/// A step constraint over expressions has the value of the step
/// constraint over their values.
pub proof fn lemma_step_value<'a>(
    prev_s: ExtExpr,
    cur_s: ExtExpr,
    fraction_s: Fraction<ExtExpr, ExtExpr>,
    prev_k: QM31,
    cur_k: QM31,
    fraction_k: Fraction<QM31, QM31>,
    masks: spec_fn(int, int, int) -> M31,
)
    requires
        prev_s.value(masks) == prev_k,
        cur_s.value(masks) == cur_k,
        fraction_s.numerator.value(masks) == fraction_k.numerator,
        fraction_s.denominator.value(masks) == fraction_k.denominator,
    ensures
        step_constraint::<ExprEvaluator>(prev_s, cur_s, fraction_s).value(masks)
            == step_constraint::<TraceEvaluator<'a>>(prev_k, cur_k, fraction_k),
{
    reveal_with_fuel(ExtExpr::value, 4);
}

/// A boundary constraint over expressions has the value of the boundary
/// constraint over their values.
pub proof fn lemma_boundary_value<'a>(
    total_sum: QM31,
    is_first_s: BaseExpr,
    prev_col_s: ExtExpr,
    cur_s: ExtExpr,
    prev_row_s: ExtExpr,
    fraction_s: Fraction<ExtExpr, ExtExpr>,
    is_first_k: M31,
    prev_col_k: QM31,
    cur_k: QM31,
    prev_row_k: QM31,
    fraction_k: Fraction<QM31, QM31>,
    masks: spec_fn(int, int, int) -> M31,
)
    requires
        is_first_s.value(masks) == is_first_k,
        prev_col_s.value(masks) == prev_col_k,
        cur_s.value(masks) == cur_k,
        prev_row_s.value(masks) == prev_row_k,
        fraction_s.numerator.value(masks) == fraction_k.numerator,
        fraction_s.denominator.value(masks) == fraction_k.denominator,
    ensures
        boundary_constraint::<ExprEvaluator>(
            total_sum,
            is_first_s,
            prev_col_s,
            cur_s,
            prev_row_s,
            fraction_s,
        ).value(masks) == boundary_constraint::<TraceEvaluator<'a>>(
            total_sum,
            is_first_k,
            prev_col_k,
            cur_k,
            prev_row_k,
            fraction_k,
        ),
{
    reveal_with_fuel(ExtExpr::value, 6);
}

/// The lookup term of an access as expressions has the value of the
/// lookup term of the access.
pub proof fn lemma_lookup_fraction_value<'a>(
    coefficients: Seq<QM31>,
    symbolic: Seq<BaseExpr>,
    known: Seq<M31>,
    masks: spec_fn(int, int, int) -> M31,
)
    requires
        symbolic.len() == known.len(),
        forall|i: int| 0 <= i < symbolic.len() ==> (#[trigger] symbolic[i]).value(masks) == known[i],
    ensures
        lookup_fraction::<ExprEvaluator>(coefficients, symbolic).numerator.value(masks)
            == lookup_fraction::<TraceEvaluator<'a>>(coefficients, known).numerator,
        lookup_fraction::<ExprEvaluator>(coefficients, symbolic).denominator.value(masks)
            == lookup_fraction::<TraceEvaluator<'a>>(coefficients, known).denominator,
{
    lemma_combine_value(coefficients, symbolic, known, masks);
}

/// The constraints of a row over expressions have the values of the
/// constraints over their values.
pub proof fn lemma_row_constraints_value<'a>(
    claimed_sum: QM31,
    is_first_s: BaseExpr,
    sums_s: Seq<ExtExpr>,
    fractions_s: Seq<Fraction<ExtExpr, ExtExpr>>,
    is_first_k: M31,
    sums_k: Seq<QM31>,
    fractions_k: Seq<Fraction<QM31, QM31>>,
    masks: spec_fn(int, int, int) -> M31,
)
    requires
        sums_s.len() == 4,
        sums_k.len() == 4,
        fractions_s.len() == 3,
        fractions_k.len() == 3,
        is_first_s.value(masks) == is_first_k,
        forall|i: int| 0 <= i < 4 ==> (#[trigger] sums_s[i]).value(masks) == sums_k[i],
        forall|i: int|
            0 <= i < 3 ==> (#[trigger] fractions_s[i]).numerator.value(masks)
                == fractions_k[i].numerator && fractions_s[i].denominator.value(masks)
                == fractions_k[i].denominator,
    ensures
        forall|k: int|
            0 <= k < 3 ==> (#[trigger] row_constraints::<ExprEvaluator>(
                claimed_sum,
                is_first_s,
                sums_s[0],
                sums_s[1],
                sums_s[2],
                sums_s[3],
                fractions_s[0],
                fractions_s[1],
                fractions_s[2],
            )[k]).value(masks) == row_constraints::<TraceEvaluator<'a>>(
                claimed_sum,
                is_first_k,
                sums_k[0],
                sums_k[1],
                sums_k[2],
                sums_k[3],
                fractions_k[0],
                fractions_k[1],
                fractions_k[2],
            )[k],
{
    let zero_s = ExtExpr::Const(QM31::spec_zero());
    assert(zero_s.value(masks) == QM31::spec_zero());
    assert(sums_s[0].value(masks) == sums_k[0]);
    assert(sums_s[1].value(masks) == sums_k[1]);
    assert(sums_s[2].value(masks) == sums_k[2]);
    assert(sums_s[3].value(masks) == sums_k[3]);
    assert(fractions_s[0].numerator.value(masks) == fractions_k[0].numerator);
    assert(fractions_s[1].numerator.value(masks) == fractions_k[1].numerator);
    assert(fractions_s[2].numerator.value(masks) == fractions_k[2].numerator);
    lemma_step_value(
        zero_s,
        sums_s[0],
        fractions_s[0],
        QM31::spec_zero(),
        sums_k[0],
        fractions_k[0],
        masks,
    );
    lemma_step_value(sums_s[0], sums_s[1], fractions_s[1], sums_k[0], sums_k[1], fractions_k[1], masks);
    lemma_boundary_value(
        claimed_sum,
        is_first_s,
        sums_s[1],
        sums_s[2],
        sums_s[3],
        fractions_s[2],
        is_first_k,
        sums_k[1],
        sums_k[2],
        sums_k[3],
        fractions_k[2],
        masks,
    );
}

/// The lookup terms of a row as expressions have, where the cells have
/// the given values, the values of the lookup terms of that row.
pub proof fn lemma_fractions_agree<'a>(
    this: Eval,
    symbolic: EvalState<BaseExpr, ExtExpr>,
    known: EvalState<M31, QM31>,
)
    requires
        symbolic.masks == column_masks(),
        symbolic.cursors == known.cursors,
        handles_in_range(known.cursors),
    ensures
        this.fractions::<ExprEvaluator>(symbolic).len() == 3,
        this.fractions::<TraceEvaluator<'a>>(known).len() == 3,
        forall|k: int|
            0 <= k < 3 ==> {
                &&& (#[trigger] this.fractions::<ExprEvaluator>(symbolic)[k]).numerator.value(
                    known.masks,
                ) == this.fractions::<TraceEvaluator<'a>>(known)[k].numerator
                &&& this.fractions::<ExprEvaluator>(symbolic)[k].denominator.value(known.masks)
                    == this.fractions::<TraceEvaluator<'a>>(known)[k].denominator
            },
{
    let masks = known.masks;
    let main = MAIN_TRACE_IDX as int;
    let c = known.cursor(main);
    let coefficients = this.memory_lookup_elements@;
    let pc_s = symbolic.mask(main, c, 0);
    let pc_k = known.mask(main, c, 0);
    let fp_s = symbolic.mask(main, c + 2, 0);
    let fp_k = known.mask(main, c + 2, 0);
    let a0_s = symbolic.mask(main, c + 3, 0);
    let a0_k = known.mask(main, c + 3, 0);
    let a1_s = symbolic.mask(main, c + 4, 0);
    let a1_k = known.mask(main, c + 4, 0);
    let b0_s = symbolic.mask(main, c + 5, 0);
    let b0_k = known.mask(main, c + 5, 0);
    let b1_s = symbolic.mask(main, c + 6, 0);
    let b1_k = known.mask(main, c + 6, 0);
    assert(pc_s.value(masks) == pc_k) by {
        lemma_mask_value(symbolic, known, main, c, 0);
    }
    assert(fp_s.value(masks) == fp_k) by {
        lemma_mask_value(symbolic, known, main, c + 2, 0);
    }
    assert(a0_s.value(masks) == a0_k) by {
        lemma_mask_value(symbolic, known, main, c + 3, 0);
    }
    assert(a1_s.value(masks) == a1_k) by {
        lemma_mask_value(symbolic, known, main, c + 4, 0);
    }
    assert(b0_s.value(masks) == b0_k) by {
        lemma_mask_value(symbolic, known, main, c + 5, 0);
    }
    assert(b1_s.value(masks) == b1_k) by {
        lemma_mask_value(symbolic, known, main, c + 6, 0);
    }
    let f0_s = lookup_fraction::<ExprEvaluator>(coefficients, pc_access::<ExprEvaluator>(pc_s));
    let f0_k = lookup_fraction::<TraceEvaluator<'a>>(coefficients, pc_access::<TraceEvaluator<'a>>(pc_k));
    let f1_s = lookup_fraction::<ExprEvaluator>(
        coefficients,
        frame_access::<ExprEvaluator>(fp_s, 1, a0_s, a1_s),
    );
    let f1_k = lookup_fraction::<TraceEvaluator<'a>>(
        coefficients,
        frame_access::<TraceEvaluator<'a>>(fp_k, 1, a0_k, a1_k),
    );
    let f2_s = lookup_fraction::<ExprEvaluator>(
        coefficients,
        frame_access::<ExprEvaluator>(fp_s, 2, b0_s, b1_s),
    );
    let f2_k = lookup_fraction::<TraceEvaluator<'a>>(
        coefficients,
        frame_access::<TraceEvaluator<'a>>(fp_k, 2, b0_k, b1_k),
    );
    assert(f0_s.numerator.value(masks) == f0_k.numerator && f0_s.denominator.value(masks)
        == f0_k.denominator) by {
        lemma_pc_access_value(pc_s, pc_k, masks);
        lemma_lookup_fraction_value(
            coefficients,
            pc_access::<ExprEvaluator>(pc_s),
            pc_access::<TraceEvaluator<'a>>(pc_k),
            masks,
        );
    }
    assert(f1_s.numerator.value(masks) == f1_k.numerator && f1_s.denominator.value(masks)
        == f1_k.denominator) by {
        lemma_frame_access_value(fp_s, a0_s, a1_s, fp_k, a0_k, a1_k, 1, masks);
        lemma_lookup_fraction_value(
            coefficients,
            frame_access::<ExprEvaluator>(fp_s, 1, a0_s, a1_s),
            frame_access::<TraceEvaluator<'a>>(fp_k, 1, a0_k, a1_k),
            masks,
        );
    }
    assert(f2_s.numerator.value(masks) == f2_k.numerator && f2_s.denominator.value(masks)
        == f2_k.denominator) by {
        lemma_frame_access_value(fp_s, b0_s, b1_s, fp_k, b0_k, b1_k, 2, masks);
        lemma_lookup_fraction_value(
            coefficients,
            frame_access::<ExprEvaluator>(fp_s, 2, b0_s, b1_s),
            frame_access::<TraceEvaluator<'a>>(fp_k, 2, b0_k, b1_k),
            masks,
        );
    }
    let fs = this.fractions::<ExprEvaluator>(symbolic);
    let fk = this.fractions::<TraceEvaluator<'a>>(known);
    assert(fs[0] == f0_s && fs[1] == f1_s && fs[2] == f2_s);
    assert(fk[0] == f0_k && fk[1] == f1_k && fk[2] == f2_k);
}

/// The constraints of a row as expressions have, where the cells have the
/// given values, the values of the constraints of that row.
pub proof fn lemma_constraints_agree<'a>(
    this: Eval,
    symbolic: EvalState<BaseExpr, ExtExpr>,
    known: EvalState<M31, QM31>,
)
    requires
        symbolic.masks == column_masks(),
        symbolic.cursors == known.cursors,
        handles_in_range(known.cursors),
    ensures
        this.constraints::<ExprEvaluator>(symbolic).len() == 3,
        this.constraints::<TraceEvaluator<'a>>(known).len() == 3,
        forall|k: int|
            0 <= k < 3 ==> (#[trigger] this.constraints::<ExprEvaluator>(symbolic)[k]).value(
                known.masks,
            ) == this.constraints::<TraceEvaluator<'a>>(known)[k],
{
    let masks = known.masks;
    let interaction = INTERACTION_TRACE_IDX as int;
    let constant = CONSTANT_TRACE_IDX as int;
    let c = known.cursor(interaction);
    let fs = this.fractions::<ExprEvaluator>(symbolic);
    let fk = this.fractions::<TraceEvaluator<'a>>(known);
    lemma_fractions_agree(this, symbolic, known);
    let is_first_s = symbolic.mask(constant, known.cursor(constant), 0);
    let is_first_k = known.mask(constant, known.cursor(constant), 0);
    assert(is_first_s.value(masks) == is_first_k) by {
        lemma_mask_value(symbolic, known, constant, known.cursor(constant), 0);
    }
    let sums_s = seq![
        extension_mask::<ExprEvaluator>(symbolic, interaction, c, 0),
        extension_mask::<ExprEvaluator>(symbolic, interaction, c + 4, 0),
        extension_mask::<ExprEvaluator>(symbolic, interaction, c + 8, 0),
        extension_mask::<ExprEvaluator>(symbolic, interaction, c + 8, -1),
    ];
    let sums_k = seq![
        extension_mask::<TraceEvaluator<'a>>(known, interaction, c, 0),
        extension_mask::<TraceEvaluator<'a>>(known, interaction, c + 4, 0),
        extension_mask::<TraceEvaluator<'a>>(known, interaction, c + 8, 0),
        extension_mask::<TraceEvaluator<'a>>(known, interaction, c + 8, -1),
    ];
    assert forall|i: int| 0 <= i < 4 implies (#[trigger] sums_s[i]).value(masks) == sums_k[i] by {
        lemma_extension_mask_value(symbolic, known, interaction, c, 0);
        lemma_extension_mask_value(symbolic, known, interaction, c + 4, 0);
        lemma_extension_mask_value(symbolic, known, interaction, c + 8, 0);
        lemma_extension_mask_value(symbolic, known, interaction, c + 8, -1);
    }
    lemma_row_constraints_value(
        this.claimed_sum,
        is_first_s,
        sums_s,
        fs,
        is_first_k,
        sums_k,
        fk,
        masks,
    );
}

} // verus!
