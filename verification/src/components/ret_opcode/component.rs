//! The component of the `ret` opcode.
//!
//! A row of its trace holds one executed `ret`: the program counter, the
//! allocation pointer, the frame pointer, and the two low limbs of each of
//! the memory cells at `fp - 1` and `fp - 2`. The component looks three
//! memory accesses up in the memory relation: the instruction at `pc`,
//! which must be the encoding of `ret`, and the two cells below the frame
//! pointer.

use vstd::prelude::*;
use vstd::arithmetic::power2::{lemma2_to64, lemma_pow2_strictly_increases, lemma_pow2_unfold, pow2};
use crate::channel::{blake2s_mix_felts, blake2s_mix_u64, Channel};
use crate::components::memory::id_to_f252::component::N_M31_IN_FELT252;
use crate::components::memory::id_to_f252::{combine_spec, RelationElements, N_ELEMENTS};
use crate::constraint_framework::logup::{boundary_constraint, step_constraint, Fraction, LogupAtRow};
use crate::constraint_framework::{
    extension_mask, next_trace_mask, EvalAtRow, EvalState, MaskRead, CONSTANT_TRACE_IDX,
    INTERACTION_TRACE_IDX, MAIN_TRACE_IDX,
};
use crate::fields::{M31, QM31, SecureField, SECURE_EXTENSION_DEGREE};
use crate::pcs::{layout_view, tree_vec_contents, tree_vec_new};

verus! {

/// The number of main trace columns of the component.
pub const RET_N_TRACE_CELLS: usize = 7;

/// The limbs of the encoding of the `ret` instruction.
pub const RET_INSTRUCTION: [u32; N_M31_IN_FELT252] = [
    510, 447, 511, 495, 511, 91, 130, 0, 0, 0, 0, 0, 0, 0, 0, 0, 0, 0, 0, 0, 0, 0, 0, 0, 0, 0, 0, 0,
];

/// The number of memory accesses that one row looks up.
pub const RET_N_LOOKUPS: usize = 3;

/// Whether `log_size` is the least exponent whose power of two is no less
/// than `n_rows`: the logarithm to base two of `n_rows`, rounded up, and
/// zero for a trace with no row.
pub open spec fn is_log_size(n_rows: nat, log_size: nat) -> bool {
    &&& pow2(log_size) >= n_rows
    &&& log_size > 0 ==> pow2((log_size - 1) as nat) < n_rows
}

/// The log size of a trace of `n_rows` rows.
pub open spec fn log_size_of(n_rows: nat) -> nat {
    choose|log_size: nat| is_log_size(n_rows, log_size)
}

/// A row count has exactly one log size.
pub proof fn lemma_log_size_unique(n_rows: nat, a: nat, b: nat)
    requires
        is_log_size(n_rows, a),
        is_log_size(n_rows, b),
    ensures
        a == b,
{
    if a < b {
        if a < b - 1 {
            lemma_pow2_strictly_increases(a, (b - 1) as nat);
        }
    } else if b < a {
        if b < a - 1 {
            lemma_pow2_strictly_increases(b, (a - 1) as nat);
        }
    }
}

/// A column layout: `n` columns of one log size.
pub open spec fn uniform_columns(n: nat, log_size: u32) -> Seq<u32> {
    Seq::new(n, |i: int| log_size)
}

/// The layout of the component's trace for a log size: seven main
/// columns, three secure interaction columns, one constant column.
pub open spec fn ret_layout(log_size: u32) -> Seq<Seq<u32>> {
    seq![
        uniform_columns(RET_N_TRACE_CELLS as nat, log_size),
        uniform_columns((SECURE_EXTENSION_DEGREE * RET_N_LOOKUPS) as nat, log_size),
        uniform_columns(1, log_size),
    ]
}

fn uniform_log_sizes(n: usize, log_size: u32) -> (r: Vec<u32>)
    ensures
        r@ == uniform_columns(n as nat, log_size),
{
    let mut r: Vec<u32> = Vec::new();
    let mut i: usize = 0;
    while i < n
        invariant
            i <= n,
            r@.len() == i,
            forall|j: int| 0 <= j < i ==> #[trigger] r@[j] == log_size,
        decreases n - i,
    {
        r.push(log_size);
        i = i + 1;
    }
    assert(r@ =~= uniform_columns(n as nat, log_size));
    r
}

/// The public statement of the trace's shape.
#[derive(Clone, Copy, Debug)]
pub struct Claim {
    pub n_rets: usize,
}

impl Claim {
    /// The logarithm to base two of the number of trace rows: that of
    /// `n_rets`, rounded up.
    pub fn log_size(&self) -> (r: u32)
        ensures
            is_log_size(self.n_rets as nat, r as nat),
            r == log_size_of(self.n_rets as nat),
            r <= usize::BITS,
    {
        let n = self.n_rets as u128;
        let mut k: u32 = 0;
        let mut p: u128 = 1;
        proof {
            lemma2_to64();
        }
        while p < n
            invariant
                n == self.n_rets,
                p == pow2(k as nat),
                k <= usize::BITS,
                k > 0 ==> pow2((k - 1) as nat) < n,
                pow2(32) == 0x1_0000_0000,
                pow2(64) == 0x1_0000_0000_0000_0000,
            decreases usize::BITS - k,
        {
            proof {
                if k >= usize::BITS {
                    if k > usize::BITS {
                        lemma_pow2_strictly_increases(usize::BITS as nat, k as nat);
                    }
                    assert(false);
                }
                lemma_pow2_unfold((k + 1) as nat);
            }
            p = p * 2;
            k = k + 1;
        }
        proof {
            assert(is_log_size(self.n_rets as nat, k as nat));
            lemma_log_size_unique(self.n_rets as nat, k as nat, log_size_of(self.n_rets as nat));
        }
        k
    }

    /// Mixes the number of rows into the transcript.
    pub fn mix_into(&self, channel: &mut Channel)
        ensures
            final(channel).digest@ == blake2s_mix_u64(old(channel).digest@, self.n_rets as u64),
    {
        channel.mix_u64(self.n_rets as u64);
    }

    /// The log size of every column of the trace, phase by phase: the
    /// main trace, the interaction trace, the constant trace.
    pub fn column_log_sizes(&self) -> (r: Vec<Vec<u32>>)
        ensures
            r@.len() == 3,
            layout_view(r@) == ret_layout(log_size_of(self.n_rets as nat) as u32),
    {
        let log_size = self.log_size();
        let interaction_0_log_sizes = uniform_log_sizes(RET_N_TRACE_CELLS, log_size);
        let interaction_1_log_sizes = uniform_log_sizes(
            SECURE_EXTENSION_DEGREE * RET_N_LOOKUPS,
            log_size,
        );
        let fixed_log_sizes = uniform_log_sizes(1, log_size);
        let mut r: Vec<Vec<u32>> = Vec::new();
        r.push(interaction_0_log_sizes);
        r.push(interaction_1_log_sizes);
        r.push(fixed_log_sizes);
        assert(layout_view(r@) =~= ret_layout(log_size));
        r
    }

    /// The log size of every column of the trace, tree by tree.
    pub fn log_sizes(&self) -> (r: stwo::core::pcs::TreeVec<Vec<u32>>)
        ensures
            tree_vec_contents(r) == ret_layout(log_size_of(self.n_rets as nat) as u32),
    {
        tree_vec_new(self.column_log_sizes())
    }
}

/// The sum of all lookup terms of the interaction trace.
#[derive(Clone, Copy, Debug)]
pub struct InteractionClaim {
    pub log_size: u32,
    pub claimed_sum: SecureField,
}

impl InteractionClaim {
    /// Mixes the claimed sum into the transcript.
    pub fn mix_into(&self, channel: &mut Channel)
        ensures
            final(channel).digest@ == blake2s_mix_felts(
                old(channel).digest@,
                seq![self.claimed_sum],
            ),
    {
        let felts: Vec<QM31> = vec![self.claimed_sum];
        assert(felts@ =~= seq![self.claimed_sum]);
        channel.mix_felts(&felts);
    }
}

/// The tuple looked up for the instruction fetch: the program counter and
/// the limbs of the `ret` instruction.
pub open spec fn pc_access<E: EvalAtRow>(pc: E::F) -> Seq<E::F> {
    Seq::new(
        N_ELEMENTS as nat,
        |i: int|
            if i == 0 {
                pc
            } else {
                E::spec_base_const(M31::of_int(RET_INSTRUCTION@[i - 1] as int))
            },
    )
}

/// The tuple looked up for the memory cell `back` cells below the frame
/// pointer: its address, its two low limbs, and zero for every other limb.
pub open spec fn frame_access<E: EvalAtRow>(fp: E::F, back: int, limb0: E::F, limb1: E::F) -> Seq<
    E::F,
> {
    Seq::new(
        N_ELEMENTS as nat,
        |i: int|
            if i == 0 {
                E::spec_base_sub(fp, E::spec_base_const(M31::of_int(back)))
            } else if i == 1 {
                limb0
            } else if i == 2 {
                limb1
            } else {
                E::spec_base_const(M31::of_int(0))
            },
    )
}

/// The lookup term of a memory access: one over the combination of the
/// access.
pub open spec fn lookup_fraction<E: EvalAtRow>(coefficients: Seq<QM31>, access: Seq<E::F>) -> Fraction<
    E::EF,
    E::EF,
> {
    Fraction {
        numerator: E::spec_ext_const(QM31::spec_one()),
        denominator: combine_spec::<E>(coefficients, access),
    }
}

/// The constraints of a row with three lookup terms. With `sum0`, `sum1`,
/// `sum2` the running sums in the row's three secure interaction columns,
/// the first two tie `sum0` to zero and `sum1` to `sum0` by the first two
/// terms; the last ties `sum2` to `sum1` and to `sum2` of the row before
/// by the third term.
pub open spec fn row_constraints<E: EvalAtRow>(
    claimed_sum: QM31,
    is_first: E::F,
    sum0: E::EF,
    sum1: E::EF,
    sum2: E::EF,
    sum2_prev_row: E::EF,
    fraction0: Fraction<E::EF, E::EF>,
    fraction1: Fraction<E::EF, E::EF>,
    fraction2: Fraction<E::EF, E::EF>,
) -> Seq<E::EF> {
    seq![
        step_constraint::<E>(E::spec_ext_const(QM31::spec_zero()), sum0, fraction0),
        step_constraint::<E>(sum0, sum1, fraction1),
        boundary_constraint::<E>(claimed_sum, is_first, sum1, sum2, sum2_prev_row, fraction2),
    ]
}

/// The three lookup terms of the row whose seven cells an evaluator in
/// state `s` reads next: the instruction fetch, the cell at `fp - 1`, the
/// cell at `fp - 2`.
pub open spec fn ret_fractions<E: EvalAtRow>(coefficients: Seq<QM31>, s: EvalState<E::F, E::EF>) -> Seq<
    Fraction<E::EF, E::EF>,
> {
    let main = MAIN_TRACE_IDX as int;
    let c = s.cursor(main);
    let fp = s.mask(main, c + 2, 0);
    seq![
        lookup_fraction::<E>(coefficients, pc_access::<E>(s.mask(main, c, 0))),
        lookup_fraction::<E>(
            coefficients,
            frame_access::<E>(fp, 1, s.mask(main, c + 3, 0), s.mask(main, c + 4, 0)),
        ),
        lookup_fraction::<E>(
            coefficients,
            frame_access::<E>(fp, 2, s.mask(main, c + 5, 0), s.mask(main, c + 6, 0)),
        ),
    ]
}

/// The reads of a row, in their order: the first-row flag; the program
/// counter, the allocation pointer, the frame pointer and the two limbs
/// at `fp - 1`; the first running sum; the two limbs at `fp - 2`; the
/// second running sum; the last running sum, on this row and on the row
/// before.
pub open spec fn ret_reads() -> Seq<MaskRead> {
    let here = seq![0isize];
    let here_and_before = seq![0isize, -1isize];
    let constant = MaskRead { phase: CONSTANT_TRACE_IDX as int, offsets: here };
    let main = MaskRead { phase: MAIN_TRACE_IDX as int, offsets: here };
    let sum = MaskRead { phase: INTERACTION_TRACE_IDX as int, offsets: here };
    let last_sum = MaskRead { phase: INTERACTION_TRACE_IDX as int, offsets: here_and_before };
    seq![
        constant, main, main, main, main, main, sum, sum, sum, sum, main, main, sum, sum, sum, sum,
        last_sum, last_sum, last_sum, last_sum,
    ]
}

/// The tuple looked up for the instruction fetch.
pub(crate) fn fetch_cells<E: EvalAtRow>(pc: E::F) -> (r: Vec<E::F>)
    requires
        E::f_wf(pc),
    ensures
        r@ == pc_access::<E>(pc),
        forall|j: int| 0 <= j < r@.len() ==> E::f_wf(#[trigger] r@[j]),
{
    let mut values: Vec<E::F> = Vec::new();
    values.push(pc);
    let mut i: usize = 0;
    while i < N_M31_IN_FELT252
        invariant
            i <= N_M31_IN_FELT252,
            values@.len() == i + 1,
            values@[0] == pc,
            forall|j: int| 0 <= j < values@.len() ==> E::f_wf(#[trigger] values@[j]),
            forall|j: int| 1 <= j <= i ==> #[trigger] values@[j] == pc_access::<E>(pc)[j],
        decreases N_M31_IN_FELT252 - i,
    {
        values.push(E::base_const(M31::from_u32(RET_INSTRUCTION[i])));
        i = i + 1;
    }
    assert(values@ =~= pc_access::<E>(pc));
    values
}

/// The tuple looked up for the memory cell `back` cells below the frame
/// pointer.
pub(crate) fn frame_cells<E: EvalAtRow>(fp: E::F, back: u32, limb0: E::F, limb1: E::F) -> (r: Vec<E::F>)
    requires
        E::f_wf(fp),
        E::f_wf(limb0),
        E::f_wf(limb1),
    ensures
        r@ == frame_access::<E>(fp, back as int, limb0, limb1),
        forall|j: int| 0 <= j < r@.len() ==> E::f_wf(#[trigger] r@[j]),
{
    let mut values: Vec<E::F> = Vec::new();
    values.push(E::base_sub(fp, E::base_const(M31::from_u32(back))));
    values.push(limb0);
    values.push(limb1);
    let mut i: usize = 3;
    while i < N_ELEMENTS
        invariant
            3 <= i <= N_ELEMENTS,
            values@.len() == i,
            forall|j: int| 0 <= j < values@.len() ==> E::f_wf(#[trigger] values@[j]),
            forall|j: int|
                0 <= j < i ==> #[trigger] values@[j] == frame_access::<E>(
                    fp,
                    back as int,
                    limb0,
                    limb1,
                )[j],
        decreases N_ELEMENTS - i,
    {
        values.push(E::base_const(M31::zero()));
        i = i + 1;
    }
    assert(values@ =~= frame_access::<E>(fp, back as int, limb0, limb1));
    values
}

/// The constraints of the component.
#[derive(Clone, Debug)]
pub struct Eval {
    pub log_size: u32,
    pub memory_lookup_elements: RelationElements,
    pub claimed_sum: SecureField,
}

impl Eval {
    pub open spec fn wf(&self) -> bool {
        &&& self.memory_lookup_elements.wf()
        &&& self.claimed_sum.wf()
    }

    pub fn new(
        ret_claim: Claim,
        memory_lookup_elements: RelationElements,
        interaction_claim: InteractionClaim,
    ) -> (r: Self)
        ensures
            r.log_size == log_size_of(ret_claim.n_rets as nat),
            r.memory_lookup_elements == memory_lookup_elements,
            r.claimed_sum == interaction_claim.claimed_sum,
    {
        Eval {
            log_size: ret_claim.log_size(),
            memory_lookup_elements,
            claimed_sum: interaction_claim.claimed_sum,
        }
    }

    pub fn log_size(&self) -> (r: u32)
        ensures
            r == self.log_size,
    {
        self.log_size
    }

    /// The logarithm of the degree for which the composition polynomial
    /// must make room.
    pub fn max_constraint_log_degree_bound(&self) -> (r: u32)
        requires
            self.log_size < u32::MAX,
        ensures
            r == self.log_size + 1,
    {
        self.log_size + 1
    }

    /// The three lookup terms of a row, in the order in which they are
    /// written: the instruction fetch, the cell at `fp - 1`, the cell at
    /// `fp - 2`.
    pub open spec fn fractions<E: EvalAtRow>(&self, s: EvalState<E::F, E::EF>) -> Seq<
        Fraction<E::EF, E::EF>,
    > {
        ret_fractions::<E>(self.memory_lookup_elements@, s)
    }

    /// The three constraints of a row: those of its lookup terms against
    /// the running sums in its three secure interaction columns.
    pub open spec fn constraints<E: EvalAtRow>(&self, s: EvalState<E::F, E::EF>) -> Seq<E::EF> {
        let interaction = INTERACTION_TRACE_IDX as int;
        let constant = CONSTANT_TRACE_IDX as int;
        let c = s.cursor(interaction);
        let fractions = self.fractions::<E>(s);
        row_constraints::<E>(
            self.claimed_sum,
            s.mask(constant, s.cursor(constant), 0),
            extension_mask::<E>(s, interaction, c, 0),
            extension_mask::<E>(s, interaction, c + 4, 0),
            extension_mask::<E>(s, interaction, c + 8, 0),
            extension_mask::<E>(s, interaction, c + 8, -1),
            fractions[0],
            fractions[1],
            fractions[2],
        )
    }

    /// The state in which [`Eval::evaluate`] leaves an evaluator: one
    /// constant column, seven main columns and three secure interaction
    /// columns further, read in the order of [`ret_reads`], with the row's
    /// constraints handed in.
    pub open spec fn evaluated<E: EvalAtRow>(&self, s: EvalState<E::F, E::EF>) -> EvalState<
        E::F,
        E::EF,
    > {
        EvalState {
            cursors: s.cursors.update(
                CONSTANT_TRACE_IDX as int,
                s.cursors[CONSTANT_TRACE_IDX as int] + 1,
            ).update(
                MAIN_TRACE_IDX as int,
                s.cursors[MAIN_TRACE_IDX as int] + RET_N_TRACE_CELLS as nat,
            ).update(
                INTERACTION_TRACE_IDX as int,
                s.cursors[INTERACTION_TRACE_IDX as int] + 12,
            ),
            widths: s.widths,
            masks: s.masks,
            reads: s.reads + ret_reads(),
            constraints: s.constraints + self.constraints::<E>(s),
        }
    }

    /// Whether an evaluator has the columns that one row reads.
    pub open spec fn can_evaluate<E: EvalAtRow>(s: EvalState<E::F, E::EF>) -> bool {
        &&& s.can_read(CONSTANT_TRACE_IDX as int, 1)
        &&& s.can_read(MAIN_TRACE_IDX as int, RET_N_TRACE_CELLS as nat)
        &&& s.can_read(INTERACTION_TRACE_IDX as int, 12)
    }

    /// Evaluates the constraints of the component at the evaluator's row.
    pub fn evaluate<E: EvalAtRow>(&self, eval: E) -> (out: E)
        requires
            self.wf(),
            eval.wf(),
            Self::can_evaluate::<E>(eval@),
        ensures
            out.wf(),
            out@ == self.evaluated::<E>(eval@),
    {
        let ghost s = eval@;
        let mut eval = eval;
        let zero_offset: Vec<isize> = vec![0isize];
        assert(zero_offset@ =~= seq![0isize]);
        let mut cells = eval.next_interaction_mask(CONSTANT_TRACE_IDX, &zero_offset);
        assert(cells@[0] == s.mask(
            CONSTANT_TRACE_IDX as int,
            s.cursor(CONSTANT_TRACE_IDX as int),
            zero_offset@[0] as int,
        ));
        let is_first = cells.pop().unwrap();
        let mut logup = LogupAtRow::<E>::new(INTERACTION_TRACE_IDX, self.claimed_sum, is_first);

        // The instruction fetch.
        let pc = next_trace_mask(&mut eval);
        let values = fetch_cells::<E>(pc);
        let frac = Fraction::new(
            E::ext_const(QM31::one()),
            self.memory_lookup_elements.combine::<E>(&values),
        );
        logup.write_frac(&mut eval, frac);

        let _ap = next_trace_mask(&mut eval);
        let fp = next_trace_mask(&mut eval);

        // The cell at `fp - 1`.
        let fp_minus_one_0 = next_trace_mask(&mut eval);
        let fp_minus_one_1 = next_trace_mask(&mut eval);
        let values = frame_cells::<E>(E::clone_base(&fp), 1, fp_minus_one_0, fp_minus_one_1);
        let frac = Fraction::new(
            E::ext_const(QM31::one()),
            self.memory_lookup_elements.combine::<E>(&values),
        );
        logup.write_frac(&mut eval, frac);

        // The cell at `fp - 2`.
        let fp_minus_two_0 = next_trace_mask(&mut eval);
        let fp_minus_two_1 = next_trace_mask(&mut eval);
        let values = frame_cells::<E>(fp, 2, fp_minus_two_0, fp_minus_two_1);
        let frac = Fraction::new(
            E::ext_const(QM31::one()),
            self.memory_lookup_elements.combine::<E>(&values),
        );
        logup.write_frac(&mut eval, frac);

        logup.finalize(&mut eval);
        proof {
            let t = self.evaluated::<E>(s);
            assert(eval@.cursors =~= t.cursors);
            assert(eval@.reads =~= t.reads);
            assert(eval@.constraints =~= t.constraints);
        }
        eval
    }
}

} // verus!
