//! Evaluation over symbolic handles: every cell stands for its column, and
//! the constraints handed in are kept as expressions over the columns.

use vstd::prelude::*;
use crate::constraint_framework::trace::{offset_row, Trace};
use crate::constraint_framework::{EvalAtRow, EvalState, MaskRead};
use crate::fields::{
    lemma_results_canonical, m31_sub, qm31_add, qm31_mul, qm31_scale, qm31_sub, M31, QM31,
};

verus! {

/// An expression over the cells of a row, with a base-field value.
#[derive(Debug, PartialEq, Eq)]
pub enum BaseExpr {
    /// The cell of a column at a row offset.
    Col { interaction: usize, column: usize, offset: isize },
    Const(M31),
    Sub(Box<BaseExpr>, Box<BaseExpr>),
}

/// An expression over the cells of a row, with a secure-field value.
#[derive(Debug, PartialEq, Eq)]
pub enum ExtExpr {
    /// The secure-field value with the four given coordinates.
    SecureCol(Box<BaseExpr>, Box<BaseExpr>, Box<BaseExpr>, Box<BaseExpr>),
    Const(QM31),
    /// A base-field expression times a secure-field constant.
    Scale(Box<BaseExpr>, QM31),
    Add(Box<ExtExpr>, Box<ExtExpr>),
    Sub(Box<ExtExpr>, Box<ExtExpr>),
    Mul(Box<ExtExpr>, Box<ExtExpr>),
}

/// The cells of a row as handles: each stands for its own column.
pub open spec fn column_masks() -> spec_fn(int, int, int) -> BaseExpr {
    |phase: int, column: int, offset: int|
        BaseExpr::Col {
            interaction: phase as usize,
            column: column as usize,
            offset: offset as isize,
        }
}

impl BaseExpr {
    /// Every constant of the expression is canonical.
    pub open spec fn wf(self) -> bool
        decreases self,
    {
        match self {
            BaseExpr::Col { .. } => true,
            BaseExpr::Const(v) => v.wf(),
            BaseExpr::Sub(a, b) => (*a).wf() && (*b).wf(),
        }
    }

    /// The value of the expression where the cells have the given values.
    pub open spec fn value(self, masks: spec_fn(int, int, int) -> M31) -> M31
        decreases self,
    {
        match self {
            BaseExpr::Col { interaction, column, offset } => masks(
                interaction as int,
                column as int,
                offset as int,
            ),
            BaseExpr::Const(v) => v,
            BaseExpr::Sub(a, b) => (*a).value(masks).spec_sub((*b).value(masks)),
        }
    }

    /// The value of a well-formed expression is canonical where the cells
    /// are.
    pub proof fn lemma_value_canonical(self, masks: spec_fn(int, int, int) -> M31)
        requires
            self.wf(),
            forall|p: int, c: int, o: int| (#[trigger] masks(p, c, o)).wf(),
        ensures
            self.value(masks).wf(),
        decreases self,
    {
        match self {
            BaseExpr::Col { .. } => {},
            BaseExpr::Const(v) => {},
            BaseExpr::Sub(a, b) => {
                (*a).lemma_value_canonical(masks);
                (*b).lemma_value_canonical(masks);
                lemma_results_canonical(
                    QM31::spec_zero(),
                    QM31::spec_zero(),
                    (*a).value(masks),
                    (*b).value(masks),
                    0,
                );
            },
        }
    }

    /// A copy of the expression.
    pub fn dup(&self) -> (r: BaseExpr)
        ensures
            r == *self,
        decreases *self,
    {
        match self {
            BaseExpr::Col { interaction, column, offset } => BaseExpr::Col {
                interaction: *interaction,
                column: *column,
                offset: *offset,
            },
            BaseExpr::Const(v) => BaseExpr::Const(*v),
            BaseExpr::Sub(a, b) => BaseExpr::Sub(Box::new(a.dup()), Box::new(b.dup())),
        }
    }

    /// Evaluates the expression at a row of a trace.
    pub fn evaluate(&self, trace: &Trace, row: usize) -> (r: M31)
        requires
            self.wf(),
            trace.wf(),
            row < trace.n_rows,
        ensures
            r == self.value(trace.masks_at(row as int)),
            r.wf(),
        decreases *self,
    {
        match self {
            BaseExpr::Col { interaction, column, offset } => {
                let at = offset_row(row, *offset, trace.n_rows);
                if *interaction < trace.columns.len() && *column
                    < trace.columns[*interaction].len() {
                    trace.columns[*interaction][*column][at]
                } else {
                    M31::zero()
                }
            },
            BaseExpr::Const(v) => *v,
            BaseExpr::Sub(a, b) => {
                let x = a.evaluate(trace, row);
                let y = b.evaluate(trace, row);
                proof {
                    lemma_results_canonical(QM31::spec_zero(), QM31::spec_zero(), x, y, 0);
                }
                m31_sub(x, y)
            },
        }
    }
}

impl ExtExpr {
    /// Every constant of the expression is canonical.
    pub open spec fn wf(self) -> bool
        decreases self,
    {
        match self {
            ExtExpr::SecureCol(a, b, c, d) => (*a).wf() && (*b).wf() && (*c).wf() && (*d).wf(),
            ExtExpr::Const(v) => v.wf(),
            ExtExpr::Scale(a, c) => (*a).wf() && c.wf(),
            ExtExpr::Add(a, b) => (*a).wf() && (*b).wf(),
            ExtExpr::Sub(a, b) => (*a).wf() && (*b).wf(),
            ExtExpr::Mul(a, b) => (*a).wf() && (*b).wf(),
        }
    }

    /// The value of the expression where the cells have the given values.
    pub open spec fn value(self, masks: spec_fn(int, int, int) -> M31) -> QM31
        decreases self,
    {
        match self {
            ExtExpr::SecureCol(a, b, c, d) => QM31::spec_from_m31_array(
                (*a).value(masks),
                (*b).value(masks),
                (*c).value(masks),
                (*d).value(masks),
            ),
            ExtExpr::Const(v) => v,
            ExtExpr::Scale(a, c) => c.spec_scale((*a).value(masks)),
            ExtExpr::Add(a, b) => (*a).value(masks).spec_add((*b).value(masks)),
            ExtExpr::Sub(a, b) => (*a).value(masks).spec_sub((*b).value(masks)),
            ExtExpr::Mul(a, b) => (*a).value(masks).spec_mul((*b).value(masks)),
        }
    }

    /// The value of a well-formed expression is canonical where the cells
    /// are.
    pub proof fn lemma_value_canonical(self, masks: spec_fn(int, int, int) -> M31)
        requires
            self.wf(),
            forall|p: int, c: int, o: int| (#[trigger] masks(p, c, o)).wf(),
        ensures
            self.value(masks).wf(),
        decreases self,
    {
        match self {
            ExtExpr::SecureCol(a, b, c, d) => {
                (*a).lemma_value_canonical(masks);
                (*b).lemma_value_canonical(masks);
                (*c).lemma_value_canonical(masks);
                (*d).lemma_value_canonical(masks);
            },
            ExtExpr::Const(v) => {},
            ExtExpr::Scale(a, c) => {
                (*a).lemma_value_canonical(masks);
                lemma_results_canonical(c, c, (*a).value(masks), (*a).value(masks), 0);
            },
            ExtExpr::Add(a, b) => {
                (*a).lemma_value_canonical(masks);
                (*b).lemma_value_canonical(masks);
                lemma_results_canonical(
                    (*a).value(masks),
                    (*b).value(masks),
                    M31 { value: 0 },
                    M31 { value: 0 },
                    0,
                );
            },
            ExtExpr::Sub(a, b) => {
                (*a).lemma_value_canonical(masks);
                (*b).lemma_value_canonical(masks);
                lemma_results_canonical(
                    (*a).value(masks),
                    (*b).value(masks),
                    M31 { value: 0 },
                    M31 { value: 0 },
                    0,
                );
            },
            ExtExpr::Mul(a, b) => {
                (*a).lemma_value_canonical(masks);
                (*b).lemma_value_canonical(masks);
                lemma_results_canonical(
                    (*a).value(masks),
                    (*b).value(masks),
                    M31 { value: 0 },
                    M31 { value: 0 },
                    0,
                );
            },
        }
    }

    /// A copy of the expression.
    pub fn dup(&self) -> (r: ExtExpr)
        ensures
            r == *self,
        decreases *self,
    {
        match self {
            ExtExpr::SecureCol(a, b, c, d) => ExtExpr::SecureCol(
                Box::new(a.dup()),
                Box::new(b.dup()),
                Box::new(c.dup()),
                Box::new(d.dup()),
            ),
            ExtExpr::Const(v) => ExtExpr::Const(*v),
            ExtExpr::Scale(a, c) => ExtExpr::Scale(Box::new(a.dup()), *c),
            ExtExpr::Add(a, b) => ExtExpr::Add(Box::new(a.dup()), Box::new(b.dup())),
            ExtExpr::Sub(a, b) => ExtExpr::Sub(Box::new(a.dup()), Box::new(b.dup())),
            ExtExpr::Mul(a, b) => ExtExpr::Mul(Box::new(a.dup()), Box::new(b.dup())),
        }
    }

    /// Evaluates the expression at a row of a trace.
    pub fn evaluate(&self, trace: &Trace, row: usize) -> (r: QM31)
        requires
            self.wf(),
            trace.wf(),
            row < trace.n_rows,
        ensures
            r == self.value(trace.masks_at(row as int)),
            r.wf(),
        decreases *self,
    {
        match self {
            ExtExpr::SecureCol(a, b, c, d) => QM31::from_m31_array(
                a.evaluate(trace, row),
                b.evaluate(trace, row),
                c.evaluate(trace, row),
                d.evaluate(trace, row),
            ),
            ExtExpr::Const(v) => *v,
            ExtExpr::Scale(a, c) => {
                let x = a.evaluate(trace, row);
                proof {
                    lemma_results_canonical(*c, *c, x, x, 0);
                }
                qm31_scale(*c, x)
            },
            ExtExpr::Add(a, b) => {
                let x = a.evaluate(trace, row);
                let y = b.evaluate(trace, row);
                proof {
                    lemma_results_canonical(x, y, M31 { value: 0 }, M31 { value: 0 }, 0);
                }
                qm31_add(x, y)
            },
            ExtExpr::Sub(a, b) => {
                let x = a.evaluate(trace, row);
                let y = b.evaluate(trace, row);
                proof {
                    lemma_results_canonical(x, y, M31 { value: 0 }, M31 { value: 0 }, 0);
                }
                qm31_sub(x, y)
            },
            ExtExpr::Mul(a, b) => {
                let x = a.evaluate(trace, row);
                let y = b.evaluate(trace, row);
                proof {
                    lemma_results_canonical(x, y, M31 { value: 0 }, M31 { value: 0 }, 0);
                }
                qm31_mul(x, y)
            },
        }
    }
}

/// An evaluator that builds the constraints as expressions, and keeps
/// the reads by which their columns were named.
#[derive(Debug)]
pub struct ExprEvaluator {
    pub cursors: Vec<usize>,
    pub widths: Vec<usize>,
    /// The phase and the offsets of every read, in order.
    pub reads: Vec<(usize, Vec<isize>)>,
    pub constraints: Vec<ExtExpr>,
}

/// The reads of a log, in order.
pub open spec fn reads_view(reads: Seq<(usize, Vec<isize>)>) -> Seq<MaskRead> {
    Seq::new(reads.len(), |i: int| MaskRead { phase: reads[i].0 as int, offsets: reads[i].1@ })
}

impl ExprEvaluator {
    /// An evaluator over phases of the given numbers of columns that has
    /// read no column yet.
    pub fn new(widths: Vec<usize>) -> (r: Self)
        ensures
            r.wf(),
            r.widths == widths,
            r@.cursors == Seq::new(widths@.len(), |p: int| 0nat),
            r@.widths == Seq::new(widths@.len(), |p: int| widths@[p] as nat),
            r@.masks == column_masks(),
            r@.reads == Seq::<MaskRead>::empty(),
            r@.constraints == Seq::<ExtExpr>::empty(),
    {
        let mut cursors: Vec<usize> = Vec::new();
        let mut p: usize = 0;
        while p < widths.len()
            invariant
                p <= widths@.len(),
                cursors@.len() == p,
                forall|q: int| 0 <= q < p ==> #[trigger] cursors@[q] == 0,
            decreases widths@.len() - p,
        {
            cursors.push(0);
            p = p + 1;
        }
        let eval = ExprEvaluator { cursors, widths, reads: Vec::new(), constraints: Vec::new() };
        proof {
            assert(eval@.cursors =~= Seq::new(widths@.len(), |p: int| 0nat));
            assert(eval@.reads =~= Seq::<MaskRead>::empty());
            assert(eval@.constraints =~= Seq::<ExtExpr>::empty());
        }
        eval
    }

    /// The reads made so far.
    pub fn reads(&self) -> (r: &Vec<(usize, Vec<isize>)>)
        ensures
            reads_view(r@) == self@.reads,
    {
        &self.reads
    }

    /// The constraints handed in so far.
    pub fn constraints(&self) -> (r: &Vec<ExtExpr>)
        ensures
            r@ == self@.constraints,
    {
        &self.constraints
    }
}

impl EvalAtRow for ExprEvaluator {
    type F = BaseExpr;

    type EF = ExtExpr;

    open spec fn view(&self) -> EvalState<BaseExpr, ExtExpr> {
        EvalState {
            cursors: Seq::new(self.cursors@.len(), |p: int| self.cursors@[p] as nat),
            widths: Seq::new(self.widths@.len(), |p: int| self.widths@[p] as nat),
            masks: column_masks(),
            reads: reads_view(self.reads@),
            constraints: self.constraints@,
        }
    }

    open spec fn wf(&self) -> bool {
        &&& self.cursors@.len() == self.widths@.len()
        &&& forall|p: int|
            0 <= p < self.cursors@.len() ==> #[trigger] self.cursors@[p] <= self.widths@[p]
        &&& forall|k: int| 0 <= k < self.constraints@.len() ==> (#[trigger] self.constraints@[k]).wf()
    }

    open spec fn f_wf(v: BaseExpr) -> bool {
        v.wf()
    }

    open spec fn ef_wf(v: ExtExpr) -> bool {
        v.wf()
    }

    open spec fn spec_base_const(v: M31) -> BaseExpr {
        BaseExpr::Const(v)
    }

    open spec fn spec_base_sub(a: BaseExpr, b: BaseExpr) -> BaseExpr {
        BaseExpr::Sub(Box::new(a), Box::new(b))
    }

    open spec fn spec_base_times(a: BaseExpr, c: QM31) -> ExtExpr {
        ExtExpr::Scale(Box::new(a), c)
    }

    open spec fn spec_ext_const(v: QM31) -> ExtExpr {
        ExtExpr::Const(v)
    }

    open spec fn spec_ext_add(a: ExtExpr, b: ExtExpr) -> ExtExpr {
        ExtExpr::Add(Box::new(a), Box::new(b))
    }

    open spec fn spec_ext_sub(a: ExtExpr, b: ExtExpr) -> ExtExpr {
        ExtExpr::Sub(Box::new(a), Box::new(b))
    }

    open spec fn spec_ext_mul(a: ExtExpr, b: ExtExpr) -> ExtExpr {
        ExtExpr::Mul(Box::new(a), Box::new(b))
    }

    open spec fn spec_combine_ef(a: BaseExpr, b: BaseExpr, c: BaseExpr, d: BaseExpr) -> ExtExpr {
        ExtExpr::SecureCol(Box::new(a), Box::new(b), Box::new(c), Box::new(d))
    }

    fn next_interaction_mask(&mut self, interaction: usize, offsets: &Vec<isize>) -> (r: Vec<
        BaseExpr,
    >) {
        let ghost s = self@;
        assert(s.cursors[interaction as int] == self.cursors@[interaction as int]);
        assert(s.widths[interaction as int] == self.widths@[interaction as int]);
        let column = self.cursors[interaction];
        let mut r: Vec<BaseExpr> = Vec::new();
        let mut asked: Vec<isize> = Vec::new();
        let mut k: usize = 0;
        while k < offsets.len()
            invariant
                k <= offsets@.len(),
                r@.len() == k,
                asked@ == offsets@.take(k as int),
                s.masks == column_masks(),
                forall|j: int|
                    0 <= j < k ==> (#[trigger] r@[j]).wf() && r@[j] == s.mask(
                        interaction as int,
                        column as int,
                        offsets@[j] as int,
                    ),
            decreases offsets@.len() - k,
        {
            r.push(BaseExpr::Col { interaction, column, offset: offsets[k] });
            asked.push(offsets[k]);
            assert(asked@ =~= offsets@.take(k + 1));
            k = k + 1;
        }
        assert(asked@ =~= offsets@);
        self.cursors.set(interaction, column + 1);
        self.reads.push((interaction, asked));
        proof {
            assert(self@.reads =~= s.reads.push(
                MaskRead { phase: interaction as int, offsets: offsets@ },
            ));
            assert(self@.cursors =~= s.read(interaction as int, offsets@).cursors);
            assert(r@ =~= s.next_masks(interaction as int, offsets@));
        }
        r
    }

    fn add_constraint(&mut self, constraint: ExtExpr) {
        let ghost s = self@;
        self.constraints.push(constraint);
        proof {
            assert(self@.cursors =~= s.cursors);
            assert(self@.reads =~= s.reads);
        }
    }

    fn base_const(v: M31) -> (r: BaseExpr) {
        BaseExpr::Const(v)
    }

    fn base_sub(a: BaseExpr, b: BaseExpr) -> (r: BaseExpr) {
        BaseExpr::Sub(Box::new(a), Box::new(b))
    }

    fn base_times(a: BaseExpr, c: QM31) -> (r: ExtExpr) {
        ExtExpr::Scale(Box::new(a), c)
    }

    fn ext_const(v: QM31) -> (r: ExtExpr) {
        ExtExpr::Const(v)
    }

    fn ext_add(a: ExtExpr, b: ExtExpr) -> (r: ExtExpr) {
        ExtExpr::Add(Box::new(a), Box::new(b))
    }

    fn ext_sub(a: ExtExpr, b: ExtExpr) -> (r: ExtExpr) {
        ExtExpr::Sub(Box::new(a), Box::new(b))
    }

    fn ext_mul(a: ExtExpr, b: ExtExpr) -> (r: ExtExpr) {
        ExtExpr::Mul(Box::new(a), Box::new(b))
    }

    fn combine_ef(a: BaseExpr, b: BaseExpr, c: BaseExpr, d: BaseExpr) -> (r: ExtExpr) {
        ExtExpr::SecureCol(Box::new(a), Box::new(b), Box::new(c), Box::new(d))
    }

    fn clone_base(v: &BaseExpr) -> (r: BaseExpr) {
        v.dup()
    }

    fn clone_ext(v: &ExtExpr) -> (r: ExtExpr) {
        v.dup()
    }
}

} // verus!
