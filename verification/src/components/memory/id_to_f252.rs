//! The relation that ties a memory id to the limbs of its value.

use vstd::prelude::*;
use vstd::arithmetic::div_mod::{lemma_add_mod_noop, lemma_mod_equivalence};
use vstd::arithmetic::mul::lemma_mul_is_distributive_sub;
use crate::constraint_framework::trace::TraceEvaluator;
use crate::constraint_framework::EvalAtRow;
use crate::fields::{lemma_results_canonical, M31, P, QM31};

pub mod component;

verus! {

/// The number of slots of the relation: the id and the limbs of the value.
pub const N_ELEMENTS: usize = 29;

/// The challenge coefficients of the relation, one per slot.
///
/// They are drawn once from the transcript and never change afterwards;
/// every component that looks memory up combines its accesses with the
/// same coefficients.
#[derive(Clone, Debug)]
pub struct RelationElements {
    pub coefficients: Vec<QM31>,
}

/// The combination `sum of coefficients[i] * values[i]` of a tuple of cell
/// values, summed from the first slot on.
pub open spec fn combine_spec<E: EvalAtRow>(coefficients: Seq<QM31>, values: Seq<E::F>) -> E::EF
    decreases values.len(),
{
    if values.len() == 0 {
        E::spec_ext_const(QM31::spec_zero())
    } else {
        E::spec_ext_add(
            combine_spec::<E>(coefficients.drop_last(), values.drop_last()),
            E::spec_base_times(values.last(), coefficients.last()),
        )
    }
}

impl RelationElements {
    pub open spec fn view(&self) -> Seq<QM31> {
        self.coefficients@
    }

    /// There is one canonical coefficient for each slot of the relation.
    pub open spec fn wf(&self) -> bool {
        &&& self@.len() == N_ELEMENTS
        &&& forall|i: int| 0 <= i < self@.len() ==> (#[trigger] self@[i]).wf()
    }

    /// The relation with the given coefficients, if there is one canonical
    /// coefficient per slot.
    pub fn new(coefficients: Vec<QM31>) -> (r: Option<RelationElements>)
        ensures
            r is Some <==> {
                &&& coefficients@.len() == N_ELEMENTS
                &&& forall|i: int| 0 <= i < coefficients@.len() ==> (#[trigger] coefficients@[i]).wf()
            },
            r matches Some(elements) ==> elements.coefficients == coefficients && elements.wf(),
    {
        let elements = RelationElements { coefficients };
        if elements.is_valid() {
            Some(elements)
        } else {
            None
        }
    }

    /// Whether there is one canonical coefficient for each slot.
    pub fn is_valid(&self) -> (r: bool)
        ensures
            r == self.wf(),
    {
        if self.coefficients.len() != N_ELEMENTS {
            return false;
        }
        let mut i: usize = 0;
        while i < self.coefficients.len()
            invariant
                i <= self@.len(),
                forall|j: int| 0 <= j < i ==> (#[trigger] self@[j]).wf(),
            decreases self@.len() - i,
        {
            if !self.coefficients[i].is_canonical() {
                return false;
            }
            i = i + 1;
        }
        true
    }

    /// Collapses a tuple of cell values, one per slot, into one
    /// secure-field value.
    pub fn combine<E: EvalAtRow>(&self, values: &Vec<E::F>) -> (r: E::EF)
        requires
            self.wf(),
            values@.len() == self@.len(),
            forall|i: int| 0 <= i < values@.len() ==> E::f_wf(#[trigger] values@[i]),
        ensures
            r == combine_spec::<E>(self@, values@),
            E::ef_wf(r),
    {
        let mut acc = E::ext_const(QM31::zero());
        let mut i: usize = 0;
        while i < values.len()
            invariant
                i <= values@.len(),
                values@.len() == self@.len(),
                self.wf(),
                forall|j: int| 0 <= j < values@.len() ==> E::f_wf(#[trigger] values@[j]),
                acc == combine_spec::<E>(self@.take(i as int), values@.take(i as int)),
                E::ef_wf(acc),
            decreases values@.len() - i,
        {
            let term = E::base_times(E::clone_base(&values[i]), self.coefficients[i]);
            acc = E::ext_add(acc, term);
            proof {
                assert(self@.take(i + 1).drop_last() =~= self@.take(i as int));
                assert(values@.take(i + 1).drop_last() =~= values@.take(i as int));
            }
            i = i + 1;
        }
        proof {
            assert(self@.take(i as int) =~= self@);
            assert(values@.take(i as int) =~= values@);
        }
        acc
    }
}

/// The combination of canonical values under canonical coefficients is
/// canonical.
pub proof fn lemma_combine_canonical<'a>(coefficients: Seq<QM31>, values: Seq<M31>)
    requires
        coefficients.len() == values.len(),
        forall|i: int| 0 <= i < coefficients.len() ==> (#[trigger] coefficients[i]).wf(),
        forall|i: int| 0 <= i < values.len() ==> (#[trigger] values[i]).wf(),
    ensures
        combine_spec::<TraceEvaluator<'a>>(coefficients, values).wf(),
    decreases values.len(),
{
    if values.len() > 0 {
        lemma_combine_canonical(coefficients.drop_last(), values.drop_last());
        let rest = combine_spec::<TraceEvaluator<'a>>(coefficients.drop_last(), values.drop_last());
        let term = coefficients.last().spec_scale(values.last());
        lemma_results_canonical(coefficients.last(), coefficients.last(), values.last(), values.last(), 0);
        lemma_results_canonical(rest, term, M31 { value: 0 }, M31 { value: 0 }, 0);
    }
}

/// Equal tuples combine to equal values under the same coefficients.
pub proof fn lemma_combine_deterministic<E: EvalAtRow>(
    elements: RelationElements,
    a: Seq<E::F>,
    b: Seq<E::F>,
)
    requires
        a =~= b,
    ensures
        combine_spec::<E>(elements@, a) == combine_spec::<E>(elements@, b),
{
}

/// A coordinate of a secure-field element, counted from zero.
pub open spec fn coordinate(x: QM31, k: int) -> int {
    if k == 0 {
        x.first.real.value as int
    } else if k == 1 {
        x.first.imag.value as int
    } else if k == 2 {
        x.second.real.value as int
    } else {
        x.second.imag.value as int
    }
}

/// The sum over the slots of a coordinate of the coefficient times the
/// value, over the integers.
pub open spec fn weighted_sum(coefficients: Seq<QM31>, values: Seq<M31>, k: int) -> int
    decreases values.len(),
{
    if values.len() == 0 {
        0
    } else {
        weighted_sum(coefficients.drop_last(), values.drop_last(), k) + coordinate(
            coefficients.last(),
            k,
        ) * values.last().value
    }
}

/// Every coordinate of a combination of known values is the residue of
/// the weighted sum of the values, with that coordinate of the
/// coefficients as weights.
pub proof fn lemma_combine_coordinates<'a>(coefficients: Seq<QM31>, values: Seq<M31>, k: int)
    requires
        0 <= k < 4,
    ensures
        coordinate(combine_spec::<TraceEvaluator<'a>>(coefficients, values), k) == weighted_sum(
            coefficients,
            values,
            k,
        ) % (P as int),
    decreases values.len(),
{
    reveal(M31::spec_add);
    reveal(M31::spec_mul);
    if values.len() > 0 {
        lemma_combine_coordinates(coefficients.drop_last(), values.drop_last(), k);
        let rest = weighted_sum(coefficients.drop_last(), values.drop_last(), k);
        let term = coordinate(coefficients.last(), k) * values.last().value;
        lemma_add_mod_noop(rest, term, P as int);
    }
}

/// The weighted sums of two tuples that differ in one slot only differ by
/// the weight of that slot times the difference of the two values.
pub proof fn lemma_weighted_sum_one_slot(
    coefficients: Seq<QM31>,
    a: Seq<M31>,
    b: Seq<M31>,
    slot: int,
    k: int,
)
    requires
        a.len() == coefficients.len(),
        b.len() == coefficients.len(),
        0 <= slot < a.len(),
        forall|i: int| 0 <= i < a.len() && i != slot ==> a[i] == b[i],
    ensures
        weighted_sum(coefficients, a, k) - weighted_sum(coefficients, b, k) == coordinate(
            coefficients[slot],
            k,
        ) * (a[slot].value - b[slot].value),
    decreases a.len(),
{
    let last = a.len() - 1;
    if slot == last {
        assert(a.drop_last() =~= b.drop_last());
        lemma_mul_is_distributive_sub(
            coordinate(coefficients[slot], k),
            a[slot].value as int,
            b[slot].value as int,
        );
    } else {
        assert(a[last] == b[last]);
        assert(coefficients.drop_last()[slot] == coefficients[slot]);
        assert(a.drop_last()[slot] == a[slot]);
        assert(b.drop_last()[slot] == b[slot]);
        lemma_weighted_sum_one_slot(coefficients.drop_last(), a.drop_last(), b.drop_last(), slot, k);
    }
}

/// Two tuples of known values that differ in one slot only combine to the
/// same value exactly when, in each coordinate, the coefficient of that
/// slot times the difference of the two values is a multiple of the
/// modulus.
pub proof fn lemma_combine_one_slot<'a>(
    elements: RelationElements,
    a: Seq<M31>,
    b: Seq<M31>,
    slot: int,
)
    requires
        a.len() == elements@.len(),
        b.len() == elements@.len(),
        0 <= slot < a.len(),
        forall|i: int| 0 <= i < a.len() && i != slot ==> a[i] == b[i],
    ensures
        combine_spec::<TraceEvaluator<'a>>(elements@, a) == combine_spec::<TraceEvaluator<'a>>(
            elements@,
            b,
        ) <==> forall|k: int|
            0 <= k < 4 ==> (#[trigger] coordinate(elements@[slot], k) * (a[slot].value
                - b[slot].value)) % (P as int) == 0,
{
    let x = combine_spec::<TraceEvaluator<'a>>(elements@, a);
    let y = combine_spec::<TraceEvaluator<'a>>(elements@, b);
    let d = a[slot].value - b[slot].value;
    assert forall|k: int| 0 <= k < 4 implies (coordinate(x, k) == coordinate(y, k) <==> (
    #[trigger] coordinate(elements@[slot], k) * d) % (P as int) == 0) by {
        lemma_combine_coordinates(elements@, a, k);
        lemma_combine_coordinates(elements@, b, k);
        lemma_weighted_sum_one_slot(elements@, a, b, slot, k);
        lemma_mod_equivalence(
            weighted_sum(elements@, a, k),
            weighted_sum(elements@, b, k),
            P as int,
        );
    }
    if x == y {
        assert forall|k: int| 0 <= k < 4 implies (#[trigger] coordinate(elements@[slot], k) * d) % (
        P as int) == 0 by {
            assert(coordinate(x, k) == coordinate(y, k));
        }
    }
    if forall|k: int| 0 <= k < 4 ==> (#[trigger] coordinate(elements@[slot], k) * d) % (P as int) == 0 {
        assert((coordinate(elements@[slot], 0) * d) % (P as int) == 0);
        assert((coordinate(elements@[slot], 1) * d) % (P as int) == 0);
        assert((coordinate(elements@[slot], 2) * d) % (P as int) == 0);
        assert((coordinate(elements@[slot], 3) * d) % (P as int) == 0);
        assert(coordinate(x, 0) == coordinate(y, 0));
        assert(coordinate(x, 1) == coordinate(y, 1));
        assert(coordinate(x, 2) == coordinate(y, 2));
        assert(coordinate(x, 3) == coordinate(y, 3));
    }
}

} // verus!
