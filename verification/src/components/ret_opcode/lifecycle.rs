//! The order in which a component comes to be.
//!
//! The soundness of the lookup argument rests on an order of events: the
//! shape of the trace is mixed into the transcript before the challenges
//! of the relation are drawn, and the claimed sum is mixed before the
//! constraints are evaluated against it. Each stage is a type of its own,
//! made only from the stage before it, so that no step can be left out or
//! taken early.

use vstd::prelude::*;
use crate::channel::{blake2s_mix_felts, blake2s_mix_u64, Channel};
use crate::components::memory::id_to_f252::RelationElements;
use crate::components::ret_opcode::component::{log_size_of, Claim, Eval, InteractionClaim};
use crate::constraint_framework::EvalAtRow;
use crate::fields::QM31;

verus! {

/// A component whose claim was made and not yet mixed into the transcript.
pub struct Constructed {
    claim: Claim,
}

/// A component whose claim was mixed into the transcript: the main trace
/// is committed and the challenges of the relation may be drawn.
pub struct ShapeCommitted {
    claim: Claim,
}

/// A component that was given the challenges of the relation: the
/// interaction trace may be generated.
pub struct RelationBound {
    claim: Claim,
    elements: RelationElements,
}

/// A component that was given the sum of its lookup terms, not yet mixed
/// into the transcript.
pub struct InteractionGenerated {
    claim: Claim,
    elements: RelationElements,
    interaction_claim: InteractionClaim,
}

/// A component whose claimed sum was mixed into the transcript.
pub struct ClaimMixed {
    claim: Claim,
    elements: RelationElements,
    interaction_claim: InteractionClaim,
}

/// A component whose constraints can be evaluated, on any row and any
/// number of times.
pub struct EvaluatorReady {
    eval: Eval,
}

impl Constructed {
    pub closed spec fn claim(&self) -> Claim {
        self.claim
    }

    pub fn new(claim: Claim) -> (r: Constructed)
        ensures
            r.claim() == claim,
    {
        Constructed { claim }
    }

    /// Mixes the claim into the transcript.
    pub fn commit_shape(self, channel: &mut Channel) -> (r: ShapeCommitted)
        ensures
            r.claim() == self.claim(),
            final(channel).digest@ == blake2s_mix_u64(
                old(channel).digest@,
                self.claim().n_rets as u64,
            ),
    {
        self.claim.mix_into(channel);
        ShapeCommitted { claim: self.claim }
    }
}

impl ShapeCommitted {
    pub closed spec fn claim(&self) -> Claim {
        self.claim
    }

    /// Takes the challenges of the relation, drawn from the transcript
    /// after the main trace was committed; none if they do not hold one
    /// canonical coefficient per slot.
    pub fn bind_relation(self, elements: RelationElements) -> (r: Option<RelationBound>)
        ensures
            r is Some <==> elements.wf(),
            r matches Some(bound) ==> bound.claim() == self.claim() && bound.elements()
                == elements,
    {
        if elements.is_valid() {
            Some(RelationBound { claim: self.claim, elements })
        } else {
            None
        }
    }
}

impl RelationBound {
    #[verifier::type_invariant]
    closed spec fn inv(&self) -> bool {
        self.elements.wf()
    }

    pub closed spec fn claim(&self) -> Claim {
        self.claim
    }

    pub closed spec fn elements(&self) -> RelationElements {
        self.elements
    }

    /// The challenges of the relation, with which the interaction trace
    /// is generated.
    pub fn relation(&self) -> (r: &RelationElements)
        ensures
            *r == self.elements(),
            r.wf(),
    {
        proof {
            use_type_invariant(self);
        }
        &self.elements
    }

    /// Takes the sum of all lookup terms of the interaction trace; none if
    /// it is not canonical.
    pub fn claim_sum(self, claimed_sum: QM31) -> (r: Option<InteractionGenerated>)
        ensures
            r is Some <==> claimed_sum.wf(),
            r matches Some(generated) ==> {
                &&& generated.claim() == self.claim()
                &&& generated.elements() == self.elements()
                &&& generated.interaction_claim().claimed_sum == claimed_sum
                &&& generated.interaction_claim().log_size == log_size_of(
                    self.claim().n_rets as nat,
                )
            },
    {
        proof {
            use_type_invariant(&self);
        }
        if claimed_sum.is_canonical() {
            let interaction_claim = InteractionClaim {
                log_size: self.claim.log_size(),
                claimed_sum,
            };
            Some(
                InteractionGenerated { claim: self.claim, elements: self.elements, interaction_claim },
            )
        } else {
            None
        }
    }
}

impl InteractionGenerated {
    #[verifier::type_invariant]
    closed spec fn inv(&self) -> bool {
        self.elements.wf() && self.interaction_claim.claimed_sum.wf()
    }

    pub closed spec fn claim(&self) -> Claim {
        self.claim
    }

    pub closed spec fn elements(&self) -> RelationElements {
        self.elements
    }

    pub closed spec fn interaction_claim(&self) -> InteractionClaim {
        self.interaction_claim
    }

    /// Mixes the claimed sum into the transcript.
    pub fn mix_claim(self, channel: &mut Channel) -> (r: ClaimMixed)
        ensures
            r.claim() == self.claim(),
            r.elements() == self.elements(),
            r.interaction_claim() == self.interaction_claim(),
            final(channel).digest@ == blake2s_mix_felts(
                old(channel).digest@,
                seq![self.interaction_claim().claimed_sum],
            ),
    {
        proof {
            use_type_invariant(&self);
        }
        self.interaction_claim.mix_into(channel);
        ClaimMixed {
            claim: self.claim,
            elements: self.elements,
            interaction_claim: self.interaction_claim,
        }
    }
}

impl ClaimMixed {
    #[verifier::type_invariant]
    closed spec fn inv(&self) -> bool {
        self.elements.wf() && self.interaction_claim.claimed_sum.wf()
    }

    pub closed spec fn claim(&self) -> Claim {
        self.claim
    }

    pub closed spec fn elements(&self) -> RelationElements {
        self.elements
    }

    pub closed spec fn interaction_claim(&self) -> InteractionClaim {
        self.interaction_claim
    }

    /// The claim of the interaction trace, as it was mixed.
    pub fn claimed(&self) -> (r: InteractionClaim)
        ensures
            r == self.interaction_claim(),
    {
        self.interaction_claim
    }

    /// Makes the evaluator of the component's constraints.
    pub fn evaluator(self) -> (r: EvaluatorReady)
        ensures
            r.eval().wf(),
            r.eval().log_size == log_size_of(self.claim().n_rets as nat),
            r.eval().memory_lookup_elements == self.elements(),
            r.eval().claimed_sum == self.interaction_claim().claimed_sum,
    {
        proof {
            use_type_invariant(&self);
        }
        EvaluatorReady { eval: Eval::new(self.claim, self.elements, self.interaction_claim) }
    }
}

impl EvaluatorReady {
    #[verifier::type_invariant]
    closed spec fn inv(&self) -> bool {
        self.eval.wf()
    }

    pub closed spec fn eval(&self) -> Eval {
        self.eval
    }

    /// The evaluator.
    pub fn get(&self) -> (r: &Eval)
        ensures
            *r == self.eval(),
            r.wf(),
    {
        proof {
            use_type_invariant(self);
        }
        &self.eval
    }

    /// Evaluates the constraints of the component at the evaluator's row.
    pub fn evaluate<E: EvalAtRow>(&self, eval: E) -> (out: E)
        requires
            eval.wf(),
            Eval::can_evaluate::<E>(eval@),
        ensures
            out.wf(),
            out@ == self.eval().evaluated::<E>(eval@),
    {
        proof {
            use_type_invariant(self);
        }
        self.eval.evaluate(eval)
    }
}

} // verus!
