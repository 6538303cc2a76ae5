//! The assembly-time API: registers gates, gate instances, generators and
//! copy constraints, and emits the finished circuit.

use vstd::prelude::*;
use crate::target::{Target2, routable, NUM_ROUTED_WIRES};
use crate::gate::{GateKind, GateInstance, instance_wf};
use crate::generator::{WitnessGenerator2, gen_wf};
use crate::partitions::{Partitions, union_map};
use crate::circuit::Circuit;

verus! {

/// A circuit-construction error: a precondition of the builder was violated
/// in a way that must reach the caller, never be skipped silently.
#[derive(Clone, Debug)]
pub enum CircuitError {
    /// A target outside the permutation argument was passed where a
    /// routable target is needed.
    NotRoutable { target: Target2 },
}

/// Accumulates circuit structure; consumed by `build`.
pub struct CircuitBuilder2 {
    /// The deduplicated set of gate kinds in use.
    pub gate_kinds: Vec<GateKind>,
    /// All gate placements, in position order.
    pub gate_instances: Vec<GateInstance>,
    /// All registered witness generators.
    pub generators: Vec<WitnessGenerator2>,
    /// The permutation argument's equivalence classes.
    pub partitions: Partitions,
    /// How many public-input slots have been staged.
    pub num_public_inputs: usize,
    /// How many virtual advice slots have been allotted.
    pub num_virtual_targets: usize,
    /// How many staged public inputs have been routed.
    pub routed_public_inputs: usize,
}

impl CircuitBuilder2 {
    pub open spec fn wf(self) -> bool {
        self.partitions.wf()
        && (forall|i: int| 0 <= i < self.generators@.len() ==> gen_wf(#[trigger] self.generators@[i]))
        && (forall|i: int| 0 <= i < self.gate_instances@.len() ==> instance_wf(#[trigger] self.gate_instances@[i]))
        && (forall|i: int, j: int| 0 <= i < j < self.gate_kinds@.len()
            ==> #[trigger] self.gate_kinds@[i] != #[trigger] self.gate_kinds@[j])
    }
}

/// The younger builder state only ever grows out of the older one: gate
/// instances and generators are appended, classes are only merged.
pub open spec fn extends(pre: CircuitBuilder2, post: CircuitBuilder2) -> bool {
    pre.gate_instances@.is_prefix_of(post.gate_instances@)
    && pre.generators@.is_prefix_of(post.generators@)
    && (forall|u: Target2, v: Target2| pre.partitions.same_class(u, v)
        ==> #[trigger] post.partitions.same_class(u, v))
    && pre.num_public_inputs <= post.num_public_inputs
    && pre.num_virtual_targets <= post.num_virtual_targets
}

pub proof fn lemma_extends_trans(a: CircuitBuilder2, b: CircuitBuilder2, c: CircuitBuilder2)
    requires
        extends(a, b),
        extends(b, c),
    ensures
        extends(a, c),
{
    assert(a.gate_instances@.is_prefix_of(c.gate_instances@));
    assert(a.generators@.is_prefix_of(c.generators@));
}

impl CircuitBuilder2 {
    pub fn new() -> (r: CircuitBuilder2)
        ensures
            r.wf(),
            r.gate_instances@.len() == 0,
            r.generators@.len() == 0,
            r.gate_kinds@.len() == 0,
            r.num_public_inputs == 0,
            r.num_virtual_targets == 0,
            r.partitions@ == Map::<Target2, usize>::empty(),
    {
        CircuitBuilder2 {
            gate_kinds: Vec::new(),
            gate_instances: Vec::new(),
            generators: Vec::new(),
            partitions: Partitions::new(),
            num_public_inputs: 0,
            num_virtual_targets: 0,
            routed_public_inputs: 0,
        }
    }

    /// Adds a gate placement to the circuit and returns its position index,
    /// the permanent identity for all wire targets referencing it. The
    /// placement's kind joins the deduplicated kind set.
    pub fn add_gate(&mut self, gate_instance: GateInstance) -> (r: usize)
        requires
            old(self).wf(),
            instance_wf(gate_instance),
        ensures
            final(self).wf(),
            extends(*old(self), *final(self)),
            r == old(self).gate_instances@.len(),
            final(self).gate_instances@ == old(self).gate_instances@.push(gate_instance),
            final(self).gate_kinds@.contains(gate_instance.kind),
            old(self).gate_kinds@.contains(gate_instance.kind)
                ==> final(self).gate_kinds@ == old(self).gate_kinds@,
            !old(self).gate_kinds@.contains(gate_instance.kind)
                ==> final(self).gate_kinds@ == old(self).gate_kinds@.push(gate_instance.kind),
            final(self).generators@ == old(self).generators@,
            final(self).partitions == old(self).partitions,
            final(self).num_public_inputs == old(self).num_public_inputs,
            final(self).num_virtual_targets == old(self).num_virtual_targets,
    {
        let kind = gate_instance.kind;
        let mut have: bool = false;
        let nk = self.gate_kinds.len();
        let mut i: usize = 0;
        while i < nk
            invariant
                0 <= i <= nk,
                nk == self.gate_kinds@.len(),
                have <==> exists|j: int| 0 <= j < i && #[trigger] self.gate_kinds@[j] == kind,
            decreases nk - i,
        {
            if self.gate_kinds[i] == kind {
                have = true;
            }
            i = i + 1;
        }
        proof {
            assert(have == self.gate_kinds@.contains(kind));
        }
        if !have {
            self.gate_kinds.push(kind);
            proof {
                assert(self.gate_kinds@.contains(kind)) by {
                    assert(self.gate_kinds@.last() == kind);
                }
            }
        }
        let index = self.gate_instances.len();
        self.gate_instances.push(gate_instance);
        index
    }

    /// Registers a witness generator.
    pub fn add_generator(&mut self, generator: WitnessGenerator2)
        requires
            old(self).wf(),
            gen_wf(generator),
        ensures
            final(self).wf(),
            extends(*old(self), *final(self)),
            final(self).generators@ == old(self).generators@.push(generator),
            final(self).gate_instances@ == old(self).gate_instances@,
            final(self).partitions == old(self).partitions,
            final(self).gate_kinds@ == old(self).gate_kinds@,
            final(self).num_public_inputs == old(self).num_public_inputs,
            final(self).num_virtual_targets == old(self).num_virtual_targets,
    {
        self.generators.push(generator);
    }

    /// Adds a generator which will copy `x`'s value to `y` during witness
    /// resolution. This only determines how `y`'s value becomes known; it
    /// enforces nothing — enforcement is `assert_equal`'s job.
    pub fn generate_copy(&mut self, x: Target2, y: Target2)
        requires
            old(self).wf(),
        ensures
            final(self).wf(),
            extends(*old(self), *final(self)),
            final(self).generators@ == old(self).generators@.push(WitnessGenerator2::CopyValue { x, y }),
            final(self).gate_instances@ == old(self).gate_instances@,
            final(self).partitions == old(self).partitions,
            final(self).gate_kinds@ == old(self).gate_kinds@,
            final(self).num_public_inputs == old(self).num_public_inputs,
            final(self).num_virtual_targets == old(self).num_virtual_targets,
    {
        self.add_generator(WitnessGenerator2::CopyValue { x, y });
    }

    /// Requires, through the permutation argument, that two targets hold
    /// equal values in every satisfying witness. Fails, changing nothing,
    /// exactly when either target is not routable.
    pub fn assert_equal(&mut self, x: Target2, y: Target2) -> (r: Result<(), CircuitError>)
        requires
            old(self).wf(),
        ensures
            final(self).wf(),
            extends(*old(self), *final(self)),
            (r is Err) <==> !(routable(x) && routable(y)),
            r is Err ==> *final(self) == *old(self),
            r is Ok ==> final(self).partitions@
                == union_map(old(self).partitions@, x, y, old(self).partitions.next),
            r is Ok ==> final(self).partitions.same_class(x, y),
            final(self).generators@ == old(self).generators@,
            final(self).gate_instances@ == old(self).gate_instances@,
            final(self).gate_kinds@ == old(self).gate_kinds@,
            final(self).num_public_inputs == old(self).num_public_inputs,
            final(self).num_virtual_targets == old(self).num_virtual_targets,
    {
        if !x.is_routable() {
            return Err(CircuitError::NotRoutable { target: x });
        }
        if !y.is_routable() {
            return Err(CircuitError::NotRoutable { target: y });
        }
        self.partitions.union(x, y);
        Ok(())
    }

    /// Shorthand for `generate_copy` and `assert_equal`: the copy is
    /// registered first so witness resolution can fill `y`, and the
    /// permutation argument then enforces the equality. Fails, changing
    /// nothing, exactly when either target is not routable.
    pub fn route(&mut self, x: Target2, y: Target2) -> (r: Result<(), CircuitError>)
        requires
            old(self).wf(),
        ensures
            final(self).wf(),
            extends(*old(self), *final(self)),
            (r is Err) <==> !(routable(x) && routable(y)),
            r is Err ==> *final(self) == *old(self),
            r is Ok ==> final(self).generators@
                == old(self).generators@.push(WitnessGenerator2::CopyValue { x, y }),
            r is Ok ==> final(self).partitions.same_class(x, y),
            final(self).gate_instances@ == old(self).gate_instances@,
            final(self).gate_kinds@ == old(self).gate_kinds@,
            final(self).num_public_inputs == old(self).num_public_inputs,
            final(self).num_virtual_targets == old(self).num_virtual_targets,
    {
        if !x.is_routable() {
            return Err(CircuitError::NotRoutable { target: x });
        }
        if !y.is_routable() {
            return Err(CircuitError::NotRoutable { target: y });
        }
        self.generate_copy(x, y);
        let r = self.assert_equal(x, y);
        proof {
            assert(r is Ok);
        }
        Ok(())
    }

    /// A hard equality constraint between two routable targets, with the
    /// copy generator registered so resolution can fill whichever side is
    /// still unknown.
    pub fn copy(&mut self, x: Target2, y: Target2) -> (r: Result<(), CircuitError>)
        requires
            old(self).wf(),
        ensures
            final(self).wf(),
            extends(*old(self), *final(self)),
            (r is Err) <==> !(routable(x) && routable(y)),
            r is Err ==> *final(self) == *old(self),
            r is Ok ==> final(self).generators@
                == old(self).generators@.push(WitnessGenerator2::CopyValue { x, y }),
            r is Ok ==> final(self).partitions.same_class(x, y),
            final(self).gate_instances@ == old(self).gate_instances@,
            final(self).num_public_inputs == old(self).num_public_inputs,
            final(self).num_virtual_targets == old(self).num_virtual_targets,
    {
        self.route(x, y)
    }

    /// A fresh virtual advice slot: a value generators may use, never
    /// constrained by the permutation argument.
    pub fn add_virtual_target(&mut self) -> (r: Target2)
        requires
            old(self).wf(),
            old(self).num_virtual_targets < usize::MAX,
        ensures
            final(self).wf(),
            extends(*old(self), *final(self)),
            r == (Target2::VirtualAdviceTarget { index: old(self).num_virtual_targets }),
            final(self).num_virtual_targets == old(self).num_virtual_targets + 1,
            final(self).generators@ == old(self).generators@,
            final(self).gate_instances@ == old(self).gate_instances@,
            final(self).partitions == old(self).partitions,
            final(self).num_public_inputs == old(self).num_public_inputs,
    {
        let index = self.num_virtual_targets;
        self.num_virtual_targets = index + 1;
        Target2::VirtualAdviceTarget { index }
    }

    /// `n` fresh virtual advice slots.
    pub fn add_virtual_targets(&mut self, n: usize) -> (r: Vec<Target2>)
        requires
            old(self).wf(),
            old(self).num_virtual_targets + n <= usize::MAX,
        ensures
            final(self).wf(),
            extends(*old(self), *final(self)),
            r@.len() == n,
            final(self).num_virtual_targets == old(self).num_virtual_targets + n,
            final(self).generators@ == old(self).generators@,
            final(self).gate_instances@ == old(self).gate_instances@,
            final(self).partitions == old(self).partitions,
            final(self).num_public_inputs == old(self).num_public_inputs,
    {
        let mut out: Vec<Target2> = Vec::new();
        let mut i: usize = 0;
        while i < n
            invariant
                0 <= i <= n,
                out@.len() == i,
                self.wf(),
                self.num_virtual_targets == old(self).num_virtual_targets + i,
                old(self).num_virtual_targets + n <= usize::MAX,
                self.generators@ == old(self).generators@,
                self.gate_instances@ == old(self).gate_instances@,
                self.partitions == old(self).partitions,
                self.num_public_inputs == old(self).num_public_inputs,
            decreases n - i,
        {
            let t = self.add_virtual_target();
            out.push(t);
            i = i + 1;
        }
        out
    }

    /// Stages one public-input slot.
    pub fn stage_public_input(&mut self) -> (r: crate::target::PublicInput)
        requires
            old(self).wf(),
            old(self).num_public_inputs < usize::MAX,
        ensures
            final(self).wf(),
            extends(*old(self), *final(self)),
            r == (crate::target::PublicInput { index: old(self).num_public_inputs }),
            final(self).num_public_inputs == old(self).num_public_inputs + 1,
            final(self).generators@ == old(self).generators@,
            final(self).gate_instances@ == old(self).gate_instances@,
            final(self).partitions == old(self).partitions,
            final(self).num_virtual_targets == old(self).num_virtual_targets,
    {
        let index = self.num_public_inputs;
        self.num_public_inputs = index + 1;
        crate::target::PublicInput { index }
    }

    /// Stages `n` public-input slots.
    pub fn stage_public_inputs(&mut self, n: usize) -> (r: Vec<crate::target::PublicInput>)
        requires
            old(self).wf(),
            old(self).num_public_inputs + n <= usize::MAX,
        ensures
            final(self).wf(),
            extends(*old(self), *final(self)),
            r@.len() == n,
            final(self).num_public_inputs == old(self).num_public_inputs + n,
            final(self).generators@ == old(self).generators@,
            final(self).gate_instances@ == old(self).gate_instances@,
            final(self).partitions == old(self).partitions,
            final(self).num_virtual_targets == old(self).num_virtual_targets,
    {
        let mut out: Vec<crate::target::PublicInput> = Vec::new();
        let mut i: usize = 0;
        while i < n
            invariant
                0 <= i <= n,
                out@.len() == i,
                self.wf(),
                self.num_public_inputs == old(self).num_public_inputs + i,
                old(self).num_public_inputs + n <= usize::MAX,
                self.generators@ == old(self).generators@,
                self.gate_instances@ == old(self).gate_instances@,
                self.partitions == old(self).partitions,
                self.num_virtual_targets == old(self).num_virtual_targets,
            decreases n - i,
        {
            let pi = self.stage_public_input();
            out.push(pi);
            i = i + 1;
        }
        out
    }

    /// Marks every staged public input as routed into the circuit.
    pub fn route_public_inputs(&mut self)
        requires
            old(self).wf(),
        ensures
            final(self).wf(),
            extends(*old(self), *final(self)),
            final(self).routed_public_inputs == final(self).num_public_inputs,
            final(self).generators@ == old(self).generators@,
            final(self).gate_instances@ == old(self).gate_instances@,
            final(self).partitions == old(self).partitions,
            final(self).num_public_inputs == old(self).num_public_inputs,
            final(self).num_virtual_targets == old(self).num_virtual_targets,
    {
        self.routed_public_inputs = self.num_public_inputs;
    }

    /// Finalizes the accumulated structure into an immutable circuit; the
    /// builder is consumed.
    pub fn build(self) -> (r: Circuit)
        requires
            self.wf(),
        ensures
            r.wf(),
            r.gate_instances@ == self.gate_instances@,
            r.generators@ == self.generators@,
            r.copies == self.partitions,
            r.gate_kinds@ == self.gate_kinds@,
            r.num_public_inputs == self.num_public_inputs,
    {
        Circuit {
            gate_kinds: self.gate_kinds,
            gate_instances: self.gate_instances,
            generators: self.generators,
            copies: self.partitions,
            num_public_inputs: self.num_public_inputs,
        }
    }
}

} // verus!
