//! Gate-level circuit primitives: each allocates a gate placement, binds its
//! operands to the placement's wires, and registers the generator that fills
//! the output wire during witness resolution.
//!
//! Every contract here quantifies over all witnesses in which the builder's
//! generators hold: the returned target's value is pinned as a field
//! function of the operands' values, whatever order resolution ran in.

use vstd::prelude::*;
use crate::field::{Fp, fp_add, fp_sub, fp_mul, fp_one, fp_zero, fp_two, fp_neg_one, fp_wf};
use crate::target::{Target2, routable, NUM_ROUTED_WIRES};
use crate::gate::{GateKind, GateInstance, instance_wf};
use crate::generator::{WitnessGenerator2, gen_wf, gens_hold, gen_holds, values_wf,
    lemma_gens_hold_prefix};
use crate::builder::{CircuitBuilder2, extends, lemma_extends_trans};
use crate::gate::{instances_hold, instance_holds, wire_at};
use crate::circuit::copies_ok;

verus! {

impl CircuitBuilder2 {
    /// Binds an operand to one of a gate placement's wires: resolution
    /// copies the operand's value in, and, for a routable operand, the
    /// permutation argument additionally enforces the equality.
    fn bind(&mut self, t: Target2, w: Target2)
        requires
            old(self).wf(),
            routable(w),
        ensures
            final(self).wf(),
            extends(*old(self), *final(self)),
            final(self).generators@ == old(self).generators@.push(WitnessGenerator2::CopyValue { x: t, y: w }),
            final(self).gate_instances@ == old(self).gate_instances@,
            final(self).num_public_inputs == old(self).num_public_inputs,
            final(self).num_virtual_targets == old(self).num_virtual_targets,
            routable(t) ==> final(self).partitions.same_class(t, w),
    {
        self.generate_copy(t, w);
        if t.is_routable() {
            let r = self.assert_equal(t, w);
            proof {
                assert(r is Ok);
            }
        }
    }

    /// A routable target holding the given constant in every witness the
    /// circuit's generators produce.
    pub fn constant(&mut self, c: Fp) -> (r: Target2)
        requires
            old(self).wf(),
            fp_wf(c),
        ensures
            final(self).wf(),
            extends(*old(self), *final(self)),
            routable(r),
            final(self).num_public_inputs == old(self).num_public_inputs,
            final(self).num_virtual_targets == old(self).num_virtual_targets,
            forall|m: Map<Target2, Fp>| gens_hold(final(self).generators@, m) && values_wf(m)
                ==> m.contains_key(r) && m[r] == c,
            forall|m: Map<Target2, Fp>| #[trigger] instances_hold(final(self).gate_instances@, m)
                ==> m.contains_key(r) && m[r] == c,
    {
        let mut constants: Vec<Fp> = Vec::new();
        constants.push(c);
        proof {
            assert(constants@ =~= seq![c]);
        }
        let p = self.add_gate(GateInstance { kind: GateKind::ConstantGate, constants });
        let out = Target2::wire(p, 0);
        self.add_generator(WitnessGenerator2::ConstantValue { target: out, value: c });
        proof {
            let gens = self.generators@;
            assert forall|m: Map<Target2, Fp>| gens_hold(gens, m) && values_wf(m)
                implies m.contains_key(out) && m[out] == c by {
                assert(gen_holds(gens[gens.len() - 1], m));
            }
            assert forall|m: Map<Target2, Fp>| #[trigger] instances_hold(self.gate_instances@, m)
                implies m.contains_key(out) && m[out] == c by {
                assert(self.gate_instances@[p as int].kind == GateKind::ConstantGate);
                assert(self.gate_instances@[p as int].constants@ == seq![c]);
                assert(instance_holds(p, self.gate_instances@[p as int], m));
                assert(out == wire_at(p, 0));
            }
        }
        out
    }

    /// A routable target holding the additive identity.
    pub fn zero(&mut self) -> (r: Target2)
        requires
            old(self).wf(),
        ensures
            final(self).wf(),
            extends(*old(self), *final(self)),
            routable(r),
            final(self).num_public_inputs == old(self).num_public_inputs,
            final(self).num_virtual_targets == old(self).num_virtual_targets,
            forall|m: Map<Target2, Fp>| gens_hold(final(self).generators@, m) && values_wf(m)
                ==> m.contains_key(r) && m[r] == fp_zero(),
    {
        self.constant(Fp::zero())
    }

    /// A routable target holding the multiplicative identity.
    pub fn one(&mut self) -> (r: Target2)
        requires
            old(self).wf(),
        ensures
            final(self).wf(),
            extends(*old(self), *final(self)),
            routable(r),
            final(self).num_public_inputs == old(self).num_public_inputs,
            final(self).num_virtual_targets == old(self).num_virtual_targets,
            forall|m: Map<Target2, Fp>| gens_hold(final(self).generators@, m) && values_wf(m)
                ==> m.contains_key(r) && m[r] == fp_one(),
    {
        self.constant(Fp::one())
    }

    /// A routable target holding two.
    pub fn two(&mut self) -> (r: Target2)
        requires
            old(self).wf(),
        ensures
            final(self).wf(),
            extends(*old(self), *final(self)),
            routable(r),
            final(self).num_public_inputs == old(self).num_public_inputs,
            final(self).num_virtual_targets == old(self).num_virtual_targets,
            forall|m: Map<Target2, Fp>| gens_hold(final(self).generators@, m) && values_wf(m)
                ==> m.contains_key(r) && m[r] == fp_two(),
    {
        self.constant(Fp::two())
    }

    /// A routable target holding the field order minus one.
    pub fn neg_one(&mut self) -> (r: Target2)
        requires
            old(self).wf(),
        ensures
            final(self).wf(),
            extends(*old(self), *final(self)),
            routable(r),
            final(self).num_public_inputs == old(self).num_public_inputs,
            final(self).num_virtual_targets == old(self).num_virtual_targets,
            forall|m: Map<Target2, Fp>| gens_hold(final(self).generators@, m) && values_wf(m)
                ==> m.contains_key(r) && m[r] == fp_neg_one(),
    {
        self.constant(Fp::neg_one())
    }

    /// The in-circuit sum of two targets.
    pub fn add(&mut self, x: Target2, y: Target2) -> (r: Target2)
        requires
            old(self).wf(),
        ensures
            final(self).wf(),
            extends(*old(self), *final(self)),
            routable(r),
            final(self).num_public_inputs == old(self).num_public_inputs,
            final(self).num_virtual_targets == old(self).num_virtual_targets,
            forall|m: Map<Target2, Fp>| gens_hold(final(self).generators@, m) && values_wf(m)
                ==> m.contains_key(x) && m.contains_key(y) && m.contains_key(r)
                    && m[r] == fp_add(m[x], m[y]),
            forall|m: Map<Target2, Fp>|
                #[trigger] instances_hold(final(self).gate_instances@, m) && copies_ok(final(self).partitions, m)
                    && routable(x) && routable(y)
                ==> m.contains_key(x) && m.contains_key(y) && m.contains_key(r)
                    && m[r] == fp_add(m[x], m[y]),
    {
        let p = self.add_gate(GateInstance { kind: GateKind::AddGate, constants: Vec::new() });
        let in0 = Target2::wire(p, 0);
        let in1 = Target2::wire(p, 1);
        let out = Target2::wire(p, 2);
        self.bind(x, in0);
        let ghost bx = *self;
        self.bind(y, in1);
        let ghost by2 = *self;
        self.add_generator(WitnessGenerator2::Add { a: in0, b: in1, out });
        proof {
            let gens = self.generators@;
            assert forall|m: Map<Target2, Fp>| gens_hold(gens, m) && values_wf(m)
                implies m.contains_key(x) && m.contains_key(y) && m.contains_key(out)
                    && m[out] == fp_add(m[x], m[y]) by {
                assert(gen_holds(gens[gens.len() - 1], m));
                assert(gen_holds(gens[gens.len() - 2], m));
                assert(gen_holds(gens[gens.len() - 3], m));
            }
            assert forall|m: Map<Target2, Fp>|
                #[trigger] instances_hold(self.gate_instances@, m) && copies_ok(self.partitions, m)
                    && routable(x) && routable(y)
                implies m.contains_key(x) && m.contains_key(y) && m.contains_key(out)
                    && m[out] == fp_add(m[x], m[y]) by {
                assert(self.gate_instances@[p as int].kind == GateKind::AddGate);
                assert(instance_holds(p, self.gate_instances@[p as int], m));
                assert(in0 == wire_at(p, 0) && in1 == wire_at(p, 1) && out == wire_at(p, 2));
                assert(bx.partitions.same_class(x, in0));
                assert(by2.partitions.same_class(x, in0));
                assert(self.partitions.same_class(x, in0));
                assert(self.partitions.same_class(y, in1));
                assert(m[x] == m[in0] && m[y] == m[in1]);
            }
        }
        out
    }

    /// The in-circuit difference of two targets.
    pub fn sub(&mut self, x: Target2, y: Target2) -> (r: Target2)
        requires
            old(self).wf(),
        ensures
            final(self).wf(),
            extends(*old(self), *final(self)),
            routable(r),
            final(self).num_public_inputs == old(self).num_public_inputs,
            final(self).num_virtual_targets == old(self).num_virtual_targets,
            forall|m: Map<Target2, Fp>| gens_hold(final(self).generators@, m) && values_wf(m)
                ==> m.contains_key(x) && m.contains_key(y) && m.contains_key(r)
                    && m[r] == fp_sub(m[x], m[y]),
            forall|m: Map<Target2, Fp>|
                #[trigger] instances_hold(final(self).gate_instances@, m) && copies_ok(final(self).partitions, m)
                    && routable(x) && routable(y)
                ==> m.contains_key(x) && m.contains_key(y) && m.contains_key(r)
                    && m[r] == fp_sub(m[x], m[y]),
    {
        let p = self.add_gate(GateInstance { kind: GateKind::SubGate, constants: Vec::new() });
        let in0 = Target2::wire(p, 0);
        let in1 = Target2::wire(p, 1);
        let out = Target2::wire(p, 2);
        self.bind(x, in0);
        let ghost bx = *self;
        self.bind(y, in1);
        let ghost by2 = *self;
        self.add_generator(WitnessGenerator2::Sub { a: in0, b: in1, out });
        proof {
            let gens = self.generators@;
            assert forall|m: Map<Target2, Fp>| gens_hold(gens, m) && values_wf(m)
                implies m.contains_key(x) && m.contains_key(y) && m.contains_key(out)
                    && m[out] == fp_sub(m[x], m[y]) by {
                assert(gen_holds(gens[gens.len() - 1], m));
                assert(gen_holds(gens[gens.len() - 2], m));
                assert(gen_holds(gens[gens.len() - 3], m));
            }
            assert forall|m: Map<Target2, Fp>|
                #[trigger] instances_hold(self.gate_instances@, m) && copies_ok(self.partitions, m)
                    && routable(x) && routable(y)
                implies m.contains_key(x) && m.contains_key(y) && m.contains_key(out)
                    && m[out] == fp_sub(m[x], m[y]) by {
                assert(self.gate_instances@[p as int].kind == GateKind::SubGate);
                assert(instance_holds(p, self.gate_instances@[p as int], m));
                assert(in0 == wire_at(p, 0) && in1 == wire_at(p, 1) && out == wire_at(p, 2));
                assert(bx.partitions.same_class(x, in0));
                assert(by2.partitions.same_class(x, in0));
                assert(self.partitions.same_class(x, in0));
                assert(self.partitions.same_class(y, in1));
                assert(m[x] == m[in0] && m[y] == m[in1]);
            }
        }
        out
    }

    /// The in-circuit product of two targets.
    pub fn mul(&mut self, x: Target2, y: Target2) -> (r: Target2)
        requires
            old(self).wf(),
        ensures
            final(self).wf(),
            extends(*old(self), *final(self)),
            routable(r),
            final(self).num_public_inputs == old(self).num_public_inputs,
            final(self).num_virtual_targets == old(self).num_virtual_targets,
            forall|m: Map<Target2, Fp>| gens_hold(final(self).generators@, m) && values_wf(m)
                ==> m.contains_key(x) && m.contains_key(y) && m.contains_key(r)
                    && m[r] == fp_mul(m[x], m[y]),
            forall|m: Map<Target2, Fp>|
                #[trigger] instances_hold(final(self).gate_instances@, m) && copies_ok(final(self).partitions, m)
                    && routable(x) && routable(y)
                ==> m.contains_key(x) && m.contains_key(y) && m.contains_key(r)
                    && m[r] == fp_mul(m[x], m[y]),
    {
        let p = self.add_gate(GateInstance { kind: GateKind::MulGate, constants: Vec::new() });
        let in0 = Target2::wire(p, 0);
        let in1 = Target2::wire(p, 1);
        let out = Target2::wire(p, 2);
        self.bind(x, in0);
        let ghost bx = *self;
        self.bind(y, in1);
        let ghost by2 = *self;
        self.add_generator(WitnessGenerator2::Mul { a: in0, b: in1, out });
        proof {
            let gens = self.generators@;
            assert forall|m: Map<Target2, Fp>| gens_hold(gens, m) && values_wf(m)
                implies m.contains_key(x) && m.contains_key(y) && m.contains_key(out)
                    && m[out] == fp_mul(m[x], m[y]) by {
                assert(gen_holds(gens[gens.len() - 1], m));
                assert(gen_holds(gens[gens.len() - 2], m));
                assert(gen_holds(gens[gens.len() - 3], m));
            }
            assert forall|m: Map<Target2, Fp>|
                #[trigger] instances_hold(self.gate_instances@, m) && copies_ok(self.partitions, m)
                    && routable(x) && routable(y)
                implies m.contains_key(x) && m.contains_key(y) && m.contains_key(out)
                    && m[out] == fp_mul(m[x], m[y]) by {
                assert(self.gate_instances@[p as int].kind == GateKind::MulGate);
                assert(instance_holds(p, self.gate_instances@[p as int], m));
                assert(in0 == wire_at(p, 0) && in1 == wire_at(p, 1) && out == wire_at(p, 2));
                assert(bx.partitions.same_class(x, in0));
                assert(by2.partitions.same_class(x, in0));
                assert(self.partitions.same_class(x, in0));
                assert(self.partitions.same_class(y, in1));
                assert(m[x] == m[in0] && m[y] == m[in1]);
            }
        }
        out
    }

    /// The in-circuit double of a target.
    pub fn double(&mut self, x: Target2) -> (r: Target2)
        requires
            old(self).wf(),
        ensures
            final(self).wf(),
            extends(*old(self), *final(self)),
            routable(r),
            final(self).num_public_inputs == old(self).num_public_inputs,
            final(self).num_virtual_targets == old(self).num_virtual_targets,
            forall|m: Map<Target2, Fp>| gens_hold(final(self).generators@, m) && values_wf(m)
                ==> m.contains_key(x) && m.contains_key(r)
                    && m[r] == fp_add(m[x], m[x]),
            forall|m: Map<Target2, Fp>|
                #[trigger] instances_hold(final(self).gate_instances@, m) && copies_ok(final(self).partitions, m)
                    && routable(x)
                ==> m.contains_key(x) && m.contains_key(r)
                    && m[r] == fp_add(m[x], m[x]),
    {
        self.add(x, x)
    }

    /// The in-circuit square of a target.
    pub fn square(&mut self, x: Target2) -> (r: Target2)
        requires
            old(self).wf(),
        ensures
            final(self).wf(),
            extends(*old(self), *final(self)),
            routable(r),
            final(self).num_public_inputs == old(self).num_public_inputs,
            final(self).num_virtual_targets == old(self).num_virtual_targets,
            forall|m: Map<Target2, Fp>| gens_hold(final(self).generators@, m) && values_wf(m)
                ==> m.contains_key(x) && m.contains_key(r)
                    && m[r] == fp_mul(m[x], m[x]),
            forall|m: Map<Target2, Fp>|
                #[trigger] instances_hold(final(self).gate_instances@, m) && copies_ok(final(self).partitions, m)
                    && routable(x)
                ==> m.contains_key(x) && m.contains_key(r)
                    && m[r] == fp_mul(m[x], m[x]),
    {
        self.mul(x, x)
    }

    /// Constrained in-circuit division: the relation placed in the circuit
    /// is `den * out == num`, so any witness in which `den` is the additive
    /// identity and `num` is not is unsatisfiable rather than undefined.
    pub fn div(&mut self, num: Target2, den: Target2) -> (r: Target2)
        requires
            old(self).wf(),
        ensures
            final(self).wf(),
            extends(*old(self), *final(self)),
            routable(r),
            final(self).num_public_inputs == old(self).num_public_inputs,
            final(self).num_virtual_targets == old(self).num_virtual_targets,
            forall|m: Map<Target2, Fp>| gens_hold(final(self).generators@, m) && values_wf(m)
                ==> m.contains_key(num) && m.contains_key(den) && m.contains_key(r)
                    && fp_mul(m[den], m[r]) == m[num],
            forall|m: Map<Target2, Fp>|
                #[trigger] instances_hold(final(self).gate_instances@, m) && copies_ok(final(self).partitions, m)
                    && routable(num) && routable(den)
                ==> m.contains_key(num) && m.contains_key(den) && m.contains_key(r)
                    && fp_mul(m[den], m[r]) == m[num],
    {
        let p = self.add_gate(GateInstance { kind: GateKind::DivGate, constants: Vec::new() });
        let in0 = Target2::wire(p, 0);
        let in1 = Target2::wire(p, 1);
        let out = Target2::wire(p, 2);
        self.bind(num, in0);
        let ghost bx = *self;
        self.bind(den, in1);
        let ghost by2 = *self;
        self.add_generator(WitnessGenerator2::Div { num: in0, den: in1, out });
        proof {
            let gens = self.generators@;
            assert forall|m: Map<Target2, Fp>| gens_hold(gens, m) && values_wf(m)
                implies m.contains_key(num) && m.contains_key(den) && m.contains_key(out)
                    && fp_mul(m[den], m[out]) == m[num] by {
                assert(gen_holds(gens[gens.len() - 1], m));
                assert(gen_holds(gens[gens.len() - 2], m));
                assert(gen_holds(gens[gens.len() - 3], m));
            }
            assert forall|m: Map<Target2, Fp>|
                #[trigger] instances_hold(self.gate_instances@, m) && copies_ok(self.partitions, m)
                    && routable(num) && routable(den)
                implies m.contains_key(num) && m.contains_key(den) && m.contains_key(out)
                    && fp_mul(m[den], m[out]) == m[num] by {
                assert(self.gate_instances@[p as int].kind == GateKind::DivGate);
                assert(instance_holds(p, self.gate_instances@[p as int], m));
                assert(in0 == wire_at(p, 0) && in1 == wire_at(p, 1) && out == wire_at(p, 2));
                assert(bx.partitions.same_class(num, in0));
                assert(by2.partitions.same_class(num, in0));
                assert(self.partitions.same_class(num, in0));
                assert(self.partitions.same_class(den, in1));
                assert(m[num] == m[in0] && m[den] == m[in1]);
            }
        }
        out
    }

    /// Constrained in-circuit inversion: the relation placed in the circuit
    /// is `x * out == one`, so a witness giving `x` the additive identity is
    /// unsatisfiable, and resolution fails on it rather than dividing by it.
    pub fn inv(&mut self, x: Target2) -> (r: Target2)
        requires
            old(self).wf(),
        ensures
            final(self).wf(),
            extends(*old(self), *final(self)),
            routable(r),
            final(self).num_public_inputs == old(self).num_public_inputs,
            final(self).num_virtual_targets == old(self).num_virtual_targets,
            forall|m: Map<Target2, Fp>| gens_hold(final(self).generators@, m) && values_wf(m)
                ==> m.contains_key(x) && m.contains_key(r)
                    && fp_mul(m[x], m[r]) == fp_one(),
            forall|m: Map<Target2, Fp>|
                #[trigger] instances_hold(final(self).gate_instances@, m) && copies_ok(final(self).partitions, m)
                    && routable(x)
                ==> m.contains_key(x) && m.contains_key(r)
                    && fp_mul(m[x], m[r]) == fp_one(),
    {
        let p = self.add_gate(GateInstance { kind: GateKind::InvGate, constants: Vec::new() });
        let in0 = Target2::wire(p, 0);
        let out = Target2::wire(p, 1);
        self.bind(x, in0);
        let ghost bx = *self;
        self.add_generator(WitnessGenerator2::Inv { x: in0, out });
        proof {
            let gens = self.generators@;
            assert forall|m: Map<Target2, Fp>| gens_hold(gens, m) && values_wf(m)
                implies m.contains_key(x) && m.contains_key(out)
                    && fp_mul(m[x], m[out]) == fp_one() by {
                assert(gen_holds(gens[gens.len() - 1], m));
                assert(gen_holds(gens[gens.len() - 2], m));
            }
            assert forall|m: Map<Target2, Fp>|
                #[trigger] instances_hold(self.gate_instances@, m) && copies_ok(self.partitions, m)
                    && routable(x)
                implies m.contains_key(x) && m.contains_key(out)
                    && fp_mul(m[x], m[out]) == fp_one() by {
                assert(self.gate_instances@[p as int].kind == GateKind::InvGate);
                assert(instance_holds(p, self.gate_instances@[p as int], m));
                assert(in0 == wire_at(p, 0) && out == wire_at(p, 1));
                assert(bx.partitions.same_class(x, in0));
                assert(self.partitions.same_class(x, in0));
                assert(m[x] == m[in0]);
            }
        }
        out
    }
}

} // verus!
