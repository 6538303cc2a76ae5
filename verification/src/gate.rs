//! Gates: reusable constraint templates and their placements.

use vstd::prelude::*;
use crate::field::{Fp, fp_add, fp_sub, fp_mul, fp_one, fp_wf};
use crate::target::{Target2, Wire};
use crate::witness::PartialWitness2;

verus! {

/// A reusable constraint template. Two placements of one kind share the
/// same polynomial relation over their wire slots.
#[derive(Copy, Clone, PartialEq, Eq, Structural, Debug)]
pub enum GateKind {
    /// Wire 0 equals the instance's constant parameter.
    ConstantGate,
    /// Wire 2 equals wire 0 plus wire 1.
    AddGate,
    /// Wire 2 equals wire 0 minus wire 1.
    SubGate,
    /// Wire 2 equals wire 0 times wire 1.
    MulGate,
    /// Wire 1 times wire 2 equals wire 0: constrained division.
    DivGate,
    /// Wire 0 times wire 1 equals one: constrained inversion.
    InvGate,
}

/// A concrete placement of a gate at a circuit position, with the constant
/// parameters for that placement. The position index is the instance's index
/// in the builder's instance list.
#[derive(Clone, Debug)]
pub struct GateInstance {
    pub kind: GateKind,
    pub constants: Vec<Fp>,
}

/// The constant parameter arity each kind expects.
pub open spec fn kind_constant_arity(k: GateKind) -> nat {
    match k {
        GateKind::ConstantGate => 1,
        _ => 0,
    }
}

/// An instance carries exactly the constants its kind expects, all of them
/// canonical residues.
pub open spec fn instance_wf(inst: GateInstance) -> bool {
    inst.constants@.len() == kind_constant_arity(inst.kind)
    && forall|i: int| 0 <= i < inst.constants@.len() ==> fp_wf(#[trigger] inst.constants@[i])
}

/// The target for slot `i` of the instance at position `p`.
pub open spec fn wire_at(p: usize, i: usize) -> Target2 {
    Target2::Wire(Wire { gate: p, input: i })
}

/// The polynomial relation the instance at position `p` imposes on a
/// witness. Division and inversion are the constrained forms
/// (`divisor * quotient == dividend`), so a witness with a zero divisor is
/// unsatisfiable rather than undefined.
pub open spec fn instance_holds(p: usize, inst: GateInstance, m: Map<Target2, Fp>) -> bool {
    match inst.kind {
        GateKind::ConstantGate =>
            m.contains_key(wire_at(p, 0)) && m[wire_at(p, 0)] == inst.constants@[0],
        GateKind::AddGate =>
            m.contains_key(wire_at(p, 0)) && m.contains_key(wire_at(p, 1))
                && m.contains_key(wire_at(p, 2))
                && m[wire_at(p, 2)] == fp_add(m[wire_at(p, 0)], m[wire_at(p, 1)]),
        GateKind::SubGate =>
            m.contains_key(wire_at(p, 0)) && m.contains_key(wire_at(p, 1))
                && m.contains_key(wire_at(p, 2))
                && m[wire_at(p, 2)] == fp_sub(m[wire_at(p, 0)], m[wire_at(p, 1)]),
        GateKind::MulGate =>
            m.contains_key(wire_at(p, 0)) && m.contains_key(wire_at(p, 1))
                && m.contains_key(wire_at(p, 2))
                && m[wire_at(p, 2)] == fp_mul(m[wire_at(p, 0)], m[wire_at(p, 1)]),
        GateKind::DivGate =>
            m.contains_key(wire_at(p, 0)) && m.contains_key(wire_at(p, 1))
                && m.contains_key(wire_at(p, 2))
                && fp_mul(m[wire_at(p, 1)], m[wire_at(p, 2)]) == m[wire_at(p, 0)],
        GateKind::InvGate =>
            m.contains_key(wire_at(p, 0)) && m.contains_key(wire_at(p, 1))
                && fp_mul(m[wire_at(p, 0)], m[wire_at(p, 1)]) == fp_one(),
    }
}

/// Every placement's relation holds of the witness.
pub open spec fn instances_hold(instances: Seq<GateInstance>, m: Map<Target2, Fp>) -> bool {
    forall|p: int| 0 <= p < instances.len()
        ==> instance_holds(p as usize, #[trigger] instances[p], m)
}

/// Checks the instance's relation against a witness whose values are
/// canonical residues.
pub fn check_instance(p: usize, inst: &GateInstance, w: &PartialWitness2) -> (r: bool)
    requires
        w.wf(),
        instance_wf(*inst),
        crate::generator::values_wf(w@),
    ensures
        r == instance_holds(p, *inst, w@),
{
    match inst.kind {
        GateKind::ConstantGate => {
            match w.get(Target2::wire(p, 0)) {
                Some(v) => v == inst.constants[0],
                None => false,
            }
        }
        GateKind::AddGate => {
            match (w.get(Target2::wire(p, 0)), w.get(Target2::wire(p, 1)), w.get(Target2::wire(p, 2))) {
                (Some(a), Some(b), Some(c)) => c == a.add(b),
                _ => false,
            }
        }
        GateKind::SubGate => {
            match (w.get(Target2::wire(p, 0)), w.get(Target2::wire(p, 1)), w.get(Target2::wire(p, 2))) {
                (Some(a), Some(b), Some(c)) => c == a.sub(b),
                _ => false,
            }
        }
        GateKind::MulGate => {
            match (w.get(Target2::wire(p, 0)), w.get(Target2::wire(p, 1)), w.get(Target2::wire(p, 2))) {
                (Some(a), Some(b), Some(c)) => c == a.mul(b),
                _ => false,
            }
        }
        GateKind::DivGate => {
            match (w.get(Target2::wire(p, 0)), w.get(Target2::wire(p, 1)), w.get(Target2::wire(p, 2))) {
                (Some(a), Some(b), Some(c)) => b.mul(c) == a,
                _ => false,
            }
        }
        GateKind::InvGate => {
            match (w.get(Target2::wire(p, 0)), w.get(Target2::wire(p, 1))) {
                (Some(a), Some(b)) => a.mul(b) == Fp::one(),
                _ => false,
            }
        }
    }
}

} // verus!
