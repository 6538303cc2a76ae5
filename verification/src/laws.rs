//! The framework's cross-cutting guarantees, stated once and proved from
//! the contracts of the pieces they relate.

use vstd::prelude::*;
use crate::field::Fp;
use crate::target::Target2;
use crate::generator::{WitnessGenerator2, gens_hold, gen_holds};
use crate::partitions::Partitions;
use crate::circuit::{Circuit, copies_ok, satisfied};
use crate::gate::instance_holds;

verus! {

/// Copy-and-assert roundtrip: in any resolved witness of a circuit whose
/// generator list carries a copy from `x` to `y` — as `route` and
/// `generate_copy` register it — the value of `y` equals the value of `x`.
/// Witness resolution ensures every generator holds of its result, so this
/// applies to every successful resolution, whatever assignment determined
/// `x`.
pub proof fn lemma_copy_roundtrip(
    gens: Seq<WitnessGenerator2>,
    m: Map<Target2, Fp>,
    i: int,
    x: Target2,
    y: Target2,
)
    requires
        gens_hold(gens, m),
        0 <= i < gens.len(),
        gens[i] == (WitnessGenerator2::CopyValue { x, y }),
    ensures
        m.contains_key(x),
        m.contains_key(y),
        m[y] == m[x],
{
    assert(gen_holds(gens[i], m));
}

/// Transitive equivalence: class membership is an equivalence relation, so
/// two equalities `a = b` and `b = c` place all three targets in one class
/// and the permutation argument enforces `a = c` with no direct assertion.
pub proof fn lemma_same_class_trans(p: Partitions, a: Target2, b: Target2, c: Target2)
    requires
        p.same_class(a, b),
        p.same_class(b, c),
    ensures
        p.same_class(a, c),
{
}

/// Transitive equivalence, rejection side: a witness that gives two targets
/// of one equivalence class different values violates the copy constraints,
/// so no circuit carrying those classes accepts it — even when the two
/// targets were never asserted equal directly, only through a chain.
pub proof fn lemma_unequal_class_rejected(p: Partitions, m: Map<Target2, Fp>, a: Target2, c: Target2)
    requires
        p.same_class(a, c),
        !(m.contains_key(a) && m.contains_key(c) && m[a] == m[c]),
    ensures
        !copies_ok(p, m),
{
}

/// Transitive equivalence, rejection side, at the circuit level: a witness
/// that separates one class of the circuit's permutation argument does not
/// satisfy the circuit.
pub proof fn lemma_unequal_class_unsatisfied(c: Circuit, m: Map<Target2, Fp>, a: Target2, b: Target2)
    requires
        c.copies.same_class(a, b),
        !(m.contains_key(a) && m.contains_key(b) && m[a] == m[b]),
    ensures
        !satisfied(c, m),
{
    lemma_unequal_class_rejected(c.copies, m, a, b);
}

/// Conflict detection: two constant generators that write the same target
/// can only both hold of one mapping when they write one value. Witness
/// resolution ensures every generator holds of a successful result, so a
/// generator set carrying two different constants for one target can never
/// resolve successfully — the engine reports the conflict instead of
/// letting either value win.
pub proof fn lemma_conflicting_constants(
    gens: Seq<WitnessGenerator2>,
    m: Map<Target2, Fp>,
    i: int,
    j: int,
    t: Target2,
    v1: Fp,
    v2: Fp,
)
    requires
        gens_hold(gens, m),
        0 <= i < gens.len(),
        0 <= j < gens.len(),
        gens[i] == (WitnessGenerator2::ConstantValue { target: t, value: v1 }),
        gens[j] == (WitnessGenerator2::ConstantValue { target: t, value: v2 }),
    ensures
        v1 == v2,
{
    assert(gen_holds(gens[i], m));
    assert(gen_holds(gens[j], m));
}

/// A witness that violates any single gate placement's relation does not
/// satisfy the circuit. In particular, where a value was introduced by a
/// constrained division — as the first-Lagrange-basis and quotient values
/// are — a witness supplying a quotient that violates
/// `divisor * quotient == dividend` is rejected, never accepted with an
/// undefined division.
pub proof fn lemma_violated_instance_rejected(c: Circuit, m: Map<Target2, Fp>, p: int)
    requires
        0 <= p < c.gate_instances@.len(),
        !instance_holds(p as usize, c.gate_instances@[p], m),
    ensures
        !satisfied(c, m),
{
}

/// Fixpoint order-independence, constraint side: the engine's guarantee on
/// a successful resolution — every generator's relation holds of the result
/// — does not depend on the order the generators were registered in, only
/// on which generators there are. Two registrations of one generator
/// multiset constrain any resolved witness identically; the engine's
/// conflict rule forbids the one remaining way two runs could diverge, a
/// disagreeing write.
pub proof fn lemma_gens_hold_order_independent(
    s: Seq<WitnessGenerator2>,
    t: Seq<WitnessGenerator2>,
    m: Map<Target2, Fp>,
)
    requires
        s.to_multiset() == t.to_multiset(),
        gens_hold(s, m),
    ensures
        gens_hold(t, m),
{
    broadcast use vstd::seq_lib::group_to_multiset_ensures;

    assert forall|i: int| 0 <= i < t.len() implies #[trigger] gen_holds(t[i], m) by {
        assert(t.contains(t[i]));
        assert(t.to_multiset().count(t[i]) > 0);
        assert(s.contains(t[i]));
        let j = choose|j: int| 0 <= j < s.len() && s[j] == t[i];
        assert(gen_holds(s[j], m));
    }
}

} // verus!
