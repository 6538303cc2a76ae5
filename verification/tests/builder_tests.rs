use plonk_recursion::builder::{CircuitBuilder2, CircuitError};
use plonk_recursion::field::Fp;
use plonk_recursion::target::Target2;
use plonk_recursion::witness::PartialWitness2;

#[test]
fn routability_precondition_virtual_left() {
    let mut builder = CircuitBuilder2::new();
    let t = builder.add_virtual_target();
    let c = builder.constant(Fp::from_u64(5));
    let r = builder.assert_equal(t, c);
    assert!(matches!(r, Err(CircuitError::NotRoutable { .. })));
}

#[test]
fn routability_precondition_virtual_right() {
    let mut builder = CircuitBuilder2::new();
    let t = builder.add_virtual_target();
    let p = builder.stage_public_input().routable_target();
    let r = builder.assert_equal(p, t);
    assert!(matches!(r, Err(CircuitError::NotRoutable { .. })));
}

#[test]
fn routability_precondition_both_virtual() {
    let mut builder = CircuitBuilder2::new();
    let t1 = builder.add_virtual_target();
    let t2 = builder.add_virtual_target();
    assert!(builder.assert_equal(t1, t2).is_err());
    assert!(builder.route(t1, t2).is_err());
}

#[test]
fn routability_accepts_routable_pairs() {
    let mut builder = CircuitBuilder2::new();
    let p = builder.stage_public_input().routable_target();
    let c = builder.constant(Fp::from_u64(9));
    assert!(builder.assert_equal(p, c).is_ok());
    let w = Target2::wire(0, 0);
    assert!(builder.assert_equal(w, c).is_ok());
}

#[test]
fn non_routed_wire_is_not_routable() {
    // Wire slots at or past the routed range stay out of the permutation.
    let w = Target2::wire(0, 8);
    assert!(!w.is_routable());
    let w2 = Target2::wire(0, 3);
    assert!(w2.is_routable());
}

#[test]
fn constants_resolve_to_their_values() {
    let mut builder = CircuitBuilder2::new();
    let z = builder.zero();
    let o = builder.one();
    let t = builder.two();
    let n = builder.neg_one();
    let c = builder.constant(Fp::from_u64(123));
    let circuit = builder.build();
    let w = circuit.generate_witness(&PartialWitness2::new()).unwrap();
    assert!(w.get(z).unwrap() == Fp::from_u64(0));
    assert!(w.get(o).unwrap() == Fp::from_u64(1));
    assert!(w.get(t).unwrap() == Fp::from_u64(2));
    assert!(w.get(n).unwrap() == Fp::from_u64(65536));
    assert!(w.get(c).unwrap() == Fp::from_u64(123));
    assert!(circuit.check_witness(&w));
}

#[test]
fn copy_assert_roundtrip() {
    let mut builder = CircuitBuilder2::new();
    let y = builder.stage_public_input().routable_target();
    let x = builder.constant(Fp::from_u64(7));
    builder.route(x, y).unwrap();
    let circuit = builder.build();
    let w = circuit.generate_witness(&PartialWitness2::new()).unwrap();
    assert!(w.get(y).unwrap() == w.get(x).unwrap());
    assert!(w.get(y).unwrap() == Fp::from_u64(7));
    assert!(circuit.check_witness(&w));
}

#[test]
fn transitive_equivalence_rejects_unequal_ends() {
    let mut builder = CircuitBuilder2::new();
    let a = builder.stage_public_input().routable_target();
    let b = builder.stage_public_input().routable_target();
    let c = builder.stage_public_input().routable_target();
    builder.assert_equal(a, b).unwrap();
    builder.assert_equal(b, c).unwrap();
    let circuit = builder.build();

    let mut ok = PartialWitness2::new();
    ok.set(a, Fp::from_u64(4)).unwrap();
    ok.set(b, Fp::from_u64(4)).unwrap();
    ok.set(c, Fp::from_u64(4)).unwrap();
    assert!(circuit.check_witness(&ok));

    // No direct equality between a and c was asserted, yet a witness with
    // a != c must be rejected: the classes merged transitively.
    let mut bad = PartialWitness2::new();
    bad.set(a, Fp::from_u64(4)).unwrap();
    bad.set(b, Fp::from_u64(4)).unwrap();
    bad.set(c, Fp::from_u64(5)).unwrap();
    assert!(!circuit.check_witness(&bad));
}

#[test]
fn gate_kinds_are_deduplicated() {
    let mut builder = CircuitBuilder2::new();
    let a = builder.constant(Fp::from_u64(1));
    let b = builder.constant(Fp::from_u64(2));
    let s = builder.add(a, b);
    let _t = builder.add(s, a);
    let circuit = builder.build();
    // Two constant placements and two addition placements, but one kind each.
    assert!(circuit.gate_kinds.len() == 2);
    assert!(circuit.gate_instances.len() >= 4);
}

#[test]
fn arithmetic_gadgets_resolve_exactly() {
    let mut builder = CircuitBuilder2::new();
    let a = builder.constant(Fp::from_u64(10));
    let b = builder.constant(Fp::from_u64(3));
    let s = builder.add(a, b);
    let d = builder.sub(a, b);
    let m = builder.mul(a, b);
    let q = builder.div(a, b);
    let i = builder.inv(b);
    let t = builder.double(a);
    let circuit = builder.build();
    let w = circuit.generate_witness(&PartialWitness2::new()).unwrap();
    assert!(w.get(s).unwrap() == Fp::from_u64(13));
    assert!(w.get(d).unwrap() == Fp::from_u64(7));
    assert!(w.get(m).unwrap() == Fp::from_u64(30));
    // Division and inversion are constrained: den * q == num, b * i == 1.
    assert!(w.get(q).unwrap().mul(Fp::from_u64(3)) == Fp::from_u64(10));
    assert!(w.get(i).unwrap().mul(Fp::from_u64(3)) == Fp::one());
    assert!(w.get(t).unwrap() == Fp::from_u64(20));
    assert!(circuit.check_witness(&w));
}

#[test]
fn copy_generation_alone_enforces_nothing() {
    // Witness computation and constraint enforcement are independent: a
    // copy generator only says how a value becomes known. A witness built
    // elsewhere with unequal values still checks out unless the equality
    // was also asserted.
    let mut builder = CircuitBuilder2::new();
    let x = builder.stage_public_input().routable_target();
    let y = builder.stage_public_input().routable_target();
    builder.generate_copy(x, y);
    let circuit = builder.build();
    let mut w = PartialWitness2::new();
    w.set(x, Fp::from_u64(1)).unwrap();
    w.set(y, Fp::from_u64(2)).unwrap();
    assert!(circuit.check_witness(&w));

    let mut enforcing = CircuitBuilder2::new();
    let x2 = enforcing.stage_public_input().routable_target();
    let y2 = enforcing.stage_public_input().routable_target();
    enforcing.route(x2, y2).unwrap();
    let circuit2 = enforcing.build();
    assert!(!circuit2.check_witness(&w));
}
