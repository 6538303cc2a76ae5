use plonk_recursion::builder::CircuitBuilder2;
use plonk_recursion::field::Fp;
use plonk_recursion::generator::WitnessGenerator2;
use plonk_recursion::witness::{PartialWitness2, WitnessError};

#[test]
fn merge_disagreement_is_a_conflict() {
    let mut a = PartialWitness2::new();
    let mut builder = CircuitBuilder2::new();
    let t = builder.add_virtual_target();
    a.set(t, Fp::from_u64(3)).unwrap();
    let b = PartialWitness2::singleton(t, Fp::from_u64(4));
    let r = a.merge(&b);
    match r {
        Err(WitnessError::Conflict { existing, attempted, .. }) => {
            assert!(existing == Fp::from_u64(3));
            assert!(attempted == Fp::from_u64(4));
        }
        _ => panic!("a disagreeing merge must report the conflict"),
    }
}

#[test]
fn merge_agreement_succeeds() {
    let mut a = PartialWitness2::new();
    let mut builder = CircuitBuilder2::new();
    let t = builder.add_virtual_target();
    let u = builder.add_virtual_target();
    a.set(t, Fp::from_u64(3)).unwrap();
    let mut b = PartialWitness2::new();
    b.set(t, Fp::from_u64(3)).unwrap();
    b.set(u, Fp::from_u64(9)).unwrap();
    a.merge(&b).unwrap();
    assert!(a.get(t).unwrap() == Fp::from_u64(3));
    assert!(a.get(u).unwrap() == Fp::from_u64(9));
}

#[test]
fn conflict_detection_two_generators() {
    let mut builder = CircuitBuilder2::new();
    let t = builder.add_virtual_target();
    builder.add_generator(WitnessGenerator2::ConstantValue { target: t, value: Fp::from_u64(3) });
    builder.add_generator(WitnessGenerator2::ConstantValue { target: t, value: Fp::from_u64(4) });
    let circuit = builder.build();
    let r = circuit.generate_witness(&PartialWitness2::new());
    match r {
        Err(WitnessError::Conflict { target, existing, attempted }) => {
            assert!(target == t);
            assert!(existing != attempted);
        }
        _ => panic!("two writers of different constants must conflict, never race"),
    }
}

#[test]
fn conflict_with_explicit_input() {
    let mut builder = CircuitBuilder2::new();
    let t = builder.add_virtual_target();
    builder.add_generator(WitnessGenerator2::ConstantValue { target: t, value: Fp::from_u64(3) });
    let circuit = builder.build();
    let initial = PartialWitness2::singleton(t, Fp::from_u64(8));
    assert!(matches!(circuit.generate_witness(&initial), Err(WitnessError::Conflict { .. })));
}

#[test]
fn stalled_generation_is_reported() {
    let mut builder = CircuitBuilder2::new();
    let x = builder.add_virtual_target();
    let y = builder.add_virtual_target();
    builder.generate_copy(x, y);
    let circuit = builder.build();
    // Nothing ever determines x, so the copy generator can never run.
    match circuit.generate_witness(&PartialWitness2::new()) {
        Err(WitnessError::Stalled { pending }) => {
            assert!(pending.len() == 1);
        }
        _ => panic!("an undetermined dependency graph must stall, not resolve"),
    }
}

#[test]
fn fixpoint_determinism_across_orders() {
    // One dependency chain registered in two different orders; both must
    // resolve, to bit-identical witnesses.
    let mut forward = CircuitBuilder2::new();
    let t0 = forward.add_virtual_target();
    let t1 = forward.add_virtual_target();
    let t2 = forward.add_virtual_target();
    let t3 = forward.add_virtual_target();
    forward.add_generator(WitnessGenerator2::CopyValue { x: t0, y: t1 });
    forward.add_generator(WitnessGenerator2::Add { a: t1, b: t1, out: t2 });
    forward.add_generator(WitnessGenerator2::Mul { a: t2, b: t1, out: t3 });
    let c_forward = forward.build();

    let mut backward = CircuitBuilder2::new();
    let _ = backward.add_virtual_target();
    let _ = backward.add_virtual_target();
    let _ = backward.add_virtual_target();
    let _ = backward.add_virtual_target();
    backward.add_generator(WitnessGenerator2::Mul { a: t2, b: t1, out: t3 });
    backward.add_generator(WitnessGenerator2::Add { a: t1, b: t1, out: t2 });
    backward.add_generator(WitnessGenerator2::CopyValue { x: t0, y: t1 });
    let c_backward = backward.build();

    let initial = PartialWitness2::singleton(t0, Fp::from_u64(11));
    let w1 = c_forward.generate_witness(&initial).unwrap();
    let w2 = c_backward.generate_witness(&initial).unwrap();
    for t in [t0, t1, t2, t3] {
        assert!(w1.get(t).unwrap() == w2.get(t).unwrap());
    }
    assert!(w1.get(t3).unwrap() == Fp::from_u64(11 * 22 % 65537));
}

#[test]
fn zero_divisor_fails_generation() {
    let mut builder = CircuitBuilder2::new();
    let zero = builder.zero();
    let one = builder.one();
    let _q = builder.div(one, zero);
    let circuit = builder.build();
    assert!(matches!(
        circuit.generate_witness(&PartialWitness2::new()),
        Err(WitnessError::ZeroDivisor { .. })
    ));
}
