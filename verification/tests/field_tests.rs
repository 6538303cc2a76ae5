use plonk_recursion::field::{Fp, FIELD_ORDER};

#[test]
fn embedding_reduces_canonically() {
    assert!(Fp::from_u64(FIELD_ORDER) == Fp::zero());
    assert!(Fp::from_u64(FIELD_ORDER + 1) == Fp::one());
    assert!(Fp::from_canonical_usize(2) == Fp::two());
}

#[test]
fn subtraction_wraps_into_the_field() {
    let a = Fp::from_u64(0);
    let b = Fp::from_u64(1);
    assert!(a.sub(b) == Fp::neg_one());
    assert!(b.sub(a) == Fp::one());
}

#[test]
fn inverse_multiplies_to_one() {
    for v in [1u64, 2, 3, 17, 65536] {
        let a = Fp::from_u64(v);
        let inv = a.inv().unwrap();
        assert!(a.mul(inv) == Fp::one());
    }
}

#[test]
fn zero_has_no_inverse() {
    assert!(Fp::zero().inv().is_none());
}

#[test]
fn arithmetic_matches_modular_expectations() {
    let a = Fp::from_u64(65000);
    let b = Fp::from_u64(600);
    assert!(a.add(b) == Fp::from_u64((65000 + 600) % FIELD_ORDER));
    assert!(a.mul(b) == Fp::from_u64(65000 * 600 % FIELD_ORDER));
    assert!(a.sub(b) == Fp::from_u64(65000 - 600));
}
