use plonk_recursion::builder::CircuitBuilder2;
use plonk_recursion::field::Fp;
use plonk_recursion::recursion::{eval_composite_poly, halo_g, recursive_verification_circuit};
use plonk_recursion::target::Target2;
use plonk_recursion::witness::{PartialWitness2, WitnessError};

#[test]
fn horner_composite_evaluation() {
    let mut builder = CircuitBuilder2::new();
    let c0 = builder.constant(Fp::from_u64(3));
    let c1 = builder.constant(Fp::from_u64(5));
    let c2 = builder.constant(Fp::from_u64(7));
    let s = builder.constant(Fp::from_u64(2));
    let comps = vec![c0, c1, c2];
    let r = eval_composite_poly(&mut builder, &comps, s);
    let circuit = builder.build();
    let w = circuit.generate_witness(&PartialWitness2::new()).unwrap();
    // 3 + 5*2 + 7*4 = 41.
    assert!(w.get(r).unwrap() == Fp::from_u64(41));
    assert!(circuit.check_witness(&w));
}

#[test]
fn vanishing_polynomial_identity() {
    let zeta = Fp::from_u64(3);
    let mut builder = CircuitBuilder2::new();
    let zeta_t = builder.constant(zeta);
    let one_t = builder.one();
    let sq = builder.square(zeta_t);
    let pow4 = builder.square(sq);
    let zero_eval = builder.sub(pow4, one_t);
    let degree_t = builder.constant(Fp::from_u64(4));
    let zeta_minus_one = builder.sub(zeta_t, one_t);
    let denominator = builder.mul(degree_t, zeta_minus_one);
    let lagrange_1 = builder.div(zero_eval, denominator);
    let circuit = builder.build();
    let w = circuit.generate_witness(&PartialWitness2::new()).unwrap();

    // The in-circuit value of Z_H(zeta) = zeta^4 - 1 matches the direct
    // field computation.
    let direct = zeta.mul(zeta).mul(zeta).mul(zeta).sub(Fp::one());
    assert!(w.get(zero_eval).unwrap() == direct);
    assert!(direct == Fp::from_u64(80));
    // L_1 * degree * (zeta - 1) == Z_H(zeta): 80 / 8 = 10.
    assert!(w.get(lagrange_1).unwrap() == Fp::from_u64(10));
    assert!(circuit.check_witness(&w));

    // A witness that violates L_1 * (degree * (zeta - 1)) = Z_H(zeta) is
    // unsatisfiable: the division is a constraint, not an oracle.
    let mut bad = PartialWitness2::new();
    for (t, v) in &w.entries {
        let v2 = if *t == lagrange_1 { v.add(Fp::one()) } else { *v };
        bad.set(*t, v2).unwrap();
    }
    assert!(!circuit.check_witness(&bad));
}

#[test]
fn halo_reduction_value() {
    let x = Fp::from_u64(5);
    let u0 = Fp::from_u64(2);
    let u1 = Fp::from_u64(3);
    let mut builder = CircuitBuilder2::new();
    let x_t = builder.constant(x);
    let u0_t = builder.constant(u0);
    let u1_t = builder.constant(u1);
    let us = vec![u0_t, u1_t];
    let g = halo_g(&mut builder, x_t, &us);
    let circuit = builder.build();
    let w = circuit.generate_witness(&PartialWitness2::new()).unwrap();
    // (u0 + u0^-1 * x) * (u1 + u1^-1 * x^2), computed directly.
    let f0 = u0.add(u0.inv().unwrap().mul(x));
    let f1 = u1.add(u1.inv().unwrap().mul(x.mul(x)));
    assert!(w.get(g).unwrap() == f0.mul(f1));
    assert!(circuit.check_witness(&w));
}

#[test]
fn halo_reduction_zero_round_fails() {
    let mut builder = CircuitBuilder2::new();
    let x_t = builder.constant(Fp::from_u64(5));
    let u0_t = builder.constant(Fp::from_u64(0));
    let u1_t = builder.constant(Fp::from_u64(3));
    let us = vec![u0_t, u1_t];
    let _g = halo_g(&mut builder, x_t, &us);
    let circuit = builder.build();
    assert!(matches!(
        circuit.generate_witness(&PartialWitness2::new()),
        Err(WitnessError::ZeroDivisor { .. })
    ));
}

/// Builds the explicit inputs of the recursive circuit for one consistent
/// inner transcript, returning the initial witness and the honest quotient
/// opening.
fn honest_inputs(rc: &plonk_recursion::recursion::RecursiveCircuit) -> (PartialWitness2, Fp) {
    let p = &rc.proof;
    let mut w = PartialWitness2::new();
    let mut fill = |w: &mut PartialWitness2, t: Target2, v: Fp| {
        w.set(t, v).unwrap();
    };

    // Arbitrary commitment and opening advice for the outer transcript.
    let mut seed: u64 = 1;
    let mut next = || {
        seed = (seed * 31 + 7) % 65537;
        Fp::from_u64(seed)
    };
    for t in &p.c_wires {
        let v = next();
        fill(&mut w, *t, v);
    }
    let v = next();
    fill(&mut w, p.c_plonk_z, v);
    for t in &p.c_plonk_t {
        let v = next();
        fill(&mut w, *t, v);
    }
    for t in p.o_constants.iter().chain(&p.o_local_wires).chain(&p.o_right_wires).chain(&p.o_below_wires) {
        let v = next();
        fill(&mut w, *t, v);
    }
    let v = next();
    fill(&mut w, p.o_plonk_z, v);
    for t in &p.o_plonk_t {
        let v = next();
        fill(&mut w, *t, v);
    }
    for t in p.halo_l_i.iter().chain(&p.halo_r_i) {
        let v = next();
        fill(&mut w, *t, v);
    }
    let v = next();
    fill(&mut w, p.halo_g, v);

    // The inner transcript, made consistent by direct computation.
    let alpha = Fp::from_u64(6);
    let beta = Fp::from_u64(10);
    let gamma = Fp::from_u64(12);
    let zeta = Fp::from_u64(3);
    let z_local = Fp::from_u64(21);
    let z_right = Fp::from_u64(33);
    let wires: Vec<Fp> = (0..9).map(|i| Fp::from_u64(40 + i)).collect();
    let sigmas: Vec<Fp> = (0..6).map(|i| Fp::from_u64(50 + i)).collect();

    let zeta4 = zeta.mul(zeta).mul(zeta).mul(zeta);
    let zero_eval = zeta4.sub(Fp::one());
    let l1 = {
        // zero_eval / (4 * (zeta - 1)); the inverse exists in the field.
        let den = Fp::from_u64(4).mul(zeta.sub(Fp::one()));
        zero_eval.mul(den.inv().unwrap())
    };
    let z1_term = l1.mul(z_local.sub(Fp::one()));
    let mut accum = Fp::one();
    let mut accum_shifted = Fp::one();
    for j in 0..6usize {
        let k_j = Fp::from_u64(2 * j as u64 + 1);
        accum = accum.mul(wires[j].add(beta.mul(k_j.mul(zeta)).add(gamma)));
        accum_shifted = accum_shifted.mul(wires[j].add(beta.mul(sigmas[j]).add(gamma)));
    }
    let v_shift_term = z_local.mul(accum).sub(z_right.mul(accum_shifted));
    let vanishing = z1_term.add(alpha.mul(v_shift_term));
    let quotient = vanishing.mul(zero_eval.inv().unwrap());

    fill(&mut w, p.inner_alpha.routable_target(), alpha);
    fill(&mut w, p.inner_beta.routable_target(), beta);
    fill(&mut w, p.inner_gamma.routable_target(), gamma);
    fill(&mut w, p.inner_zeta.routable_target(), zeta);
    fill(&mut w, p.inner_o_plonk_z.routable_target(), z_local);
    fill(&mut w, p.inner_o_plonk_z_right.routable_target(), z_right);
    for (j, pi) in p.inner_o_local_wires.iter().enumerate() {
        fill(&mut w, pi.routable_target(), wires[j]);
    }
    for (j, pi) in p.inner_o_plonk_sigmas.iter().enumerate() {
        fill(&mut w, pi.routable_target(), sigmas[j]);
    }
    for pi in p.inner_o_constants.iter().chain(&p.inner_o_right_wires).chain(&p.inner_o_below_wires) {
        let v = next();
        fill(&mut w, pi.routable_target(), v);
    }
    for pi in &p.inner_o_halo_us {
        fill(&mut w, pi.routable_target(), Fp::from_u64(2));
    }
    // The quotient opening's composite must equal the derived quotient:
    // lowest component carries it, the higher components are zero.
    for (j, pi) in p.inner_o_plonk_t.iter().enumerate() {
        let v = if j == 0 { quotient } else { Fp::zero() };
        fill(&mut w, pi.routable_target(), v);
    }
    (w, quotient)
}

#[test]
fn recursive_circuit_accepts_honest_transcript() {
    let rc = recursive_verification_circuit(2);
    let (initial, _quotient) = honest_inputs(&rc);
    let w = rc.circuit.generate_witness(&initial).unwrap();
    assert!(rc.circuit.check_witness(&w));
}

#[test]
fn recursive_circuit_rejects_perturbed_opening() {
    let rc = recursive_verification_circuit(2);
    let (honest, quotient) = honest_inputs(&rc);
    // Perturb exactly one opening value: the lowest quotient component.
    let perturbed_target = rc.proof.inner_o_plonk_t[0].routable_target();
    let mut bad = PartialWitness2::new();
    for (t, v) in &honest.entries {
        let v2 = if *t == perturbed_target { quotient.add(Fp::one()) } else { *v };
        bad.set(*t, v2).unwrap();
    }
    // The derived quotient and the opened quotient now disagree on the
    // final hard equality: resolution reports the conflict.
    match rc.circuit.generate_witness(&bad) {
        Err(WitnessError::Conflict { existing, attempted, .. }) => {
            assert!(existing != attempted);
        }
        Ok(w) => {
            // If some resolution order still completed, the copy constraint
            // must reject the witness.
            assert!(!rc.circuit.check_witness(&w));
        }
        Err(e) => panic!("unexpected failure kind: {:?}", e),
    }
}

#[test]
fn recursive_circuit_layout() {
    let rc = recursive_verification_circuit(2);
    assert!(rc.proof.c_wires.len() == 9);
    assert!(rc.proof.o_constants.len() == 6);
    assert!(rc.proof.inner_o_plonk_t.len() == 7);
    assert!(rc.proof.inner_o_halo_us.len() == 2);
    assert!(rc.proof.halo_l_i.len() == 2);
    assert!(rc.proof.halo_r_i.len() == 2);
    assert!(rc.circuit.num_public_inputs > 0);
}

#[test]
fn empty_composite_evaluates_to_zero() {
    let mut builder = CircuitBuilder2::new();
    let s = builder.constant(Fp::from_u64(2));
    let comps: Vec<Target2> = Vec::new();
    let r = eval_composite_poly(&mut builder, &comps, s);
    let circuit = builder.build();
    let w = circuit.generate_witness(&PartialWitness2::new()).unwrap();
    assert!(w.get(r).unwrap() == Fp::zero());
}
