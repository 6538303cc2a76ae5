//! The recursive-verification circuit: encodes a verifier's algebraic
//! checks over one inner proof as constraints, re-deriving every
//! Fiat-Shamir challenge inside the circuit.

use vstd::prelude::*;
use crate::field::{Fp, fp_add, fp_sub, fp_mul, fp_one, fp_zero, fp_wf, fp_inv, fp_square, fp_from_u64,
    lemma_fp_mul_comm, lemma_fp_mul_assoc, lemma_fp_add_assoc, lemma_fp_distrib,
    lemma_fp_mul_one, lemma_fp_add_zero, lemma_fp_mul_zero, lemma_fp_inv_is};
use crate::target::{Target2, PublicInput, routable, NUM_WIRES, NUM_CONSTANTS, NUM_ROUTED_WIRES,
    QUOTIENT_POLYNOMIAL_DEGREE_MULTIPLIER};
use crate::builder::{CircuitBuilder2, extends, lemma_extends_trans};
use crate::generator::{gens_hold, values_wf, lemma_gens_hold_prefix};
use crate::circuit::Circuit;
use crate::hash::sponge_state;

verus! {

/// The values a witness assigns to a sequence of targets.
pub open spec fn target_values(m: Map<Target2, Fp>, ts: Seq<Target2>) -> Seq<Fp> {
    ts.map_values(|t: Target2| m[t])
}

/// Horner evaluation of a polynomial given by its coefficients, lowest
/// first: `c0 + s*(c1 + s*(c2 + ...))`.
pub open spec fn horner_eval(vals: Seq<Fp>, s: Fp) -> Fp
    decreases vals.len(),
{
    if vals.len() == 0 {
        fp_zero()
    } else {
        fp_add(vals.first(), fp_mul(s, horner_eval(vals.drop_first(), s)))
    }
}

pub proof fn lemma_horner_wf(vals: Seq<Fp>, s: Fp)
    ensures
        fp_wf(horner_eval(vals, s)),
    decreases vals.len(),
{
    if vals.len() > 0 {
        lemma_horner_wf(vals.drop_first(), s);
    }
}

/// The Halo product, consumed factor by factor in lockstep with repeated
/// squaring of the point: `halo_fold(acc, x, us)` multiplies `acc` by
/// `(u + u^-1 * x)` for the first round element and recurses on `x^2`.
pub open spec fn halo_fold(acc: Fp, x: Fp, us: Seq<Fp>) -> Fp
    decreases us.len(),
{
    if us.len() == 0 {
        acc
    } else {
        halo_fold(
            fp_mul(acc, fp_add(us.first(), fp_mul(fp_inv(us.first()), x))),
            fp_mul(x, x),
            us.drop_first(),
        )
    }
}

/// Combines terms that must each vanish on the evaluation domain into one
/// value, weighting the term at index `i` by `alpha^i` — the same order the
/// prover used, which is load-bearing for soundness.
///
/// In every witness in which the builder's generators hold, the returned
/// target's value is the alpha-weighted sum of the term targets' values.
pub fn alpha_reduction(builder: &mut CircuitBuilder2, terms: &Vec<Target2>, alpha: Target2) -> (r: Target2)
    requires
        old(builder).wf(),
    ensures
        final(builder).wf(),
        extends(*old(builder), *final(builder)),
        routable(r),
        final(builder).num_public_inputs == old(builder).num_public_inputs,
        final(builder).num_virtual_targets == old(builder).num_virtual_targets,
        forall|m: Map<Target2, Fp>| gens_hold(final(builder).generators@, m) && values_wf(m)
            ==> m.contains_key(r)
                && (forall|j: int| 0 <= j < terms@.len() ==> m.contains_key(#[trigger] terms@[j]))
                && m[r] == horner_eval(target_values(m, terms@), m[alpha]),
{
    let ghost b0 = *builder;
    let mut reduction = builder.zero();
    let ghost b1 = *builder;
    let mut weight = builder.one();
    let n = terms.len();
    proof {
        lemma_extends_trans(b0, b1, *builder);
        assert forall|m: Map<Target2, Fp>| #[trigger] gens_hold(builder.generators@, m) && values_wf(m)
            implies m.contains_key(reduction) && m.contains_key(weight)
                && horner_eval(target_values(m, terms@), m[alpha])
                    == fp_add(m[reduction], fp_mul(m[weight], horner_eval(target_values(m, terms@.skip(0)), m[alpha]))) by {
            lemma_gens_hold_prefix(b1.generators@, builder.generators@, m);
            assert(gens_hold(b1.generators@, m));
            assert(terms@.skip(0) =~= terms@);
            let h = horner_eval(target_values(m, terms@), m[alpha]);
            lemma_horner_wf(target_values(m, terms@), m[alpha]);
            lemma_fp_mul_one(h);
            lemma_fp_add_zero(h);
            assert(m[reduction] == fp_zero());
            assert(m[weight] == fp_one());
        }
    }
    let mut i: usize = 0;
    while i < n
        invariant
            0 <= i <= n,
            n == terms@.len(),
            builder.wf(),
            extends(b0, *builder),
            routable(reduction),
            builder.num_public_inputs == b0.num_public_inputs,
            builder.num_virtual_targets == b0.num_virtual_targets,
            forall|m: Map<Target2, Fp>| #[trigger] gens_hold(builder.generators@, m) && values_wf(m)
                ==> m.contains_key(reduction) && m.contains_key(weight)
                    && (forall|j: int| 0 <= j < i ==> m.contains_key(#[trigger] terms@[j]))
                    && horner_eval(target_values(m, terms@), m[alpha])
                        == fp_add(m[reduction], fp_mul(m[weight], horner_eval(target_values(m, terms@.skip(i as int)), m[alpha]))),
        decreases n - i,
    {
        let ghost bpre = *builder;
        let ghost red0 = reduction;
        let ghost wt0 = weight;
        let weighted_term = builder.mul(weight, terms[i]);
        let ghost b_a = *builder;
        let new_reduction = builder.add(reduction, weighted_term);
        let ghost b_b = *builder;
        let new_weight = builder.mul(weight, alpha);
        proof {
            lemma_extends_trans(bpre, b_a, b_b);
            lemma_extends_trans(bpre, b_b, *builder);
            lemma_extends_trans(b0, bpre, *builder);
            assert forall|m: Map<Target2, Fp>| #[trigger] gens_hold(builder.generators@, m) && values_wf(m)
                implies m.contains_key(new_reduction) && m.contains_key(new_weight)
                    && (forall|j: int| 0 <= j < i + 1 ==> m.contains_key(#[trigger] terms@[j]))
                    && horner_eval(target_values(m, terms@), m[alpha])
                        == fp_add(m[new_reduction], fp_mul(m[new_weight], horner_eval(target_values(m, terms@.skip(i + 1)), m[alpha]))) by {
                lemma_gens_hold_prefix(b_b.generators@, builder.generators@, m);
                lemma_gens_hold_prefix(b_a.generators@, b_b.generators@, m);
                lemma_gens_hold_prefix(bpre.generators@, b_a.generators@, m);
                // The invariant at the start of this iteration.
                assert(gens_hold(bpre.generators@, m));
                let a = m[alpha];
                let ti = m[terms@[i as int]];
                let hrest = horner_eval(target_values(m, terms@.skip(i + 1)), m[alpha]);
                let hcur = horner_eval(target_values(m, terms@.skip(i as int)), m[alpha]);
                assert(terms@.skip(i as int).drop_first() =~= terms@.skip(i + 1));
                assert(target_values(m, terms@.skip(i as int)).drop_first() =~= target_values(m, terms@.skip(i + 1)));
                assert(target_values(m, terms@.skip(i as int)).first() == m[terms@.skip(i as int).first()]);
                assert(terms@.skip(i as int).first() == terms@[i as int]);
                assert(hcur == fp_add(ti, fp_mul(a, hrest)));
                // The gadget facts from this iteration.
                assert(m[weighted_term] == fp_mul(m[wt0], ti));
                assert(m[new_reduction] == fp_add(m[red0], m[weighted_term]));
                assert(m[new_weight] == fp_mul(m[wt0], a));
                // Rearrangement: red + w*(t + a*h) == (red + w*t) + (w*a)*h.
                lemma_fp_distrib(ti, fp_mul(a, hrest), m[wt0]);
                lemma_fp_mul_comm(fp_add(ti, fp_mul(a, hrest)), m[wt0]);
                lemma_fp_mul_comm(ti, m[wt0]);
                lemma_fp_mul_comm(fp_mul(a, hrest), m[wt0]);
                lemma_fp_mul_assoc(m[wt0], a, hrest);
                lemma_fp_add_assoc(m[red0], fp_mul(m[wt0], ti), fp_mul(fp_mul(m[wt0], a), hrest));
            }
        }
        reduction = new_reduction;
        weight = new_weight;
        i = i + 1;
    }
    proof {
        assert forall|m: Map<Target2, Fp>| gens_hold(builder.generators@, m) && values_wf(m)
            implies m.contains_key(reduction)
                && (forall|j: int| 0 <= j < terms@.len() ==> m.contains_key(#[trigger] terms@[j]))
                && m[reduction] == horner_eval(target_values(m, terms@), m[alpha]) by {
            assert(gens_hold(builder.generators@, m));
            assert(terms@.skip(n as int) =~= Seq::<Target2>::empty());
            assert(target_values(m, terms@.skip(n as int)) =~= Seq::<Fp>::empty());
            assert(horner_eval(target_values(m, terms@.skip(n as int)), m[alpha]) == fp_zero());
            lemma_fp_mul_zero(m[weight]);
            lemma_fp_add_zero(m[reduction]);
        }
    }
    reduction
}

/// Reconstructs a composite polynomial's evaluation from its degree-bounded
/// component openings: components ordered lowest first, evaluated from the
/// highest down by `sum = sum * zeta^d + component`.
///
/// In every witness in which the builder's generators hold, the returned
/// target's value is the Horner combination of the component values in
/// powers of the shift's value.
pub fn eval_composite_poly(builder: &mut CircuitBuilder2, component_evals: &Vec<Target2>, zeta_power_d: Target2) -> (r: Target2)
    requires
        old(builder).wf(),
    ensures
        final(builder).wf(),
        extends(*old(builder), *final(builder)),
        routable(r),
        final(builder).num_public_inputs == old(builder).num_public_inputs,
        final(builder).num_virtual_targets == old(builder).num_virtual_targets,
        forall|m: Map<Target2, Fp>| gens_hold(final(builder).generators@, m) && values_wf(m)
            ==> m.contains_key(r)
                && (forall|j: int| 0 <= j < component_evals@.len() ==> m.contains_key(#[trigger] component_evals@[j]))
                && m[r] == horner_eval(target_values(m, component_evals@), m[zeta_power_d]),
{
    let ghost b0 = *builder;
    let mut sum = builder.zero();
    let n = component_evals.len();
    let mut i: usize = n;
    while i > 0
        invariant
            0 <= i <= n,
            n == component_evals@.len(),
            builder.wf(),
            extends(b0, *builder),
            routable(sum),
            builder.num_public_inputs == b0.num_public_inputs,
            builder.num_virtual_targets == b0.num_virtual_targets,
            forall|m: Map<Target2, Fp>| #[trigger] gens_hold(builder.generators@, m) && values_wf(m)
                ==> m.contains_key(sum)
                    && (forall|j: int| i <= j < n ==> m.contains_key(#[trigger] component_evals@[j]))
                    && m[sum] == horner_eval(target_values(m, component_evals@.skip(i as int)), m[zeta_power_d]),
        decreases i,
    {
        i = i - 1;
        let ghost bpre = *builder;
        let ghost sum0 = sum;
        let scaled = builder.mul(sum, zeta_power_d);
        let ghost b_a = *builder;
        let new_sum = builder.add(scaled, component_evals[i]);
        proof {
            lemma_extends_trans(bpre, b_a, *builder);
            lemma_extends_trans(b0, bpre, *builder);
            assert forall|m: Map<Target2, Fp>| #[trigger] gens_hold(builder.generators@, m) && values_wf(m)
                implies m.contains_key(new_sum)
                    && (forall|j: int| i <= j < n ==> m.contains_key(#[trigger] component_evals@[j]))
                    && m[new_sum] == horner_eval(target_values(m, component_evals@.skip(i as int)), m[zeta_power_d]) by {
                lemma_gens_hold_prefix(b_a.generators@, builder.generators@, m);
                lemma_gens_hold_prefix(bpre.generators@, b_a.generators@, m);
                assert(gens_hold(bpre.generators@, m));
                let z = m[zeta_power_d];
                let ci = m[component_evals@[i as int]];
                assert(component_evals@.skip(i as int).drop_first() =~= component_evals@.skip(i + 1));
                assert(target_values(m, component_evals@.skip(i as int)).drop_first()
                    =~= target_values(m, component_evals@.skip(i + 1)));
                assert(target_values(m, component_evals@.skip(i as int)).first()
                    == m[component_evals@.skip(i as int).first()]);
                assert(component_evals@.skip(i as int).first() == component_evals@[i as int]);
                assert(m[scaled] == fp_mul(m[sum0], z));
                assert(m[new_sum] == fp_add(m[scaled], ci));
                lemma_fp_mul_comm(m[sum0], z);
            }
        }
        sum = new_sum;
    }
    proof {
        assert forall|m: Map<Target2, Fp>| gens_hold(builder.generators@, m) && values_wf(m)
            implies m.contains_key(sum)
                && (forall|j: int| 0 <= j < component_evals@.len() ==> m.contains_key(#[trigger] component_evals@[j]))
                && m[sum] == horner_eval(target_values(m, component_evals@), m[zeta_power_d]) by {
            assert(gens_hold(builder.generators@, m));
            assert(component_evals@.skip(0) =~= component_evals@);
        }
    }
    sum
}

/// Evaluates `g(x, {u_i})` from the Halo paper in-circuit: the product over
/// reduction rounds of `(u_i + u_i^-1 * x^(2^i))`, by repeated squaring of
/// `x` in lockstep with consuming each `u_i`. Each round places a
/// constrained inversion, so a witness giving any `u_i` the additive
/// identity is unsatisfiable, and resolution fails on it rather than
/// dividing by zero.
pub fn halo_g(builder: &mut CircuitBuilder2, x: Target2, us: &Vec<Target2>) -> (r: Target2)
    requires
        old(builder).wf(),
    ensures
        final(builder).wf(),
        extends(*old(builder), *final(builder)),
        routable(r),
        final(builder).num_public_inputs == old(builder).num_public_inputs,
        final(builder).num_virtual_targets == old(builder).num_virtual_targets,
        forall|m: Map<Target2, Fp>| gens_hold(final(builder).generators@, m) && values_wf(m)
            ==> m.contains_key(r)
                && (forall|j: int| 0 <= j < us@.len() ==> m.contains_key(#[trigger] us@[j]))
                && (forall|j: int| 0 <= j < us@.len() ==> m[#[trigger] us@[j]] != fp_zero())
                && m[r] == halo_fold(fp_one(), m[x], target_values(m, us@)),
{
    let ghost b0 = *builder;
    let mut product = builder.one();
    let mut x_power = x;
    let n = us.len();
    proof {
        assert forall|m: Map<Target2, Fp>| #[trigger] gens_hold(builder.generators@, m) && values_wf(m)
            implies m.contains_key(product)
                && halo_fold(m[product], m[x_power], target_values(m, us@.skip(0)))
                    == halo_fold(fp_one(), m[x], target_values(m, us@)) by {
            assert(gens_hold(builder.generators@, m));
            assert(m[product] == fp_one());
            assert(us@.skip(0) =~= us@);
        }
    }
    let mut i: usize = 0;
    while i < n
        invariant
            0 <= i <= n,
            n == us@.len(),
            builder.wf(),
            extends(b0, *builder),
            routable(product),
            builder.num_public_inputs == b0.num_public_inputs,
            builder.num_virtual_targets == b0.num_virtual_targets,
            forall|m: Map<Target2, Fp>| #[trigger] gens_hold(builder.generators@, m) && values_wf(m)
                ==> m.contains_key(product)
                    && (forall|j: int| 0 <= j < i ==> m.contains_key(#[trigger] us@[j]))
                    && (forall|j: int| 0 <= j < i ==> m[#[trigger] us@[j]] != fp_zero())
                    && halo_fold(m[product], m[x_power], target_values(m, us@.skip(i as int)))
                        == halo_fold(fp_one(), m[x], target_values(m, us@)),
        decreases n - i,
    {
        let ghost bpre = *builder;
        let ghost prod0 = product;
        let ghost xp0 = x_power;
        let u_i = us[i];
        let u_i_inv = builder.inv(u_i);
        let ghost b_a = *builder;
        let u_i_inv_times_x_power = builder.mul(u_i_inv, x_power);
        let ghost b_b = *builder;
        let term = builder.add(u_i, u_i_inv_times_x_power);
        let ghost b_c = *builder;
        let new_product = builder.mul(product, term);
        let ghost b_d = *builder;
        let new_x_power = builder.mul(x_power, x_power);
        proof {
            lemma_extends_trans(bpre, b_a, b_b);
            lemma_extends_trans(bpre, b_b, b_c);
            lemma_extends_trans(bpre, b_c, b_d);
            lemma_extends_trans(bpre, b_d, *builder);
            lemma_extends_trans(b0, bpre, *builder);
            assert forall|m: Map<Target2, Fp>| #[trigger] gens_hold(builder.generators@, m) && values_wf(m)
                implies m.contains_key(new_product)
                    && (forall|j: int| 0 <= j < i + 1 ==> m.contains_key(#[trigger] us@[j]))
                    && (forall|j: int| 0 <= j < i + 1 ==> m[#[trigger] us@[j]] != fp_zero())
                    && halo_fold(m[new_product], m[new_x_power], target_values(m, us@.skip(i + 1)))
                        == halo_fold(fp_one(), m[x], target_values(m, us@)) by {
                lemma_gens_hold_prefix(b_d.generators@, builder.generators@, m);
                lemma_gens_hold_prefix(b_c.generators@, b_d.generators@, m);
                lemma_gens_hold_prefix(b_b.generators@, b_c.generators@, m);
                lemma_gens_hold_prefix(b_a.generators@, b_b.generators@, m);
                lemma_gens_hold_prefix(bpre.generators@, b_a.generators@, m);
                assert(gens_hold(bpre.generators@, m));
                let uv = m[us@[i as int]];
                assert(fp_mul(uv, m[u_i_inv]) == fp_one());
                lemma_fp_inv_is(uv, m[u_i_inv]);
                // A zero round element cannot satisfy the inversion
                // constraint: zero times anything is zero, never one.
                assert(uv != fp_zero()) by {
                    lemma_fp_mul_zero(m[u_i_inv]);
                }
                assert(us@.skip(i as int).drop_first() =~= us@.skip(i + 1));
                assert(target_values(m, us@.skip(i as int)).drop_first()
                    =~= target_values(m, us@.skip(i + 1)));
                assert(target_values(m, us@.skip(i as int)).first()
                    == m[us@.skip(i as int).first()]);
                assert(us@.skip(i as int).first() == us@[i as int]);
                assert(m[u_i_inv_times_x_power] == fp_mul(m[u_i_inv], m[xp0]));
                assert(m[term] == fp_add(uv, m[u_i_inv_times_x_power]));
                assert(m[new_product] == fp_mul(m[prod0], m[term]));
                assert(m[new_x_power] == fp_mul(m[xp0], m[xp0]));
                assert(halo_fold(m[prod0], m[xp0], target_values(m, us@.skip(i as int)))
                    == halo_fold(
                        fp_mul(m[prod0], fp_add(uv, fp_mul(fp_inv(uv), m[xp0]))),
                        fp_mul(m[xp0], m[xp0]),
                        target_values(m, us@.skip(i + 1))));
            }
        }
        product = new_product;
        x_power = new_x_power;
        i = i + 1;
    }
    proof {
        assert forall|m: Map<Target2, Fp>| gens_hold(builder.generators@, m) && values_wf(m)
            implies m.contains_key(product)
                && (forall|j: int| 0 <= j < us@.len() ==> m.contains_key(#[trigger] us@[j]))
                && (forall|j: int| 0 <= j < us@.len() ==> m[#[trigger] us@[j]] != fp_zero())
                && m[product] == halo_fold(fp_one(), m[x], target_values(m, us@)) by {
            assert(gens_hold(builder.generators@, m));
            assert(us@.skip(n as int) =~= Seq::<Target2>::empty());
            assert(halo_fold(m[product], m[x_power], target_values(m, us@.skip(n as int))) == m[product]);
        }
    }
    product
}

/// Wraps a circuit built for recursive verification together with the
/// declared targets for the proof data it checks.
pub struct RecursiveCircuit {
    pub circuit: Circuit,
    pub proof: ProofTarget,
}

/// The verifier-circuit's declared targets for one inner proof: a
/// structured view over the circuit's wire and public-input space, not
/// separate storage.
pub struct ProofTarget {
    /// A commitment to each wire polynomial.
    pub c_wires: Vec<Target2>,
    /// A commitment to Z, in the context of the permutation argument.
    pub c_plonk_z: Target2,
    /// A commitment to the quotient polynomial.
    pub c_plonk_t: Vec<Target2>,
    /// The purported opening of each constant polynomial.
    pub o_constants: Vec<Target2>,
    /// The purported opening of each wire polynomial at `zeta`.
    pub o_local_wires: Vec<Target2>,
    /// The purported opening of each wire polynomial at `g * zeta`.
    pub o_right_wires: Vec<Target2>,
    /// The purported opening of each wire polynomial at `g^65 * zeta`.
    pub o_below_wires: Vec<Target2>,
    /// The purported opening of Z, in the context of the permutation argument.
    pub o_plonk_z: Target2,
    /// The purported opening of the quotient polynomial.
    pub o_plonk_t: Vec<Target2>,
    /// The previous proof's challenges and openings, staged as public
    /// inputs because they cross the proof-composition boundary unverified.
    pub inner_alpha: PublicInput,
    pub inner_beta: PublicInput,
    pub inner_gamma: PublicInput,
    pub inner_zeta: PublicInput,
    pub inner_o_constants: Vec<PublicInput>,
    pub inner_o_local_wires: Vec<PublicInput>,
    pub inner_o_right_wires: Vec<PublicInput>,
    pub inner_o_below_wires: Vec<PublicInput>,
    pub inner_o_plonk_z: PublicInput,
    /// The inner proof's opening of Z at the shifted point `g * zeta`.
    pub inner_o_plonk_z_right: PublicInput,
    /// The inner proof's openings of the permutation (sigma) polynomials.
    pub inner_o_plonk_sigmas: Vec<PublicInput>,
    pub inner_o_plonk_t: Vec<PublicInput>,
    pub inner_o_halo_us: Vec<PublicInput>,
    /// L_i in the Halo reduction.
    pub halo_l_i: Vec<Target2>,
    /// R_i in the Halo reduction.
    pub halo_r_i: Vec<Target2>,
    /// The purported value of G, i.e. `<s, G>`, in the context of Halo.
    pub halo_g: Target2,
}

/// The vector lengths the recursive construction promises of its proof
/// target, for a given number of Halo reduction rounds.
pub open spec fn proof_target_wf(p: ProofTarget, degree_pow: nat) -> bool {
    p.c_wires@.len() == NUM_WIRES
    && p.c_plonk_t@.len() == QUOTIENT_POLYNOMIAL_DEGREE_MULTIPLIER
    && p.o_constants@.len() == NUM_CONSTANTS
    && p.o_local_wires@.len() == NUM_WIRES
    && p.o_right_wires@.len() == NUM_WIRES
    && p.o_below_wires@.len() == NUM_WIRES
    && p.o_plonk_t@.len() == QUOTIENT_POLYNOMIAL_DEGREE_MULTIPLIER
    && p.inner_o_constants@.len() == NUM_CONSTANTS
    && p.inner_o_local_wires@.len() == NUM_WIRES
    && p.inner_o_right_wires@.len() == NUM_WIRES
    && p.inner_o_below_wires@.len() == NUM_WIRES
    && p.inner_o_plonk_sigmas@.len() == NUM_ROUTED_WIRES
    && p.inner_o_plonk_t@.len() == QUOTIENT_POLYNOMIAL_DEGREE_MULTIPLIER
    && p.inner_o_halo_us@.len() == degree_pow
    && p.halo_l_i@.len() == degree_pow
    && p.halo_r_i@.len() == degree_pow
}

/// The routable witness locations of a list of staged public inputs.
fn routable_targets(pis: &Vec<PublicInput>) -> (r: Vec<Target2>)
    ensures
        r@.len() == pis@.len(),
        forall|i: int| 0 <= i < pis@.len()
            ==> #[trigger] r@[i] == (Target2::PublicInput { index: pis@[i].index })
                && routable(r@[i]),
{
    let n = pis.len();
    let mut out: Vec<Target2> = Vec::new();
    let mut i: usize = 0;
    while i < n
        invariant
            0 <= i <= n,
            n == pis@.len(),
            out@.len() == i,
            forall|j: int| 0 <= j < i
                ==> #[trigger] out@[j] == (Target2::PublicInput { index: pis@[j].index })
                    && routable(out@[j]),
        decreases n - i,
    {
        out.push(pis[i].routable_target());
        i = i + 1;
    }
    out
}

/// `x^(2^k)`, by `k` squarings.
pub open spec fn fp_pow2k(x: Fp, k: nat) -> Fp
    decreases k,
{
    if k == 0 {
        x
    } else {
        fp_square(fp_pow2k(x, (k - 1) as nat))
    }
}

/// The witness location of a staged public input.
pub open spec fn pi_target(pi: PublicInput) -> Target2 {
    Target2::PublicInput { index: pi.index }
}

/// The witness locations of a list of staged public inputs.
pub open spec fn pi_targets(pis: Seq<PublicInput>) -> Seq<Target2> {
    pis.map_values(|pi: PublicInput| pi_target(pi))
}

/// The identity-side permutation accumulator over the first `n` routed
/// wires: `prod (w_j + beta * k_j * zeta + gamma)` with coset
/// representative `k_j = 2j + 1`.
pub open spec fn id_accum(wires: Seq<Fp>, beta: Fp, zeta: Fp, gamma: Fp, n: nat) -> Fp
    decreases n,
{
    if n == 0 {
        fp_one()
    } else {
        fp_mul(
            id_accum(wires, beta, zeta, gamma, (n - 1) as nat),
            fp_add(
                wires[n - 1],
                fp_add(fp_mul(beta, fp_mul(fp_from_u64((2 * (n - 1) + 1) as u64), zeta)), gamma),
            ),
        )
    }
}

/// The sigma-side permutation accumulator over the first `n` routed wires:
/// `prod (w_j + beta * sigma_j + gamma)`.
pub open spec fn sigma_accum(wires: Seq<Fp>, sigmas: Seq<Fp>, beta: Fp, gamma: Fp, n: nat) -> Fp
    decreases n,
{
    if n == 0 {
        fp_one()
    } else {
        fp_mul(
            sigma_accum(wires, sigmas, beta, gamma, (n - 1) as nat),
            fp_add(wires[n - 1], fp_add(fp_mul(beta, sigmas[n - 1]), gamma)),
        )
    }
}

/// The algebraic check the construction encodes, over one witness's values:
/// with `zpd = zeta^degree` (obtained by squaring) and
/// `Z_H(zeta) = zpd - 1`, the composite of the inner quotient openings is
/// the Horner combination in powers of `zpd`; and for the first-Lagrange
/// value `l1` — constrained, never an external inverse oracle, by
/// `l1 * degree * (zeta - 1) = Z_H(zeta)` — the derived quotient `q`
/// satisfies `Z_H(zeta) * q = ` the alpha-weighted combination of the
/// boundary term `l1 * (Z(zeta) - 1)`, the shift-consistency term
/// `Z(zeta) * accum - Z(g zeta) * accum'`, and the supplied gate-constraint
/// term values, in exactly that order.
pub open spec fn inner_proof_checks(
    m: Map<Target2, Fp>,
    proof: ProofTarget,
    extra_term_values: Seq<Fp>,
    degree_pow: usize,
    alpha_v: Fp,
    zeta_v: Fp,
    quotient_v: Fp,
    composite_v: Fp,
) -> bool {
    let zpd = fp_pow2k(zeta_v, degree_pow as nat);
    let zh = fp_sub(zpd, fp_one());
    let degree_v = fp_from_u64(1u64 << (degree_pow as u64));
    let zl = m[pi_target(proof.inner_o_plonk_z)];
    let zr = m[pi_target(proof.inner_o_plonk_z_right)];
    let beta_v = m[pi_target(proof.inner_beta)];
    let gamma_v = m[pi_target(proof.inner_gamma)];
    let wires = target_values(m, pi_targets(proof.inner_o_local_wires@));
    let sigmas = target_values(m, pi_targets(proof.inner_o_plonk_sigmas@));
    let v_shift = fp_sub(
        fp_mul(zl, id_accum(wires, beta_v, zeta_v, gamma_v, NUM_ROUTED_WIRES as nat)),
        fp_mul(zr, sigma_accum(wires, sigmas, beta_v, gamma_v, NUM_ROUTED_WIRES as nat)),
    );
    &&& composite_v == horner_eval(target_values(m, pi_targets(proof.inner_o_plonk_t@)), zpd)
    &&& exists|l1: Fp|
        fp_mul(l1, fp_mul(degree_v, fp_sub(zeta_v, fp_one()))) == zh
            && fp_mul(zh, quotient_v) == horner_eval(
                seq![fp_mul(l1, fp_sub(zl, fp_one())), v_shift] + extra_term_values,
                alpha_v,
            )
}

/// The six challenge targets hold, in every generator-consistent witness,
/// exactly the verifier's Fiat-Shamir transcript, derived in the prover's
/// order: `(beta, gamma)` from the wire commitments; `alpha` from `beta`
/// and the Z commitment; `zeta` from `alpha` and the quotient commitments;
/// `(v, u)` from `zeta` and all openings in declaration order. No challenge
/// is supplied from outside.
pub open spec fn transcript_ok(
    c: Circuit,
    proof: ProofTarget,
    beta_t: Target2,
    gamma_t: Target2,
    alpha_t: Target2,
    zeta_t: Target2,
    v_t: Target2,
    u_t: Target2,
) -> bool {
    forall|m: Map<Target2, Fp>| #[trigger] gens_hold(c.generators@, m) && values_wf(m)
        ==> (m[beta_t], m[gamma_t]) == sponge_state(target_values(m, proof.c_wires@))
            && m[alpha_t] == sponge_state(seq![m[beta_t], m[proof.c_plonk_z]]).0
            && m[zeta_t] == sponge_state(seq![m[alpha_t]] + target_values(m, proof.c_plonk_t@)).0
            && (m[v_t], m[u_t]) == sponge_state(
                seq![m[zeta_t]]
                    + target_values(m, proof.o_constants@)
                    + target_values(m, proof.o_local_wires@)
                    + target_values(m, proof.o_right_wires@)
                    + target_values(m, proof.o_below_wires@)
                    + seq![m[proof.o_plonk_z]]
                    + target_values(m, proof.o_plonk_t@))
}

/// Checks the algebraic relations of the inner proof against its staged
/// openings and challenges: the vanishing-polynomial value at `zeta`, the
/// first Lagrange-basis value, the permutation argument's boundary and
/// shift-consistency terms combined — alpha-weighted, in the prover's term
/// order — with the supplied gate-constraint terms, and finally the hard
/// equality between the derived quotient evaluation and the composite of
/// the quotient values the inner proof actually opened.
///
/// The two permutation-argument terms are derived from the argument's own
/// soundness conditions: `L_1(zeta) * (Z(zeta) - 1)` vanishes on the domain
/// exactly when `Z(1) = 1`, and
/// `Z(zeta) * accum(zeta) - Z(g*zeta) * accum'(zeta)` vanishes exactly when
/// the accumulator stays consistent across the shift. `constraint_terms`
/// carries the already-built gate-constraint term targets of the concrete
/// gate set, appended after the two permutation terms.
///
/// Returns the pair the final constraint equates — the derived quotient
/// evaluation and the inner quotient composite — left in one permutation
/// class; in every witness in which the builder's generators hold, their
/// values satisfy `inner_proof_checks`.
pub fn verify_assumptions(
    builder: &mut CircuitBuilder2,
    degree_pow: usize,
    proof: &ProofTarget,
    constraint_terms: &Vec<Target2>,
    alpha: Target2,
    zeta: Target2,
) -> (r: (Target2, Target2))
    requires
        old(builder).wf(),
        proof_target_wf(*proof, degree_pow as nat),
        degree_pow <= 62,
    ensures
        final(builder).wf(),
        extends(*old(builder), *final(builder)),
        final(builder).num_public_inputs == old(builder).num_public_inputs,
        final(builder).num_virtual_targets == old(builder).num_virtual_targets,
        final(builder).partitions.same_class(r.0, r.1),
        forall|m: Map<Target2, Fp>| gens_hold(final(builder).generators@, m) && values_wf(m)
            ==> m.contains_key(r.0) && m.contains_key(r.1)
                && inner_proof_checks(m, *proof, target_values(m, constraint_terms@), degree_pow,
                    m[alpha], m[zeta], m[r.0], m[r.1]),
{
    let ghost b0 = *builder;
    // The domain size; degree_pow is capped only so the shift stays inside
    // a 64-bit word (a machine limit, not a protocol one).
    let degree: u64 = 1u64 << (degree_pow as u64);
    let degree_f = Fp::from_u64(degree);
    let degree_wire = builder.constant(degree_f);
    let ghost b1 = *builder;
    let one = builder.one();
    let ghost b2 = *builder;
    proof {
        lemma_extends_trans(b0, b1, b2);
    }

    // Evaluate zeta^degree by repeated squaring.
    let mut zeta_power_d = zeta;
    let mut i: usize = 0;
    while i < degree_pow
        invariant
            i <= degree_pow,
            builder.wf(),
            extends(b2, *builder),
            builder.num_public_inputs == b2.num_public_inputs,
            builder.num_virtual_targets == b2.num_virtual_targets,
            forall|m: Map<Target2, Fp>| #[trigger] gens_hold(builder.generators@, m) && values_wf(m)
                ==> m[zeta_power_d] == fp_pow2k(m[zeta], i as nat),
        decreases degree_pow - i,
    {
        let ghost bpre = *builder;
        let ghost zp0 = zeta_power_d;
        zeta_power_d = builder.square(zeta_power_d);
        proof {
            lemma_extends_trans(b2, bpre, *builder);
            assert forall|m: Map<Target2, Fp>| #[trigger] gens_hold(builder.generators@, m) && values_wf(m)
                implies m[zeta_power_d] == fp_pow2k(m[zeta], (i + 1) as nat) by {
                lemma_gens_hold_prefix(bpre.generators@, builder.generators@, m);
                assert(gens_hold(bpre.generators@, m));
                assert(m[zeta_power_d] == fp_mul(m[zp0], m[zp0]));
            }
        }
        i = i + 1;
    }
    let ghost b3 = *builder;

    // Evaluate Z_H(zeta) = zeta^degree - 1.
    let zero_eval = builder.sub(zeta_power_d, one);
    let ghost b4 = *builder;

    // Evaluate L_1(zeta) = (zeta^degree - 1) / (degree * (zeta - 1)), as a
    // constrained division.
    let zeta_minus_one = builder.sub(zeta, one);
    let ghost b5 = *builder;
    let lagrange_1_eval_denominator = builder.mul(degree_wire, zeta_minus_one);
    let ghost b6 = *builder;
    let lagrange_1_eval = builder.div(zero_eval, lagrange_1_eval_denominator);
    let ghost b7 = *builder;

    let beta = proof.inner_beta.routable_target();
    let gamma = proof.inner_gamma.routable_target();
    let z_local = proof.inner_o_plonk_z.routable_target();
    let z_right = proof.inner_o_plonk_z_right.routable_target();

    // Boundary term: L_1(zeta) * (Z(zeta) - 1) vanishes on the domain
    // exactly when Z(1) = 1.
    let z_minus_one = builder.sub(z_local, one);
    let ghost b8 = *builder;
    let vanishing_z_1_term = builder.mul(lagrange_1_eval, z_minus_one);
    let ghost b9 = *builder;

    // Shift-consistency term: Z(zeta) * accum(zeta) - Z(g zeta) * accum'(zeta),
    // with accum over the routed wires' identity cosets and accum' over the
    // sigma openings. The representatives k_j = 2j + 1 are a parameter
    // choice: the permutation argument's soundness needs them in distinct
    // cosets of the evaluation domain, a property of the concrete field and
    // domain size that is the protocol instantiation's obligation; the
    // contracts here pin the algebraic identities for the representatives
    // as built.
    let mut accum = builder.one();
    let ghost b10 = *builder;
    let mut accum_shifted = builder.one();
    let ghost b11 = *builder;
    proof {
        lemma_extends_trans(b9, b10, b11);
        assert forall|m: Map<Target2, Fp>| #[trigger] gens_hold(builder.generators@, m) && values_wf(m)
            implies m.contains_key(accum) && m.contains_key(accum_shifted)
                && m[accum] == fp_one() && m[accum_shifted] == fp_one() by {
            lemma_gens_hold_prefix(b10.generators@, builder.generators@, m);
            assert(gens_hold(b10.generators@, m));
        }
    }
    let ghost wires_ts = pi_targets(proof.inner_o_local_wires@);
    let ghost sigmas_ts = pi_targets(proof.inner_o_plonk_sigmas@);
    let mut j: usize = 0;
    while j < NUM_ROUTED_WIRES
        invariant
            j <= NUM_ROUTED_WIRES,
            builder.wf(),
            extends(b11, *builder),
            builder.num_public_inputs == b11.num_public_inputs,
            builder.num_virtual_targets == b11.num_virtual_targets,
            proof_target_wf(*proof, degree_pow as nat),
            wires_ts == pi_targets(proof.inner_o_local_wires@),
            sigmas_ts == pi_targets(proof.inner_o_plonk_sigmas@),
            beta == pi_target(proof.inner_beta),
            gamma == pi_target(proof.inner_gamma),
            forall|m: Map<Target2, Fp>| #[trigger] gens_hold(builder.generators@, m) && values_wf(m)
                ==> m.contains_key(accum) && m.contains_key(accum_shifted)
                    && m[accum] == id_accum(target_values(m, wires_ts), m[beta], m[zeta], m[gamma], j as nat)
                    && m[accum_shifted] == sigma_accum(target_values(m, wires_ts), target_values(m, sigmas_ts), m[beta], m[gamma], j as nat),
        decreases NUM_ROUTED_WIRES - j,
    {
        let ghost bpre = *builder;
        let ghost acc0 = accum;
        let ghost accs0 = accum_shifted;
        let w_j = proof.inner_o_local_wires[j].routable_target();
        let k_j = builder.constant(Fp::from_canonical_usize(2 * j + 1));
        let ghost c1 = *builder;
        let k_j_zeta = builder.mul(k_j, zeta);
        let ghost c2 = *builder;
        let beta_k_j_zeta = builder.mul(beta, k_j_zeta);
        let ghost c3 = *builder;
        let id_part = builder.add(beta_k_j_zeta, gamma);
        let ghost c4 = *builder;
        let id_factor = builder.add(w_j, id_part);
        let ghost c5 = *builder;
        let new_accum = builder.mul(accum, id_factor);
        let ghost c6 = *builder;

        let s_j = proof.inner_o_plonk_sigmas[j].routable_target();
        let beta_s_j = builder.mul(beta, s_j);
        let ghost c7 = *builder;
        let sigma_part = builder.add(beta_s_j, gamma);
        let ghost c8 = *builder;
        let sigma_factor = builder.add(w_j, sigma_part);
        let ghost c9 = *builder;
        let new_accum_shifted = builder.mul(accum_shifted, sigma_factor);
        proof {
            lemma_extends_trans(bpre, c1, c2);
            lemma_extends_trans(bpre, c2, c3);
            lemma_extends_trans(bpre, c3, c4);
            lemma_extends_trans(bpre, c4, c5);
            lemma_extends_trans(bpre, c5, c6);
            lemma_extends_trans(bpre, c6, c7);
            lemma_extends_trans(bpre, c7, c8);
            lemma_extends_trans(bpre, c8, c9);
            lemma_extends_trans(bpre, c9, *builder);
            lemma_extends_trans(b11, bpre, *builder);
            assert forall|m: Map<Target2, Fp>| #[trigger] gens_hold(builder.generators@, m) && values_wf(m)
                implies m.contains_key(new_accum) && m.contains_key(new_accum_shifted)
                    && m[new_accum] == id_accum(target_values(m, wires_ts), m[beta], m[zeta], m[gamma], (j + 1) as nat)
                    && m[new_accum_shifted] == sigma_accum(target_values(m, wires_ts), target_values(m, sigmas_ts), m[beta], m[gamma], (j + 1) as nat) by {
                lemma_gens_hold_prefix(c9.generators@, builder.generators@, m);
                lemma_gens_hold_prefix(c8.generators@, c9.generators@, m);
                lemma_gens_hold_prefix(c7.generators@, c8.generators@, m);
                lemma_gens_hold_prefix(c6.generators@, c7.generators@, m);
                lemma_gens_hold_prefix(c5.generators@, c6.generators@, m);
                lemma_gens_hold_prefix(c4.generators@, c5.generators@, m);
                lemma_gens_hold_prefix(c3.generators@, c4.generators@, m);
                lemma_gens_hold_prefix(c2.generators@, c3.generators@, m);
                lemma_gens_hold_prefix(c1.generators@, c2.generators@, m);
                lemma_gens_hold_prefix(bpre.generators@, c1.generators@, m);
                assert(gens_hold(bpre.generators@, m));
                let wires = target_values(m, wires_ts);
                let sigmas = target_values(m, sigmas_ts);
                assert(wires_ts[j as int] == pi_target(proof.inner_o_local_wires@[j as int]));
                assert(w_j == wires_ts[j as int]);
                assert(wires[j as int] == m[w_j]);
                assert(sigmas_ts[j as int] == pi_target(proof.inner_o_plonk_sigmas@[j as int]));
                assert(s_j == sigmas_ts[j as int]);
                assert(sigmas[j as int] == m[s_j]);
                assert(m[k_j] == fp_from_u64((2 * j + 1) as u64));
                assert(m[k_j_zeta] == fp_mul(m[k_j], m[zeta]));
                assert(m[beta_k_j_zeta] == fp_mul(m[beta], m[k_j_zeta]));
                assert(m[id_part] == fp_add(m[beta_k_j_zeta], m[gamma]));
                assert(m[id_factor] == fp_add(m[w_j], m[id_part]));
                assert(m[new_accum] == fp_mul(m[acc0], m[id_factor]));
                assert(m[beta_s_j] == fp_mul(m[beta], m[s_j]));
                assert(m[sigma_part] == fp_add(m[beta_s_j], m[gamma]));
                assert(m[sigma_factor] == fp_add(m[w_j], m[sigma_part]));
                assert(m[new_accum_shifted] == fp_mul(m[accs0], m[sigma_factor]));
            }
        }
        accum = new_accum;
        accum_shifted = new_accum_shifted;
        j = j + 1;
    }
    let ghost b12 = *builder;
    let z_accum = builder.mul(z_local, accum);
    let ghost b13 = *builder;
    let z_right_accum = builder.mul(z_right, accum_shifted);
    let ghost b14 = *builder;
    let vanishing_v_shift_term = builder.sub(z_accum, z_right_accum);
    let ghost b15 = *builder;

    // Combine the terms that must vanish on the domain, alpha-weighted in
    // the prover's term order: boundary, shift-consistency, then the
    // supplied gate-constraint terms.
    let mut terms: Vec<Target2> = Vec::new();
    terms.push(vanishing_z_1_term);
    terms.push(vanishing_v_shift_term);
    push_all(&mut terms, constraint_terms);
    let vanishing_eval = alpha_reduction(builder, &terms, alpha);
    let ghost b16 = *builder;

    // Derive the quotient evaluation and assert, as a hard equality
    // constraint, that it matches the composite of the inner proof's
    // quotient-component openings.
    let quotient_eval = builder.div(vanishing_eval, zero_eval);
    let ghost b17 = *builder;
    let inner_o_plonk_t_targets = routable_targets(&proof.inner_o_plonk_t);
    let inner_o_plonk_t_eval = eval_composite_poly(builder, &inner_o_plonk_t_targets, zeta_power_d);
    let ghost b18 = *builder;
    let copied = builder.copy(quotient_eval, inner_o_plonk_t_eval);
    proof {
        assert(copied is Ok);
        lemma_extends_trans(b3, b4, b5);
        lemma_extends_trans(b3, b5, b6);
        lemma_extends_trans(b3, b6, b7);
        lemma_extends_trans(b3, b7, b8);
        lemma_extends_trans(b3, b8, b9);
        lemma_extends_trans(b3, b9, b11);
        lemma_extends_trans(b3, b11, b12);
        lemma_extends_trans(b3, b12, b13);
        lemma_extends_trans(b3, b13, b14);
        lemma_extends_trans(b3, b14, b15);
        lemma_extends_trans(b3, b15, b16);
        lemma_extends_trans(b3, b16, b17);
        lemma_extends_trans(b3, b17, b18);
        lemma_extends_trans(b3, b18, *builder);
        lemma_extends_trans(b2, b3, *builder);
        lemma_extends_trans(b0, b2, *builder);
        assert forall|m: Map<Target2, Fp>| gens_hold(builder.generators@, m) && values_wf(m)
            implies m.contains_key(quotient_eval) && m.contains_key(inner_o_plonk_t_eval)
                && inner_proof_checks(m, *proof, target_values(m, constraint_terms@), degree_pow,
                    m[alpha], m[zeta], m[quotient_eval], m[inner_o_plonk_t_eval]) by {
            assert(gens_hold(builder.generators@, m));
            lemma_gens_hold_prefix(b18.generators@, builder.generators@, m);
            lemma_gens_hold_prefix(b17.generators@, b18.generators@, m);
            lemma_gens_hold_prefix(b16.generators@, b17.generators@, m);
            lemma_gens_hold_prefix(b15.generators@, b16.generators@, m);
            lemma_gens_hold_prefix(b14.generators@, b15.generators@, m);
            lemma_gens_hold_prefix(b13.generators@, b14.generators@, m);
            lemma_gens_hold_prefix(b12.generators@, b13.generators@, m);
            lemma_gens_hold_prefix(b11.generators@, b12.generators@, m);
            lemma_gens_hold_prefix(b9.generators@, b11.generators@, m);
            lemma_gens_hold_prefix(b8.generators@, b9.generators@, m);
            lemma_gens_hold_prefix(b7.generators@, b8.generators@, m);
            lemma_gens_hold_prefix(b6.generators@, b7.generators@, m);
            lemma_gens_hold_prefix(b5.generators@, b6.generators@, m);
            lemma_gens_hold_prefix(b4.generators@, b5.generators@, m);
            lemma_gens_hold_prefix(b3.generators@, b4.generators@, m);
            lemma_gens_hold_prefix(b2.generators@, b3.generators@, m);
            assert(gens_hold(b2.generators@, m));
            assert(gens_hold(b3.generators@, m));
            assert(gens_hold(b12.generators@, m));
            assert(gens_hold(b16.generators@, m));
            let zv = m[zeta];
            let av = m[alpha];
            let zpd = fp_pow2k(zv, degree_pow as nat);
            let zh = fp_sub(zpd, fp_one());
            // The squaring chain and the subtraction give Z_H's value.
            assert(m[zeta_power_d] == zpd);
            assert(m[one] == fp_one());
            assert(m[zero_eval] == fp_sub(m[zeta_power_d], m[one]));
            assert(m[zero_eval] == zh);
            // The constrained Lagrange division.
            assert(m[degree_wire] == fp_from_u64(1u64 << (degree_pow as u64)));
            assert(m[zeta_minus_one] == fp_sub(zv, fp_one()));
            assert(m[lagrange_1_eval_denominator] == fp_mul(m[degree_wire], m[zeta_minus_one]));
            assert(fp_mul(m[lagrange_1_eval_denominator], m[lagrange_1_eval]) == m[zero_eval]);
            let l1v = m[lagrange_1_eval];
            lemma_fp_mul_comm(m[lagrange_1_eval_denominator], l1v);
            assert(fp_mul(l1v, fp_mul(m[degree_wire], fp_sub(zv, fp_one()))) == zh);
            // The boundary term's value.
            let zl = m[pi_target(proof.inner_o_plonk_z)];
            assert(z_local == pi_target(proof.inner_o_plonk_z));
            assert(m[z_minus_one] == fp_sub(zl, fp_one()));
            assert(m[vanishing_z_1_term] == fp_mul(l1v, fp_sub(zl, fp_one())));
            // The shift-consistency term's value.
            let zr = m[pi_target(proof.inner_o_plonk_z_right)];
            assert(z_right == pi_target(proof.inner_o_plonk_z_right));
            assert(beta == pi_target(proof.inner_beta));
            assert(gamma == pi_target(proof.inner_gamma));
            let wires = target_values(m, wires_ts);
            let sigmas = target_values(m, sigmas_ts);
            assert(m[accum] == id_accum(wires, m[beta], zv, m[gamma], NUM_ROUTED_WIRES as nat));
            assert(m[accum_shifted] == sigma_accum(wires, sigmas, m[beta], m[gamma], NUM_ROUTED_WIRES as nat));
            assert(m[z_accum] == fp_mul(zl, m[accum]));
            assert(m[z_right_accum] == fp_mul(zr, m[accum_shifted]));
            assert(m[vanishing_v_shift_term] == fp_sub(m[z_accum], m[z_right_accum]));
            // The alpha-weighted combination over the term list.
            assert(terms@ == seq![vanishing_z_1_term, vanishing_v_shift_term] + constraint_terms@);
            assert(m[vanishing_eval] == horner_eval(target_values(m, terms@), av));
            let spec_terms = seq![
                fp_mul(l1v, fp_sub(zl, fp_one())),
                m[vanishing_v_shift_term],
            ] + target_values(m, constraint_terms@);
            assert(target_values(m, terms@) =~= spec_terms);
            // The constrained quotient division and the composite.
            assert(fp_mul(m[zero_eval], m[quotient_eval]) == m[vanishing_eval]);
            assert(m[inner_o_plonk_t_eval] == horner_eval(target_values(m, inner_o_plonk_t_targets@), m[zeta_power_d]));
            assert(inner_o_plonk_t_targets@ =~= pi_targets(proof.inner_o_plonk_t@));
            // Assemble the named check, with the built Lagrange value as the
            // existential witness.
            assert(fp_mul(l1v, fp_mul(fp_from_u64(1u64 << (degree_pow as u64)), fp_sub(zv, fp_one()))) == zh
                && fp_mul(zh, m[quotient_eval]) == horner_eval(spec_terms, av));
            assert(inner_proof_checks(m, *proof, target_values(m, constraint_terms@), degree_pow,
                av, zv, m[quotient_eval], m[inner_o_plonk_t_eval]));
        }
    }
    (quotient_eval, inner_o_plonk_t_eval)
}

/// Builds a circuit whose satisfying witnesses correspond to valid openings
/// and challenges of one inner proof, for an output circuit of degree
/// `2^degree_pow`. Inner-proof data is staged as public inputs; the data
/// being proven now enters as virtual advice; every Fiat-Shamir challenge is
/// re-derived inside the circuit by hashing the commitments in the prover's
/// transcript order — no externally supplied challenge is trusted.
///
/// The contract carries the construction's guarantees into the built
/// artifact: a pair of targets carrying the derived quotient and the inner
/// quotient composite shares one copy-constraint class, their values
/// satisfying `inner_proof_checks` in every witness consistent with the
/// circuit's generators; and the first challenge pair holds exactly the
/// sponge of the wire-commitment targets, the start of the transcript the
/// later challenges chain from.
pub fn recursive_verification_circuit(degree_pow: usize) -> (r: RecursiveCircuit)
    requires
        degree_pow <= 62,
    ensures
        r.circuit.wf(),
        proof_target_wf(r.proof, degree_pow as nat),
        r.circuit.num_public_inputs == 4 + NUM_CONSTANTS + 3 * NUM_WIRES + 2
            + NUM_ROUTED_WIRES + QUOTIENT_POLYNOMIAL_DEGREE_MULTIPLIER + degree_pow,
        exists|q: Target2, t: Target2|
            r.circuit.copies.same_class(q, t)
                && (forall|m: Map<Target2, Fp>| gens_hold(r.circuit.generators@, m) && values_wf(m)
                    ==> m.contains_key(q) && m.contains_key(t)
                        && inner_proof_checks(m, r.proof, Seq::<Fp>::empty(), degree_pow,
                            m[pi_target(r.proof.inner_alpha)], m[pi_target(r.proof.inner_zeta)],
                            m[q], m[t])),
        exists|beta_t: Target2, gamma_t: Target2, alpha_t: Target2, zeta_t: Target2, v_t: Target2, u_t: Target2|
            #[trigger] transcript_ok(r.circuit, r.proof, beta_t, gamma_t, alpha_t, zeta_t, v_t, u_t),
{
    let mut builder = CircuitBuilder2::new();
    let proof = ProofTarget {
        c_wires: builder.add_virtual_targets(NUM_WIRES),
        c_plonk_z: builder.add_virtual_target(),
        c_plonk_t: builder.add_virtual_targets(QUOTIENT_POLYNOMIAL_DEGREE_MULTIPLIER),
        o_constants: builder.add_virtual_targets(NUM_CONSTANTS),
        o_local_wires: builder.add_virtual_targets(NUM_WIRES),
        o_right_wires: builder.add_virtual_targets(NUM_WIRES),
        o_below_wires: builder.add_virtual_targets(NUM_WIRES),
        o_plonk_z: builder.add_virtual_target(),
        o_plonk_t: builder.add_virtual_targets(QUOTIENT_POLYNOMIAL_DEGREE_MULTIPLIER),
        inner_alpha: builder.stage_public_input(),
        inner_beta: builder.stage_public_input(),
        inner_gamma: builder.stage_public_input(),
        inner_zeta: builder.stage_public_input(),
        inner_o_constants: builder.stage_public_inputs(NUM_CONSTANTS),
        inner_o_local_wires: builder.stage_public_inputs(NUM_WIRES),
        inner_o_right_wires: builder.stage_public_inputs(NUM_WIRES),
        inner_o_below_wires: builder.stage_public_inputs(NUM_WIRES),
        inner_o_plonk_z: builder.stage_public_input(),
        inner_o_plonk_z_right: builder.stage_public_input(),
        inner_o_plonk_sigmas: builder.stage_public_inputs(NUM_ROUTED_WIRES),
        inner_o_plonk_t: builder.stage_public_inputs(QUOTIENT_POLYNOMIAL_DEGREE_MULTIPLIER),
        inner_o_halo_us: builder.stage_public_inputs(degree_pow),
        halo_l_i: builder.add_virtual_targets(degree_pow),
        halo_r_i: builder.add_virtual_targets(degree_pow),
        halo_g: builder.add_virtual_target(),
    };
    builder.route_public_inputs();

    // Derive the challenges by hashing commitments, mirroring the prover's
    // transcript order exactly.
    let bg = builder.rescue_hash_n_to_2(&proof.c_wires);
    let ghost h1 = builder;
    let beta = bg.0;
    let mut alpha_inputs: Vec<Target2> = Vec::new();
    alpha_inputs.push(beta);
    alpha_inputs.push(proof.c_plonk_z);
    let alpha = builder.rescue_hash_n_to_1(&alpha_inputs);
    let ghost h2 = builder;
    let mut zeta_inputs: Vec<Target2> = Vec::new();
    zeta_inputs.push(alpha);
    push_all(&mut zeta_inputs, &proof.c_plonk_t);
    let zeta = builder.rescue_hash_n_to_1(&zeta_inputs);
    let ghost h3 = builder;
    let mut vu_inputs: Vec<Target2> = Vec::new();
    vu_inputs.push(zeta);
    push_all(&mut vu_inputs, &proof.o_constants);
    push_all(&mut vu_inputs, &proof.o_local_wires);
    push_all(&mut vu_inputs, &proof.o_right_wires);
    push_all(&mut vu_inputs, &proof.o_below_wires);
    vu_inputs.push(proof.o_plonk_z);
    push_all(&mut vu_inputs, &proof.o_plonk_t);
    let vu = builder.rescue_hash_n_to_2(&vu_inputs);
    let ghost h4 = builder;

    // The concrete gate set's constraint terms are its collaborator's to
    // build; none are registered here, so the supplied list is empty.
    let gate_constraint_terms: Vec<Target2> = Vec::new();
    let inner_alpha_t = proof.inner_alpha.routable_target();
    let inner_zeta_t = proof.inner_zeta.routable_target();
    let quotient_pair = verify_assumptions(
        &mut builder,
        degree_pow,
        &proof,
        &gate_constraint_terms,
        inner_alpha_t,
        inner_zeta_t,
    );
    let ghost h5 = builder;

    let circuit = builder.build();
    let rc = RecursiveCircuit { circuit, proof };
    proof {
        lemma_extends_trans(h1, h2, h3);
        lemma_extends_trans(h1, h3, h4);
        lemma_extends_trans(h1, h4, h5);
        assert(rc.circuit.copies.same_class(quotient_pair.0, quotient_pair.1));
        assert forall|m: Map<Target2, Fp>| gens_hold(rc.circuit.generators@, m) && values_wf(m)
            implies m.contains_key(quotient_pair.0) && m.contains_key(quotient_pair.1)
                && inner_proof_checks(m, rc.proof, Seq::<Fp>::empty(), degree_pow,
                    m[pi_target(rc.proof.inner_alpha)], m[pi_target(rc.proof.inner_zeta)],
                    m[quotient_pair.0], m[quotient_pair.1]) by {
            assert(rc.circuit.generators@ == h5.generators@);
            assert(gens_hold(h5.generators@, m));
            assert(target_values(m, gate_constraint_terms@) =~= Seq::<Fp>::empty());
            assert(pi_target(rc.proof.inner_alpha) == inner_alpha_t);
            assert(pi_target(rc.proof.inner_zeta) == inner_zeta_t);
        }
        assert forall|m: Map<Target2, Fp>| #[trigger] gens_hold(rc.circuit.generators@, m) && values_wf(m)
            implies (m[bg.0], m[bg.1]) == sponge_state(target_values(m, rc.proof.c_wires@))
                && m[alpha] == sponge_state(seq![m[bg.0], m[rc.proof.c_plonk_z]]).0
                && m[zeta] == sponge_state(seq![m[alpha]] + target_values(m, rc.proof.c_plonk_t@)).0
                && (m[vu.0], m[vu.1]) == sponge_state(
                    seq![m[zeta]]
                        + target_values(m, rc.proof.o_constants@)
                        + target_values(m, rc.proof.o_local_wires@)
                        + target_values(m, rc.proof.o_right_wires@)
                        + target_values(m, rc.proof.o_below_wires@)
                        + seq![m[rc.proof.o_plonk_z]]
                        + target_values(m, rc.proof.o_plonk_t@)) by {
            assert(rc.circuit.generators@ == h5.generators@);
            lemma_gens_hold_prefix(h4.generators@, h5.generators@, m);
            lemma_gens_hold_prefix(h3.generators@, h4.generators@, m);
            lemma_gens_hold_prefix(h2.generators@, h3.generators@, m);
            lemma_gens_hold_prefix(h1.generators@, h2.generators@, m);
            assert(gens_hold(h1.generators@, m));
            assert(gens_hold(h2.generators@, m));
            assert(gens_hold(h3.generators@, m));
            assert(gens_hold(h4.generators@, m));
            assert(target_values(m, alpha_inputs@) =~= seq![m[bg.0], m[rc.proof.c_plonk_z]]);
            assert(zeta_inputs@ == seq![alpha] + rc.proof.c_plonk_t@);
            assert(target_values(m, zeta_inputs@) =~= seq![m[alpha]] + target_values(m, rc.proof.c_plonk_t@));
            assert(vu_inputs@ == seq![zeta] + rc.proof.o_constants@ + rc.proof.o_local_wires@
                + rc.proof.o_right_wires@ + rc.proof.o_below_wires@ + seq![rc.proof.o_plonk_z]
                + rc.proof.o_plonk_t@);
            assert(target_values(m, vu_inputs@) =~= seq![m[zeta]]
                + target_values(m, rc.proof.o_constants@)
                + target_values(m, rc.proof.o_local_wires@)
                + target_values(m, rc.proof.o_right_wires@)
                + target_values(m, rc.proof.o_below_wires@)
                + seq![m[rc.proof.o_plonk_z]]
                + target_values(m, rc.proof.o_plonk_t@));
        }
        assert(transcript_ok(rc.circuit, rc.proof, bg.0, bg.1, alpha, zeta, vu.0, vu.1));
    }
    rc
}

/// Appends every element of `src` to `dst`.
fn push_all(dst: &mut Vec<Target2>, src: &Vec<Target2>)
    ensures
        final(dst)@ == old(dst)@ + src@,
{
    let n = src.len();
    let mut i: usize = 0;
    while i < n
        invariant
            0 <= i <= n,
            n == src@.len(),
            dst@ == old(dst)@ + src@.take(i as int),
        decreases n - i,
    {
        dst.push(src[i]);
        proof {
            assert(old(dst)@ + src@.take(i + 1) =~= (old(dst)@ + src@.take(i as int)).push(src@[i as int]));
        }
        i = i + 1;
    }
    proof {
        assert(src@.take(n as int) =~= src@);
    }
}

} // verus!
