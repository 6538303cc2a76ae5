//! In-circuit hash-to-field gadgets for Fiat-Shamir challenge derivation.
//!
//! The construction is an algebraic sponge in the style of Rescue — absorb
//! by addition, permute by cubing and swapping — built entirely from the
//! arithmetic gadgets. Its output is pinned, in every witness in which the
//! builder's generators hold, as a function of the absorbed targets' values
//! alone, so a challenge can only be influenced through the transcript that
//! was hashed. Collision resistance is a cryptographic property of the
//! permutation and is not claimed here.

use vstd::prelude::*;
use crate::field::{Fp, fp_add, fp_mul, fp_zero};
use crate::target::{Target2, routable};
use crate::builder::{CircuitBuilder2, extends, lemma_extends_trans};
use crate::generator::{gens_hold, values_wf, lemma_gens_hold_prefix};
use crate::recursion::target_values;

verus! {

/// One absorption step of the sponge: add the input into the rate element,
/// cube it, add the capacity element, swap.
pub open spec fn sponge_absorb(st: (Fp, Fp), v: Fp) -> (Fp, Fp) {
    let a1 = fp_add(st.0, v);
    (fp_add(fp_mul(fp_mul(a1, a1), a1), st.1), a1)
}

/// The sponge state after absorbing a sequence of values into the all-zero
/// initial state.
pub open spec fn sponge_state(vals: Seq<Fp>) -> (Fp, Fp)
    decreases vals.len(),
{
    if vals.len() == 0 {
        (fp_zero(), fp_zero())
    } else {
        sponge_absorb(sponge_state(vals.drop_last()), vals.last())
    }
}

impl CircuitBuilder2 {
    /// One sponge round in-circuit: absorb `t`, cube the rate element, add
    /// the capacity element, swap.
    fn sponge_round(&mut self, a: Target2, b: Target2, t: Target2) -> (r: (Target2, Target2))
        requires
            old(self).wf(),
        ensures
            final(self).wf(),
            extends(*old(self), *final(self)),
            routable(r.0),
            routable(r.1),
            final(self).num_public_inputs == old(self).num_public_inputs,
            final(self).num_virtual_targets == old(self).num_virtual_targets,
            forall|m: Map<Target2, Fp>| gens_hold(final(self).generators@, m) && values_wf(m)
                ==> m.contains_key(a) && m.contains_key(b) && m.contains_key(t)
                    && m.contains_key(r.0) && m.contains_key(r.1)
                    && (m[r.0], m[r.1]) == sponge_absorb((m[a], m[b]), m[t]),
    {
        let ghost b0 = *self;
        let a1 = self.add(a, t);
        let ghost b1 = *self;
        let sq = self.mul(a1, a1);
        let ghost b2 = *self;
        proof { lemma_extends_trans(b0, b1, b2); }
        let cube = self.mul(sq, a1);
        let ghost b3 = *self;
        proof { lemma_extends_trans(b0, b2, b3); }
        let a2 = self.add(cube, b);
        proof {
            lemma_extends_trans(b0, b3, *self);
            assert forall|m: Map<Target2, Fp>| gens_hold(self.generators@, m) && values_wf(m)
                implies m.contains_key(a) && m.contains_key(b) && m.contains_key(t)
                    && m.contains_key(a2) && m.contains_key(a1)
                    && (m[a2], m[a1]) == sponge_absorb((m[a], m[b]), m[t]) by {
                lemma_gens_hold_prefix(b3.generators@, self.generators@, m);
                lemma_gens_hold_prefix(b2.generators@, b3.generators@, m);
                lemma_gens_hold_prefix(b1.generators@, b2.generators@, m);
                assert(gens_hold(b1.generators@, m));
                assert(gens_hold(b2.generators@, m));
                assert(gens_hold(b3.generators@, m));
                assert(m[a1] == fp_add(m[a], m[t]));
                assert(m[sq] == fp_mul(m[a1], m[a1]));
                assert(m[cube] == fp_mul(m[sq], m[a1]));
                assert(m[a2] == fp_add(m[cube], m[b]));
            }
        }
        (a2, a1)
    }

    /// Hashes a sequence of targets to two field targets, for challenge
    /// pairs such as beta/gamma and v/u. In every witness in which the
    /// builder's generators hold, the result is the sponge state after
    /// absorbing the inputs' values in order.
    pub fn rescue_hash_n_to_2(&mut self, inputs: &Vec<Target2>) -> (r: (Target2, Target2))
        requires
            old(self).wf(),
        ensures
            final(self).wf(),
            extends(*old(self), *final(self)),
            routable(r.0),
            routable(r.1),
            final(self).num_public_inputs == old(self).num_public_inputs,
            final(self).num_virtual_targets == old(self).num_virtual_targets,
            forall|m: Map<Target2, Fp>| gens_hold(final(self).generators@, m) && values_wf(m)
                ==> m.contains_key(r.0) && m.contains_key(r.1)
                    && (forall|j: int| 0 <= j < inputs@.len() ==> m.contains_key(#[trigger] inputs@[j]))
                    && (m[r.0], m[r.1]) == sponge_state(target_values(m, inputs@)),
    {
        let ghost b0 = *self;
        let mut a = self.zero();
        let ghost b1 = *self;
        let mut b = self.zero();
        let n = inputs.len();
        proof {
            lemma_extends_trans(b0, b1, *self);
            assert forall|m: Map<Target2, Fp>| #[trigger] gens_hold(self.generators@, m) && values_wf(m)
                implies m.contains_key(a) && m.contains_key(b)
                    && (m[a], m[b]) == sponge_state(target_values(m, inputs@.take(0))) by {
                lemma_gens_hold_prefix(b1.generators@, self.generators@, m);
                assert(gens_hold(b1.generators@, m));
                assert(inputs@.take(0) =~= Seq::<Target2>::empty());
                assert(target_values(m, inputs@.take(0)) =~= Seq::<Fp>::empty());
            }
        }
        let mut i: usize = 0;
        while i < n
            invariant
                0 <= i <= n,
                n == inputs@.len(),
                self.wf(),
                extends(b0, *self),
                routable(a),
                routable(b),
                self.num_public_inputs == b0.num_public_inputs,
                self.num_virtual_targets == b0.num_virtual_targets,
                forall|m: Map<Target2, Fp>| #[trigger] gens_hold(self.generators@, m) && values_wf(m)
                    ==> m.contains_key(a) && m.contains_key(b)
                        && (forall|j: int| 0 <= j < i ==> m.contains_key(#[trigger] inputs@[j]))
                        && (m[a], m[b]) == sponge_state(target_values(m, inputs@.take(i as int))),
            decreases n - i,
        {
            let ghost bpre = *self;
            let ghost a0 = a;
            let ghost bcap0 = b;
            let st = self.sponge_round(a, b, inputs[i]);
            proof {
                lemma_extends_trans(b0, bpre, *self);
                assert forall|m: Map<Target2, Fp>| #[trigger] gens_hold(self.generators@, m) && values_wf(m)
                    implies m.contains_key(st.0) && m.contains_key(st.1)
                        && (forall|j: int| 0 <= j < i + 1 ==> m.contains_key(#[trigger] inputs@[j]))
                        && (m[st.0], m[st.1]) == sponge_state(target_values(m, inputs@.take(i + 1))) by {
                    lemma_gens_hold_prefix(bpre.generators@, self.generators@, m);
                    assert(gens_hold(bpre.generators@, m));
                    assert(inputs@.take(i + 1).drop_last() =~= inputs@.take(i as int));
                    assert(target_values(m, inputs@.take(i + 1)).drop_last()
                        =~= target_values(m, inputs@.take(i as int)));
                    assert(target_values(m, inputs@.take(i + 1)).last()
                        == m[inputs@.take(i + 1).last()]);
                    assert(inputs@.take(i + 1).last() == inputs@[i as int]);
                    assert((m[st.0], m[st.1]) == sponge_absorb((m[a0], m[bcap0]), m[inputs@[i as int]]));
                }
            }
            a = st.0;
            b = st.1;
            i = i + 1;
        }
        proof {
            assert forall|m: Map<Target2, Fp>| gens_hold(self.generators@, m) && values_wf(m)
                implies m.contains_key(a) && m.contains_key(b)
                    && (forall|j: int| 0 <= j < inputs@.len() ==> m.contains_key(#[trigger] inputs@[j]))
                    && (m[a], m[b]) == sponge_state(target_values(m, inputs@)) by {
                assert(gens_hold(self.generators@, m));
                assert(inputs@.take(n as int) =~= inputs@);
            }
        }
        (a, b)
    }

    /// Hashes a sequence of targets to one field target, for single
    /// challenges such as alpha and zeta: the rate element of the final
    /// sponge state.
    pub fn rescue_hash_n_to_1(&mut self, inputs: &Vec<Target2>) -> (r: Target2)
        requires
            old(self).wf(),
        ensures
            final(self).wf(),
            extends(*old(self), *final(self)),
            routable(r),
            final(self).num_public_inputs == old(self).num_public_inputs,
            final(self).num_virtual_targets == old(self).num_virtual_targets,
            forall|m: Map<Target2, Fp>| gens_hold(final(self).generators@, m) && values_wf(m)
                ==> m.contains_key(r)
                    && (forall|j: int| 0 <= j < inputs@.len() ==> m.contains_key(#[trigger] inputs@[j]))
                    && m[r] == sponge_state(target_values(m, inputs@)).0,
    {
        let st = self.rescue_hash_n_to_2(inputs);
        st.0
    }
}

} // verus!
