//! Witness generators: units of deferred computation that fill targets once
//! their declared dependencies are known.

use vstd::prelude::*;
use crate::field::{Fp, fp_add, fp_sub, fp_mul, fp_one, fp_wf};
use crate::target::Target2;
use crate::witness::{PartialWitness2, WitnessError, compatible};

verus! {

/// The closed vocabulary of witness generators this circuit framework uses.
///
/// Each generator declares the targets it depends on and, once those are
/// known, produces a value for its output target.
#[derive(Copy, Clone, Debug)]
pub enum WitnessGenerator2 {
    /// Once `x` is known, gives `y` the same value.
    CopyValue { x: Target2, y: Target2 },
    /// Gives `target` the fixed value `value`, with no dependencies.
    ConstantValue { target: Target2, value: Fp },
    /// `out` becomes `a + b`.
    Add { a: Target2, b: Target2, out: Target2 },
    /// `out` becomes `a - b`.
    Sub { a: Target2, b: Target2, out: Target2 },
    /// `out` becomes `a * b`.
    Mul { a: Target2, b: Target2, out: Target2 },
    /// `out` becomes `num / den`; fails when `den` is the additive identity.
    Div { num: Target2, den: Target2, out: Target2 },
    /// `out` becomes the multiplicative inverse of `x`; fails when `x` is
    /// the additive identity.
    Inv { x: Target2, out: Target2 },
}

/// The relation a generator's run establishes between its targets' values.
///
/// For `Div` and `Inv` this is the constrained form: `den * out == num`
/// and `x * out == one` — a mapping with a zero divisor can never satisfy
/// it, rather than satisfying it with an arbitrary quotient.
pub open spec fn gen_holds(g: WitnessGenerator2, m: Map<Target2, Fp>) -> bool {
    match g {
        WitnessGenerator2::CopyValue { x, y } =>
            m.contains_key(x) && m.contains_key(y) && m[y] == m[x],
        WitnessGenerator2::ConstantValue { target, value } =>
            m.contains_key(target) && m[target] == value,
        WitnessGenerator2::Add { a, b, out } =>
            m.contains_key(a) && m.contains_key(b) && m.contains_key(out)
                && m[out] == fp_add(m[a], m[b]),
        WitnessGenerator2::Sub { a, b, out } =>
            m.contains_key(a) && m.contains_key(b) && m.contains_key(out)
                && m[out] == fp_sub(m[a], m[b]),
        WitnessGenerator2::Mul { a, b, out } =>
            m.contains_key(a) && m.contains_key(b) && m.contains_key(out)
                && m[out] == fp_mul(m[a], m[b]),
        WitnessGenerator2::Div { num, den, out } =>
            m.contains_key(num) && m.contains_key(den) && m.contains_key(out)
                && fp_mul(m[den], m[out]) == m[num],
        WitnessGenerator2::Inv { x, out } =>
            m.contains_key(x) && m.contains_key(out)
                && fp_mul(m[x], m[out]) == fp_one(),
    }
}

/// Every generator in the list holds of the mapping.
pub open spec fn gens_hold(gens: Seq<WitnessGenerator2>, m: Map<Target2, Fp>) -> bool {
    forall|i: int| 0 <= i < gens.len() ==> #[trigger] gen_holds(gens[i], m)
}

/// The dependency set of a generator, as a sequence of targets.
pub open spec fn spec_deps(g: WitnessGenerator2) -> Seq<Target2> {
    match g {
        WitnessGenerator2::CopyValue { x, .. } => seq![x],
        WitnessGenerator2::ConstantValue { .. } => seq![],
        WitnessGenerator2::Add { a, b, .. } => seq![a, b],
        WitnessGenerator2::Sub { a, b, .. } => seq![a, b],
        WitnessGenerator2::Mul { a, b, .. } => seq![a, b],
        WitnessGenerator2::Div { num, den, .. } => seq![num, den],
        WitnessGenerator2::Inv { x, .. } => seq![x],
    }
}

/// The target whose value a generator constrains as a divisor, for the
/// kinds that divide or invert.
pub open spec fn spec_divisor(g: WitnessGenerator2) -> Option<Target2> {
    match g {
        WitnessGenerator2::Div { den, .. } => Some(den),
        WitnessGenerator2::Inv { x, .. } => Some(x),
        _ => None,
    }
}

/// The single target a generator writes.
pub open spec fn spec_output(g: WitnessGenerator2) -> Target2 {
    match g {
        WitnessGenerator2::CopyValue { y, .. } => y,
        WitnessGenerator2::ConstantValue { target, .. } => target,
        WitnessGenerator2::Add { out, .. } => out,
        WitnessGenerator2::Sub { out, .. } => out,
        WitnessGenerator2::Mul { out, .. } => out,
        WitnessGenerator2::Div { out, .. } => out,
        WitnessGenerator2::Inv { out, .. } => out,
    }
}

pub open spec fn deps_present(g: WitnessGenerator2, m: Map<Target2, Fp>) -> bool {
    forall|i: int| 0 <= i < spec_deps(g).len() ==> m.contains_key(#[trigger] spec_deps(g)[i])
}

/// A generator carries only well-formed field constants.
pub open spec fn gen_wf(g: WitnessGenerator2) -> bool {
    match g {
        WitnessGenerator2::ConstantValue { value, .. } => fp_wf(value),
        _ => true,
    }
}

/// All values a mapping holds are well-formed field elements.
pub open spec fn values_wf(m: Map<Target2, Fp>) -> bool {
    forall|k: Target2| m.contains_key(k) ==> fp_wf(#[trigger] m[k])
}

/// A generator's relation only mentions targets whose values it names, so it
/// keeps holding when the mapping grows without changing existing values.
#[verifier::rlimit(50)]
pub proof fn lemma_gen_holds_extend(g: WitnessGenerator2, m1: Map<Target2, Fp>, m2: Map<Target2, Fp>)
    requires
        gen_holds(g, m1),
        m1.submap_of(m2),
    ensures
        gen_holds(g, m2),
{
    assert forall|k: Target2| #[trigger] m1.dom().contains(k)
        implies m2.dom().contains(k) && m1[k] == m2[k] by {
        assert(m1.submap_of(m2));
    }
    match g {
        WitnessGenerator2::CopyValue { x, y } => {
            assert(gen_holds(g, m2)) by {
                assert(m1.dom().contains(x) && m1.dom().contains(y));
                assert(m2.dom().contains(x) && m1[x] == m2[x]);
                assert(m2.dom().contains(y) && m1[y] == m2[y]);
            }
        }
        WitnessGenerator2::ConstantValue { target: t, value: c } => {
            assert(gen_holds(g, m2)) by {
                assert(m1.dom().contains(t));
                assert(m2.dom().contains(t) && m1[t] == m2[t]);
            }
        }
        WitnessGenerator2::Add { a, b, out } => {
            assert(gen_holds(g, m2)) by {
                assert(m1.dom().contains(a) && m1.dom().contains(b) && m1.dom().contains(out));
                assert(m2.dom().contains(a) && m1[a] == m2[a]);
                assert(m2.dom().contains(b) && m1[b] == m2[b]);
                assert(m2.dom().contains(out) && m1[out] == m2[out]);
            }
        }
        WitnessGenerator2::Sub { a, b, out } => {
            assert(gen_holds(g, m2)) by {
                assert(m1.dom().contains(a) && m1.dom().contains(b) && m1.dom().contains(out));
                assert(m2.dom().contains(a) && m1[a] == m2[a]);
                assert(m2.dom().contains(b) && m1[b] == m2[b]);
                assert(m2.dom().contains(out) && m1[out] == m2[out]);
            }
        }
        WitnessGenerator2::Mul { a, b, out } => {
            assert(gen_holds(g, m2)) by {
                assert(m1.dom().contains(a) && m1.dom().contains(b) && m1.dom().contains(out));
                assert(m2.dom().contains(a) && m1[a] == m2[a]);
                assert(m2.dom().contains(b) && m1[b] == m2[b]);
                assert(m2.dom().contains(out) && m1[out] == m2[out]);
            }
        }
        WitnessGenerator2::Div { num, den, out } => {
            assert(gen_holds(g, m2)) by {
                assert(m1.dom().contains(num) && m1.dom().contains(den) && m1.dom().contains(out));
                assert(m2.dom().contains(num) && m1[num] == m2[num]);
                assert(m2.dom().contains(den) && m1[den] == m2[den]);
                assert(m2.dom().contains(out) && m1[out] == m2[out]);
            }
        }
        WitnessGenerator2::Inv { x, out } => {
            assert(gen_holds(g, m2)) by {
                assert(m1.dom().contains(x) && m1.dom().contains(out));
                assert(m2.dom().contains(x) && m1[x] == m2[x]);
                assert(m2.dom().contains(out) && m1[out] == m2[out]);
            }
        }
    }
}

/// A well-formed singleton fragment for one computed value.
fn fragment(out: Target2, v: Fp) -> (pw: PartialWitness2)
    ensures
        pw.wf(),
        pw@ == Map::<Target2, Fp>::empty().insert(out, v),
        pw@.dom() == Set::<Target2>::empty().insert(out),
        pw@[out] == v,
{
    let pw = PartialWitness2::singleton(out, v);
    proof {
        assert(pw@.dom() =~= Set::<Target2>::empty().insert(out));
    }
    pw
}

/// Holding of a longer generator list implies holding of any prefix.
pub proof fn lemma_gens_hold_prefix(pre: Seq<WitnessGenerator2>, full: Seq<WitnessGenerator2>, m: Map<Target2, Fp>)
    requires
        pre.is_prefix_of(full),
        gens_hold(full, m),
    ensures
        gens_hold(pre, m),
{
    assert forall|i: int| 0 <= i < pre.len() implies #[trigger] gen_holds(pre[i], m) by {
        assert(pre[i] == full[i]);
    }
}

impl WitnessGenerator2 {
    /// The targets that must be known before this generator can run.
    pub fn dependencies(&self) -> (r: Vec<Target2>)
        ensures
            r@ == spec_deps(*self),
    {
        match *self {
            WitnessGenerator2::CopyValue { x, .. } => {
                let mut v: Vec<Target2> = Vec::new();
                v.push(x);
                proof { assert(v@ =~= spec_deps(*self)); }
                v
            }
            WitnessGenerator2::ConstantValue { .. } => {
                let v: Vec<Target2> = Vec::new();
                proof { assert(v@ =~= spec_deps(*self)); }
                v
            }
            WitnessGenerator2::Add { a, b, .. } => {
                let mut v: Vec<Target2> = Vec::new();
                v.push(a);
                v.push(b);
                proof { assert(v@ =~= spec_deps(*self)); }
                v
            }
            WitnessGenerator2::Sub { a, b, .. } => {
                let mut v: Vec<Target2> = Vec::new();
                v.push(a);
                v.push(b);
                proof { assert(v@ =~= spec_deps(*self)); }
                v
            }
            WitnessGenerator2::Mul { a, b, .. } => {
                let mut v: Vec<Target2> = Vec::new();
                v.push(a);
                v.push(b);
                proof { assert(v@ =~= spec_deps(*self)); }
                v
            }
            WitnessGenerator2::Div { num, den, .. } => {
                let mut v: Vec<Target2> = Vec::new();
                v.push(num);
                v.push(den);
                proof { assert(v@ =~= spec_deps(*self)); }
                v
            }
            WitnessGenerator2::Inv { x, .. } => {
                let mut v: Vec<Target2> = Vec::new();
                v.push(x);
                proof { assert(v@ =~= spec_deps(*self)); }
                v
            }
        }
    }

    /// Whether every dependency is bound in the witness.
    pub fn deps_met(&self, w: &PartialWitness2) -> (r: bool)
        requires
            w.wf(),
        ensures
            r == deps_present(*self, w@),
    {
        let deps = self.dependencies();
        let n = deps.len();
        let mut i: usize = 0;
        while i < n
            invariant
                0 <= i <= n,
                n == deps@.len(),
                deps@ == spec_deps(*self),
                w.wf(),
                forall|j: int| 0 <= j < i ==> w@.contains_key(#[trigger] deps@[j]),
            decreases n - i,
        {
            if !w.contains(deps[i]) {
                return false;
            }
            i = i + 1;
        }
        true
    }

    /// Runs the generator once, against a read-only view of the witness,
    /// producing the singleton fragment it computed.
    ///
    /// The fragment's value satisfies this generator's relation with the
    /// dependency values read from `w`; `Div` and `Inv` fail exactly when
    /// the divisor is the additive identity.
    pub fn run_once(&self, w: &PartialWitness2) -> (r: Result<PartialWitness2, WitnessError>)
        requires
            w.wf(),
            deps_present(*self, w@),
            values_wf(w@),
            gen_wf(*self),
        ensures
            match r {
                Ok(pw) => pw.wf()
                    && pw@.dom() == Set::<Target2>::empty().insert(spec_output(*self))
                    && fp_wf(pw@[spec_output(*self)])
                    && (compatible(w@, pw@) ==> gen_holds(*self, w@.union_prefer_right(pw@))),
                Err(e) => (match *self {
                    WitnessGenerator2::Div { den, .. } =>
                        e == (WitnessError::ZeroDivisor { target: den })
                            && (forall|b: Fp| fp_wf(b) ==> fp_mul(w@[den], b) != fp_one()),
                    WitnessGenerator2::Inv { x, .. } =>
                        e == (WitnessError::ZeroDivisor { target: x })
                            && (forall|b: Fp| fp_wf(b) ==> fp_mul(w@[x], b) != fp_one()),
                    _ => false,
                }),
            },
    {
        match *self {
            WitnessGenerator2::CopyValue { x, y } => {
                proof { assert(spec_deps(*self)[0] == x); }
                let v = w.get(x).unwrap();
                let pw = fragment(y, v);
                proof {
                    assert(fp_wf(v));
                    let m = w@.union_prefer_right(pw@);
                    assert(m.contains_key(x) && m.contains_key(y) && m[y] == v);
                }
                Ok(pw)
            }
            WitnessGenerator2::ConstantValue { target, value } => {
                Ok(fragment(target, value))
            }
            WitnessGenerator2::Add { a, b, out } => {
                proof {
                    assert(spec_deps(*self)[0] == a);
                    assert(spec_deps(*self)[1] == b);
                }
                let va = w.get(a).unwrap();
                let vb = w.get(b).unwrap();
                Ok(fragment(out, va.add(vb)))
            }
            WitnessGenerator2::Sub { a, b, out } => {
                proof {
                    assert(spec_deps(*self)[0] == a);
                    assert(spec_deps(*self)[1] == b);
                }
                let va = w.get(a).unwrap();
                let vb = w.get(b).unwrap();
                Ok(fragment(out, va.sub(vb)))
            }
            WitnessGenerator2::Mul { a, b, out } => {
                proof {
                    assert(spec_deps(*self)[0] == a);
                    assert(spec_deps(*self)[1] == b);
                }
                let va = w.get(a).unwrap();
                let vb = w.get(b).unwrap();
                Ok(fragment(out, va.mul(vb)))
            }
            WitnessGenerator2::Div { num, den, out } => {
                proof {
                    assert(spec_deps(*self)[0] == num);
                    assert(spec_deps(*self)[1] == den);
                }
                let vnum = w.get(num).unwrap();
                let vden = w.get(den).unwrap();
                match vden.inv() {
                    Some(vden_inv) => {
                        let q = vnum.mul(vden_inv);
                        proof {
                            crate::field::lemma_fp_mul_assoc(w@[den], w@[num], vden_inv);
                            crate::field::lemma_fp_mul_comm(w@[num], vden_inv);
                            crate::field::lemma_fp_mul_comm(w@[den], vden_inv);
                            crate::field::lemma_fp_mul_assoc(w@[num], w@[den], vden_inv);
                            crate::field::lemma_fp_mul_comm(w@[num], fp_one());
                            crate::field::lemma_fp_mul_one(w@[num]);
                            crate::field::lemma_fp_mul_comm(w@[den], q);
                        }
                        Ok(fragment(out, q))
                    }
                    None => {
                        Err(WitnessError::ZeroDivisor { target: den })
                    }
                }
            }
            WitnessGenerator2::Inv { x, out } => {
                proof { assert(spec_deps(*self)[0] == x); }
                let vx = w.get(x).unwrap();
                match vx.inv() {
                    Some(vx_inv) => {
                        Ok(fragment(out, vx_inv))
                    }
                    None => {
                        Err(WitnessError::ZeroDivisor { target: x })
                    }
                }
            }
        }
    }
}

} // verus!
