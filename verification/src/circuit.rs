//! The finished circuit and the witness-resolution engine.

use vstd::prelude::*;
use crate::field::Fp;
use crate::target::Target2;
use crate::gate::{GateKind, GateInstance, instance_wf, instance_holds, check_instance};
use crate::generator::{WitnessGenerator2, gen_wf, gens_hold, gen_holds, deps_present, values_wf,
    lemma_gen_holds_extend};
use crate::partitions::Partitions;
use crate::witness::{PartialWitness2, WitnessError, compatible};

verus! {

/// The immutable artifact `build` produces: ordered gate placements, the
/// distinct kinds used, the permutation structure over routable targets,
/// and the generator set consumed by witness resolution.
pub struct Circuit {
    pub gate_kinds: Vec<GateKind>,
    pub gate_instances: Vec<GateInstance>,
    pub generators: Vec<WitnessGenerator2>,
    pub copies: Partitions,
    pub num_public_inputs: usize,
}

/// Every pair of targets asserted equal (directly or through merged
/// classes) holds one value in the witness.
pub open spec fn copies_ok(p: Partitions, m: Map<Target2, Fp>) -> bool {
    forall|a: Target2, b: Target2| #[trigger] p.same_class(a, b)
        ==> m.contains_key(a) && m.contains_key(b) && m[a] == m[b]
}

/// A witness satisfies the circuit when every gate placement's relation
/// holds and every copy-constraint class is constant.
pub open spec fn satisfied(c: Circuit, m: Map<Target2, Fp>) -> bool {
    (forall|i: int| 0 <= i < c.gate_instances@.len()
        ==> instance_holds(i as usize, #[trigger] c.gate_instances@[i], m))
    && copies_ok(c.copies, m)
}

impl Circuit {
    pub open spec fn wf(self) -> bool {
        self.copies.wf()
        && (forall|i: int| 0 <= i < self.generators@.len() ==> gen_wf(#[trigger] self.generators@[i]))
        && (forall|i: int| 0 <= i < self.gate_instances@.len() ==> instance_wf(#[trigger] self.gate_instances@[i]))
    }

    /// Checks a full witness against every gate relation and every copy
    /// constraint.
    pub fn check_witness(&self, w: &PartialWitness2) -> (r: bool)
        requires
            self.wf(),
            w.wf(),
            values_wf(w@),
        ensures
            r == satisfied(*self, w@),
    {
        let n = self.gate_instances.len();
        let mut i: usize = 0;
        while i < n
            invariant
                0 <= i <= n,
                n == self.gate_instances@.len(),
                self.wf(),
                w.wf(),
                values_wf(w@),
                forall|j: int| 0 <= j < i
                    ==> instance_holds(j as usize, #[trigger] self.gate_instances@[j], w@),
            decreases n - i,
        {
            if !check_instance(i, &self.gate_instances[i], w) {
                return false;
            }
            i = i + 1;
        }
        let ne = self.copies.entries.len();
        let mut a: usize = 0;
        while a < ne
            invariant
                0 <= a <= ne,
                ne == self.copies.entries@.len(),
                self.wf(),
                w.wf(),
                values_wf(w@),
                forall|i2: int, j2: int| 0 <= i2 < a && 0 <= j2 < ne
                    && (#[trigger] self.copies.entries@[i2]).1 == (#[trigger] self.copies.entries@[j2]).1
                    ==> w@.contains_key(self.copies.entries@[i2].0)
                        && w@.contains_key(self.copies.entries@[j2].0)
                        && w@[self.copies.entries@[i2].0] == w@[self.copies.entries@[j2].0],
            decreases ne - a,
        {
            let (ta, ca) = self.copies.entries[a];
            let mut b: usize = 0;
            while b < ne
                invariant
                    0 <= b <= ne,
                    ne == self.copies.entries@.len(),
                    0 <= a < ne,
                    (ta, ca) == self.copies.entries@[a as int],
                    self.wf(),
                    w.wf(),
                    values_wf(w@),
                    forall|j2: int| 0 <= j2 < b
                        && (#[trigger] self.copies.entries@[j2]).1 == ca
                        ==> w@.contains_key(ta)
                            && w@.contains_key(self.copies.entries@[j2].0)
                            && w@[ta] == w@[self.copies.entries@[j2].0],
                decreases ne - b,
            {
                let (tb, cb) = self.copies.entries[b];
                if ca == cb {
                    let va = match w.get(ta) {
                        Some(v) => v,
                        None => {
                            proof {
                                crate::partitions::lemma_label_map_value(self.copies.entries@, a as int);
                                assert(self.copies.same_class(ta, ta));
                            }
                            return false;
                        }
                    };
                    let vb = match w.get(tb) {
                        Some(v) => v,
                        None => {
                            proof {
                                crate::partitions::lemma_label_map_value(self.copies.entries@, a as int);
                                crate::partitions::lemma_label_map_value(self.copies.entries@, b as int);
                                assert(self.copies.same_class(ta, tb));
                            }
                            return false;
                        }
                    };
                    if va != vb {
                        proof {
                            crate::partitions::lemma_label_map_value(self.copies.entries@, a as int);
                            crate::partitions::lemma_label_map_value(self.copies.entries@, b as int);
                            assert(self.copies.same_class(ta, tb));
                        }
                        return false;
                    }
                }
                b = b + 1;
            }
            a = a + 1;
        }
        proof {
            assert forall|u: Target2, v: Target2| #[trigger] self.copies.same_class(u, v)
                implies w@.contains_key(u) && w@.contains_key(v) && w@[u] == w@[v] by {
                crate::partitions::lemma_label_map_domain(self.copies.entries@, u);
                crate::partitions::lemma_label_map_domain(self.copies.entries@, v);
                let i2 = choose|i2: int| 0 <= i2 < self.copies.entries@.len()
                    && (#[trigger] self.copies.entries@[i2]).0 == u;
                let j2 = choose|j2: int| 0 <= j2 < self.copies.entries@.len()
                    && (#[trigger] self.copies.entries@[j2]).0 == v;
                crate::partitions::lemma_label_map_value(self.copies.entries@, i2);
                crate::partitions::lemma_label_map_value(self.copies.entries@, j2);
            }
        }
        true
    }

    /// Resolves a complete witness from the explicit inputs by the dataflow
    /// fixpoint: every generator whose dependencies are present runs exactly
    /// once, its fragment merging into the global witness; passes repeat
    /// until no progress is made.
    ///
    /// On success, the explicit inputs are contained unchanged, every
    /// generator's relation holds of the result, and every resolved target
    /// traces to an input or a generator's output — regardless of the order
    /// in which generators became runnable. Each failure kind is tied to
    /// its cause: a conflict names a target written by a generator and also
    /// determined by a second source, with the two disagreeing values; a
    /// zero divisor names the divisor target of a division or inversion
    /// generator; a stall names pending generators, each with a dependency
    /// outside the derivability closure of the inputs — so a stall can
    /// never stand in for a resolvable circuit.
    pub fn generate_witness(&self, initial: &PartialWitness2) -> (r: Result<PartialWitness2, WitnessError>)
        requires
            self.wf(),
            initial.wf(),
            values_wf(initial@),
        ensures
            match r {
                Ok(w) => w.wf()
                    && values_wf(w@)
                    && initial@.submap_of(w@)
                    && gens_hold(self.generators@, w@)
                    && (forall|k: Target2| w@.contains_key(k)
                        ==> initial@.contains_key(k)
                            || exists|i: int| 0 <= i < self.generators@.len()
                                && crate::generator::spec_output(#[trigger] self.generators@[i]) == k),
                Err(e) => match e {
                    WitnessError::Conflict { target, existing, attempted } => existing != attempted
                        && (exists|i: int| 0 <= i < self.generators@.len()
                            && crate::generator::spec_output(#[trigger] self.generators@[i]) == target)
                        && (initial@.contains_key(target)
                            || exists|i: int, j: int| 0 <= i < self.generators@.len()
                                && 0 <= j < self.generators@.len() && i != j
                                && crate::generator::spec_output(#[trigger] self.generators@[i]) == target
                                && crate::generator::spec_output(#[trigger] self.generators@[j]) == target),
                    WitnessError::ZeroDivisor { target } => exists|i: int|
                        0 <= i < self.generators@.len()
                            && crate::generator::spec_divisor(#[trigger] self.generators@[i]) == Some(target),
                    WitnessError::Stalled { pending } => pending@.len() > 0
                        && (forall|k: int| 0 <= k < pending@.len()
                            ==> #[trigger] pending@[k] < self.generators@.len())
                        && (forall|k: int| 0 <= k < pending@.len()
                            ==> !deps_in(self.generators@[#[trigger] pending@[k] as int],
                                    derivable(self.generators@, initial@.dom()))),
                },
            },
            self.generators@.len() == 0 ==> r is Ok,
    {
        let n = self.generators.len();
        let mut w = PartialWitness2::new();
        match w.merge(initial) {
            Ok(()) => {}
            Err(_) => {
                proof { assert(false); }
                return Err(WitnessError::Stalled { pending: Vec::new() });
            }
        }
        proof {
            assert(w@ =~= initial@);
            assert(initial@.submap_of(w@));
        }
        let mut done: Vec<bool> = Vec::new();
        let mut k: usize = 0;
        while k < n
            invariant
                0 <= k <= n,
                done@.len() == k,
                forall|i: int| 0 <= i < k ==> !(#[trigger] done@[i]),
            decreases n - k,
        {
            done.push(false);
            k = k + 1;
        }
        loop
            invariant
                n == self.generators@.len(),
                done@.len() == n,
                self.wf(),
                w.wf(),
                values_wf(w@),
                initial@.submap_of(w@),
                forall|i: int| 0 <= i < n && #[trigger] done@[i]
                    ==> gen_holds(self.generators@[i], w@),
                forall|i: int| 0 <= i < n && #[trigger] done@[i]
                    ==> w@.contains_key(crate::generator::spec_output(self.generators@[i])),
                forall|k2: Target2| w@.contains_key(k2)
                    ==> initial@.contains_key(k2)
                        || exists|j: int| 0 <= j < n && done@[j]
                            && crate::generator::spec_output(#[trigger] self.generators@[j]) == k2,
            decreases count_pending(done@, n as int),
        {
            let mut progress: bool = false;
            let ghost pass_start = count_pending(done@, n as int);
            let ghost pass_start_w = w@;
            let ghost pass_start_done = done@;
            let mut i: usize = 0;
            while i < n
                invariant
                    0 <= i <= n,
                    n == self.generators@.len(),
                    done@.len() == n,
                    self.wf(),
                    w.wf(),
                    values_wf(w@),
                    initial@.submap_of(w@),
                    forall|j: int| 0 <= j < n && #[trigger] done@[j]
                        ==> gen_holds(self.generators@[j], w@),
                    forall|j: int| 0 <= j < n && #[trigger] done@[j]
                        ==> w@.contains_key(crate::generator::spec_output(self.generators@[j])),
                    forall|k2: Target2| w@.contains_key(k2)
                        ==> initial@.contains_key(k2)
                            || exists|j: int| 0 <= j < n && done@[j]
                                && crate::generator::spec_output(#[trigger] self.generators@[j]) == k2,
                    count_pending(done@, n as int) + (if progress { 1nat } else { 0nat }) <= pass_start,
                    !progress ==> w@ == pass_start_w && done@ == pass_start_done,
                    !progress ==> forall|j: int| 0 <= j < i && !(#[trigger] done@[j])
                        ==> !deps_present(self.generators@[j], w@),
                decreases n - i,
            {
                if !done[i] {
                    let g = self.generators[i];
                    if g.deps_met(&w) {
                        let ghost w_before = w@;
                        let frag = match g.run_once(&w) {
                            Ok(frag) => frag,
                            Err(e) => {
                                proof {
                                    assert(crate::generator::spec_divisor(self.generators@[i as int]) is Some);
                                }
                                return Err(e);
                            }
                        };
                        match w.merge(&frag) {
                            Ok(()) => {}
                            Err(e) => {
                                proof {
                                    let t = e->Conflict_target;
                                    assert(frag@.contains_key(t));
                                    assert(t == crate::generator::spec_output(self.generators@[i as int]));
                                    assert(w_before.contains_key(t));
                                    if !initial@.contains_key(t) {
                                        let j = choose|j: int| 0 <= j < n && done@[j]
                                            && crate::generator::spec_output(#[trigger] self.generators@[j]) == t;
                                        assert(!done@[i as int]);
                                        assert(j != i as int);
                                    }
                                }
                                return Err(e);
                            }
                        }
                        proof {
                            assert(compatible(w_before, frag@));
                            assert(gen_holds(self.generators@[i as int], w@));
                            assert forall|k2: Target2| w_before.contains_key(k2)
                                implies w@.contains_key(k2) && w_before[k2] == w@[k2] by {
                                if frag@.contains_key(k2) {
                                    assert(w_before[k2] == frag@[k2]);
                                }
                            }
                            assert(w_before.submap_of(w@));
                            assert forall|j: int| 0 <= j < n && #[trigger] done@[j]
                                implies gen_holds(self.generators@[j], w@) by {
                                lemma_gen_holds_extend(self.generators@[j], w_before, w@);
                            }
                            assert forall|k2: Target2| w@.contains_key(k2)
                                implies crate::field::fp_wf(#[trigger] w@[k2]) by {
                                if !w_before.contains_key(k2) {
                                    assert(frag@.contains_key(k2));
                                    assert(k2 == crate::generator::spec_output(self.generators@[i as int]));
                                } else {
                                    assert(w@[k2] == w_before[k2]);
                                }
                            }
                            assert forall|k2: Target2| initial@.contains_key(k2)
                                implies w@.contains_key(k2) && initial@[k2] == w@[k2] by {
                                assert(w_before.contains_key(k2) && initial@[k2] == w_before[k2]);
                            }
                        }
                        let ghost done_before = done@;
                        done = set_true(done, i);
                        proof {
                            lemma_count_set(done_before, done@, i as int, n as int);
                            assert(w@.contains_key(crate::generator::spec_output(self.generators@[i as int])));
                            assert forall|k2: Target2| w@.contains_key(k2)
                                implies initial@.contains_key(k2)
                                    || exists|j: int| 0 <= j < n && done@[j]
                                        && crate::generator::spec_output(#[trigger] self.generators@[j]) == k2 by {
                                if !initial@.contains_key(k2) {
                                    if k2 == crate::generator::spec_output(self.generators@[i as int]) {
                                        assert(done@[i as int]);
                                    } else {
                                        assert(frag@.dom() == Set::<Target2>::empty().insert(
                                            crate::generator::spec_output(self.generators@[i as int])));
                                        assert(!frag@.contains_key(k2));
                                        assert(w_before.contains_key(k2));
                                        let j = choose|j: int| 0 <= j < n && done_before[j]
                                            && crate::generator::spec_output(#[trigger] self.generators@[j]) == k2;
                                        assert(done@[j]);
                                    }
                                }
                            }
                        }
                        progress = true;
                    }
                }
                i = i + 1;
            }
            if !progress {
                proof {
                    // No pending generator's dependencies are all present,
                    // and every runnable generator already ran, so the
                    // witness's domain is closed under one derivation step;
                    // the whole derivability closure is therefore resolved.
                    assert forall|t: Target2| derive_step(self.generators@, w@.dom()).contains(t)
                        implies w@.dom().contains(t) by {
                        if !w@.dom().contains(t) {
                            let gi = choose|gi: int| 0 <= gi < self.generators@.len()
                                && crate::generator::spec_output(#[trigger] self.generators@[gi]) == t
                                && deps_in(self.generators@[gi], w@.dom());
                            assert(deps_present(self.generators@[gi], w@));
                            assert(!done@[gi]);
                        }
                    }
                    lemma_derivable_in_closed(self.generators@, initial@.dom(), w@.dom(), self.generators@.len());
                    assert(derivable(self.generators@, initial@.dom()).subset_of(w@.dom()));
                }
                let mut pending: Vec<usize> = Vec::new();
                let mut j: usize = 0;
                while j < n
                    invariant
                        0 <= j <= n,
                        n == done@.len(),
                        n == self.generators@.len(),
                        self.wf(),
                        w.wf(),
                        derivable(self.generators@, initial@.dom()).subset_of(w@.dom()),
                        forall|i2: int| 0 <= i2 < n && !(#[trigger] done@[i2])
                            ==> !deps_present(self.generators@[i2], w@),
                        forall|i2: int| 0 <= i2 < j && !(#[trigger] done@[i2]) ==> pending@.len() > 0,
                        forall|k2: int| 0 <= k2 < pending@.len() ==> #[trigger] pending@[k2] < n,
                        forall|k2: int| 0 <= k2 < pending@.len()
                            ==> !(#[trigger] done@[pending@[k2] as int]),
                    decreases n - j,
                {
                    if !done[j] {
                        pending.push(j);
                    }
                    j = j + 1;
                }
                if pending.len() == 0 {
                    proof {
                        assert forall|i2: int| 0 <= i2 < n implies #[trigger] done@[i2] by {
                            if !done@[i2] {
                                assert(pending@.len() > 0);
                            }
                        }
                        assert forall|i2: int| 0 <= i2 < self.generators@.len()
                            implies #[trigger] gen_holds(self.generators@[i2], w@) by {
                            assert(done@[i2]);
                        }
                        assert(gens_hold(self.generators@, w@));
                    }
                    return Ok(w);
                }
                proof {
                    assert(pending@[0] < n);
                    assert forall|k2: int| 0 <= k2 < pending@.len()
                        implies !deps_in(self.generators@[#[trigger] pending@[k2] as int],
                            derivable(self.generators@, initial@.dom())) by {
                        let idx = pending@[k2] as int;
                        assert(!done@[idx]);
                        assert(!deps_present(self.generators@[idx], w@));
                        let g = self.generators@[idx];
                        let d = choose|d: int| 0 <= d < crate::generator::spec_deps(g).len()
                            && !w@.contains_key(#[trigger] crate::generator::spec_deps(g)[d]);
                        assert(!derivable(self.generators@, initial@.dom()).contains(
                            crate::generator::spec_deps(g)[d]));
                    }
                }
                return Err(WitnessError::Stalled { pending });
            }
        }
    }
}

/// Whether every dependency of a generator lies in a target set.
pub open spec fn deps_in(g: WitnessGenerator2, s: Set<Target2>) -> bool {
    forall|i: int| 0 <= i < crate::generator::spec_deps(g).len()
        ==> s.contains(#[trigger] crate::generator::spec_deps(g)[i])
}

/// One derivation step: the targets already known, together with the output
/// of every generator whose dependencies are all known.
pub open spec fn derive_step(gens: Seq<WitnessGenerator2>, s: Set<Target2>) -> Set<Target2> {
    s.union(Set::new(|t: Target2| exists|i: int| 0 <= i < gens.len()
        && crate::generator::spec_output(#[trigger] gens[i]) == t
        && deps_in(gens[i], s)))
}

/// The targets reachable from a base set in at most `k` derivation steps.
pub open spec fn derivable_k(gens: Seq<WitnessGenerator2>, base: Set<Target2>, k: nat) -> Set<Target2>
    decreases k,
{
    if k == 0 {
        base
    } else {
        derive_step(gens, derivable_k(gens, base, (k - 1) as nat))
    }
}

/// The derivability closure of a base set under a generator list: every
/// target a resolution starting from the base can ever determine. One step
/// per generator suffices, since each productive step adds at least one
/// generator's output.
pub open spec fn derivable(gens: Seq<WitnessGenerator2>, base: Set<Target2>) -> Set<Target2> {
    derivable_k(gens, base, gens.len())
}

/// A derivation step is monotone in the known set.
proof fn lemma_derive_step_mono(gens: Seq<WitnessGenerator2>, s1: Set<Target2>, s2: Set<Target2>)
    requires
        s1.subset_of(s2),
    ensures
        derive_step(gens, s1).subset_of(derive_step(gens, s2)),
{
    assert forall|t: Target2| derive_step(gens, s1).contains(t)
        implies derive_step(gens, s2).contains(t) by {
        if !s1.contains(t) {
            let i = choose|i: int| 0 <= i < gens.len()
                && crate::generator::spec_output(#[trigger] gens[i]) == t
                && deps_in(gens[i], s1);
            assert(deps_in(gens[i], s2));
            assert(crate::generator::spec_output(gens[i]) == t);
        }
    }
}

/// Any set containing the base and closed under one derivation step
/// contains the whole closure.
proof fn lemma_derivable_in_closed(gens: Seq<WitnessGenerator2>, base: Set<Target2>, dom: Set<Target2>, k: nat)
    requires
        base.subset_of(dom),
        derive_step(gens, dom).subset_of(dom),
    ensures
        derivable_k(gens, base, k).subset_of(dom),
    decreases k,
{
    if k > 0 {
        lemma_derivable_in_closed(gens, base, dom, (k - 1) as nat);
        lemma_derive_step_mono(gens, derivable_k(gens, base, (k - 1) as nat), dom);
    }
}

/// How many of the first `j` flags are still clear.
pub open spec fn count_pending(s: Seq<bool>, j: int) -> nat
    decreases j,
{
    if j <= 0 {
        0
    } else {
        count_pending(s, j - 1) + (if s[j - 1] { 0nat } else { 1nat })
    }
}

/// Setting a clear flag lowers the pending count.
proof fn lemma_count_set(s: Seq<bool>, t: Seq<bool>, i: int, j: int)
    requires
        s.len() == t.len(),
        0 <= i < s.len(),
        !s[i],
        t[i],
        forall|k: int| 0 <= k < s.len() && k != i ==> t[k] == s[k],
        i < j <= s.len(),
    ensures
        count_pending(t, j) < count_pending(s, j),
    decreases j,
{
    if j - 1 == i {
        lemma_count_frame(s, t, i, j - 1);
    } else {
        lemma_count_set(s, t, i, j - 1);
    }
}

/// The pending count ignores flags at or above the cutoff that agree.
proof fn lemma_count_frame(s: Seq<bool>, t: Seq<bool>, i: int, j: int)
    requires
        s.len() == t.len(),
        0 <= i < s.len(),
        forall|k: int| 0 <= k < s.len() && k != i ==> t[k] == s[k],
        0 <= j <= i,
        j <= s.len(),
    ensures
        count_pending(t, j) == count_pending(s, j),
    decreases j,
{
    if j > 0 {
        lemma_count_frame(s, t, i, j - 1);
    }
}

/// Replaces one flag with `true`.
fn set_true(v: Vec<bool>, i: usize) -> (r: Vec<bool>)
    requires
        i < v@.len(),
    ensures
        r@.len() == v@.len(),
        r@[i as int],
        forall|j: int| 0 <= j < v@.len() && j != i ==> r@[j] == v@[j],
    {
    let n = v.len();
    let mut out: Vec<bool> = Vec::new();
    let mut j: usize = 0;
    while j < n
        invariant
            0 <= j <= n,
            n == v@.len(),
            i < n,
            out@.len() == j,
            forall|k: int| 0 <= k < j && k != i ==> out@[k] == v@[k],
            i < j ==> out@[i as int],
        decreases n - j,
    {
        if j == i {
            out.push(true);
        } else {
            out.push(v[j]);
        }
        j = j + 1;
    }
    out
}

} // verus!
