//! Partial witnesses: partial mappings from targets to field values.

use vstd::prelude::*;
use crate::field::Fp;
use crate::target::Target2;

verus! {

/// The mapping a sequence of key/value entries denotes, later entries
/// taking precedence.
pub open spec fn entries_map(s: Seq<(Target2, Fp)>) -> Map<Target2, Fp>
    decreases s.len(),
{
    if s.len() == 0 {
        Map::empty()
    } else {
        entries_map(s.drop_last()).insert(s.last().0, s.last().1)
    }
}

/// No key occurs twice in the entry list.
pub open spec fn entries_unique(s: Seq<(Target2, Fp)>) -> bool {
    forall|i: int, j: int| 0 <= i < j < s.len() ==> (#[trigger] s[i]).0 != (#[trigger] s[j]).0
}

pub proof fn lemma_entries_map_domain(s: Seq<(Target2, Fp)>, k: Target2)
    ensures
        entries_map(s).contains_key(k) <==> exists|i: int| 0 <= i < s.len() && (#[trigger] s[i]).0 == k,
    decreases s.len(),
{
    if s.len() > 0 {
        lemma_entries_map_domain(s.drop_last(), k);
        if entries_map(s).contains_key(k) {
            if s.last().0 == k {
                assert(s[s.len() - 1].0 == k);
            } else {
                let i = choose|i: int| 0 <= i < s.drop_last().len() && (#[trigger] s.drop_last()[i]).0 == k;
                assert(s[i].0 == k);
            }
        }
        if exists|i: int| 0 <= i < s.len() && (#[trigger] s[i]).0 == k {
            let i = choose|i: int| 0 <= i < s.len() && (#[trigger] s[i]).0 == k;
            if i < s.len() - 1 {
                assert(s.drop_last()[i].0 == k);
            }
        }
    }
}

pub proof fn lemma_entries_map_value(s: Seq<(Target2, Fp)>, i: int)
    requires
        entries_unique(s),
        0 <= i < s.len(),
    ensures
        entries_map(s).contains_key(s[i].0),
        entries_map(s)[s[i].0] == s[i].1,
    decreases s.len(),
{
    if i == s.len() - 1 {
    } else {
        lemma_entries_map_value(s.drop_last(), i);
        assert(s.drop_last()[i] == s[i]);
        assert(s.last().0 != s[i].0);
    }
}

/// A partial mapping from targets to field values.
#[derive(Debug)]
pub struct PartialWitness2 {
    pub entries: Vec<(Target2, Fp)>,
}

/// An error raised while resolving a witness.
#[derive(Clone, Debug)]
pub enum WitnessError {
    /// Two sources disagree on one target's value.
    Conflict { target: Target2, existing: Fp, attempted: Fp },
    /// A value's computation divided by the additive identity.
    ZeroDivisor { target: Target2 },
    /// No pending generator could make progress in a full pass.
    Stalled { pending: Vec<usize> },
}

/// Two partial mappings agree on every key they share.
pub open spec fn compatible(a: Map<Target2, Fp>, b: Map<Target2, Fp>) -> bool {
    forall|k: Target2| a.contains_key(k) && b.contains_key(k) ==> a[k] == #[trigger] b[k]
}

impl View for PartialWitness2 {
    type V = Map<Target2, Fp>;

    open spec fn view(&self) -> Map<Target2, Fp> {
        entries_map(self.entries@)
    }
}

impl PartialWitness2 {
    pub open spec fn wf(self) -> bool {
        entries_unique(self.entries@)
    }

    pub fn new() -> (r: PartialWitness2)
        ensures
            r@ == Map::<Target2, Fp>::empty(),
            r.wf(),
    {
        PartialWitness2 { entries: Vec::new() }
    }

    /// The mapping that binds exactly one target.
    pub fn singleton(target: Target2, value: Fp) -> (r: PartialWitness2)
        ensures
            r@ == Map::<Target2, Fp>::empty().insert(target, value),
            r.wf(),
    {
        let mut entries: Vec<(Target2, Fp)> = Vec::new();
        entries.push((target, value));
        proof {
            assert(entries@.drop_last() =~= Seq::<(Target2, Fp)>::empty());
            assert(entries_map(entries@.drop_last()) =~= Map::<Target2, Fp>::empty());
            assert(entries@.last() == (target, value));
            assert(entries_map(entries@) =~= Map::<Target2, Fp>::empty().insert(target, value));
        }
        PartialWitness2 { entries }
    }

    pub fn contains(&self, target: Target2) -> (r: bool)
        requires
            self.wf(),
        ensures
            r == self@.contains_key(target),
    {
        let n = self.entries.len();
        let mut i: usize = 0;
        while i < n
            invariant
                0 <= i <= n,
                n == self.entries@.len(),
                self.wf(),
                forall|j: int| 0 <= j < i ==> (#[trigger] self.entries@[j]).0 != target,
            decreases n - i,
        {
            if self.entries[i].0 == target {
                proof {
                    lemma_entries_map_domain(self.entries@, target);
                }
                return true;
            }
            i = i + 1;
        }
        proof {
            lemma_entries_map_domain(self.entries@, target);
        }
        false
    }

    /// Looks a target up; `None` exactly when the mapping does not bind it.
    pub fn get(&self, target: Target2) -> (r: Option<Fp>)
        requires
            self.wf(),
        ensures
            match r {
                Some(v) => self@.contains_key(target) && self@[target] == v,
                None => !self@.contains_key(target),
            },
    {
        let n = self.entries.len();
        let mut i: usize = 0;
        while i < n
            invariant
                0 <= i <= n,
                n == self.entries@.len(),
                self.wf(),
                forall|j: int| 0 <= j < i ==> (#[trigger] self.entries@[j]).0 != target,
            decreases n - i,
        {
            if self.entries[i].0 == target {
                proof {
                    lemma_entries_map_value(self.entries@, i as int);
                }
                return Some(self.entries[i].1);
            }
            i = i + 1;
        }
        proof {
            lemma_entries_map_domain(self.entries@, target);
        }
        None
    }

    /// Binds one target, refusing to overwrite a different existing value.
    pub fn set(&mut self, target: Target2, value: Fp) -> (r: Result<(), WitnessError>)
        requires
            old(self).wf(),
        ensures
            final(self).wf(),
            match r {
                Ok(()) => final(self)@ == old(self)@.insert(target, value)
                    && (old(self)@.contains_key(target) ==> old(self)@[target] == value),
                Err(e) => final(self)@ == old(self)@
                    && old(self)@.contains_key(target)
                    && old(self)@[target] != value
                    && (e matches WitnessError::Conflict { target: t, existing, attempted }
                        && t == target && existing == old(self)@[target] && attempted == value),
            },
            (r is Err) <==> (old(self)@.contains_key(target) && old(self)@[target] != value),
    {
        match self.get(target) {
            Some(existing) => {
                if existing == value {
                    proof {
                        assert(self@.insert(target, value) =~= self@);
                    }
                    Ok(())
                } else {
                    Err(WitnessError::Conflict { target, existing, attempted: value })
                }
            }
            None => {
                let ghost old_entries = self.entries@;
                self.entries.push((target, value));
                proof {
                    assert(self.entries@.drop_last() =~= old_entries);
                    lemma_entries_map_domain(old_entries, target);
                    assert forall|i: int, j: int| 0 <= i < j < self.entries@.len()
                        implies (#[trigger] self.entries@[i]).0 != (#[trigger] self.entries@[j]).0 by {
                        if j == self.entries@.len() - 1 {
                            assert(self.entries@[i] == old_entries[i]);
                        }
                    }
                }
                Ok(())
            }
        }
    }

    /// Merges another partial witness into this one; fails exactly when the
    /// two disagree on a shared target.
    pub fn merge(&mut self, other: &PartialWitness2) -> (r: Result<(), WitnessError>)
        requires
            old(self).wf(),
            other.wf(),
        ensures
            final(self).wf(),
            match r {
                Ok(()) => final(self)@ == old(self)@.union_prefer_right(other@),
                Err(e) => (e matches WitnessError::Conflict { target, existing, attempted }
                    && existing != attempted
                    && other@.contains_key(target) && other@[target] == attempted
                    && old(self)@.contains_key(target) && old(self)@[target] == existing),
            },
            (r is Ok) <==> compatible(old(self)@, other@),
    {
        let n = other.entries.len();
        let mut i: usize = 0;
        while i < n
            invariant
                0 <= i <= n,
                n == other.entries@.len(),
                self.wf(),
                other.wf(),
                self@ == old(self)@.union_prefer_right(entries_map(other.entries@.take(i as int))),
                compatible(old(self)@, entries_map(other.entries@.take(i as int))),
            decreases n - i,
        {
            let (t, v) = other.entries[i];
            let ghost pre = self@;
            let r = self.set(t, v);
            proof {
                lemma_entries_map_domain(other.entries@.take(i as int), t);
                assert(forall|j: int| 0 <= j < i ==> (#[trigger] other.entries@[j]).0 != t);
            }
            match r {
                Ok(()) => {
                    proof {
                        assert(other.entries@.take(i + 1).drop_last() =~= other.entries@.take(i as int));
                        assert(other.entries@.take(i + 1).last() == (t, v));
                        assert(self@ =~= old(self)@.union_prefer_right(entries_map(other.entries@.take(i + 1))));
                        lemma_entries_map_value(other.entries@, i as int);
                        assert forall|k: Target2| old(self)@.contains_key(k)
                            && entries_map(other.entries@.take(i + 1)).contains_key(k)
                            implies old(self)@[k] == entries_map(other.entries@.take(i + 1))[k] by {
                            if k == t {
                                assert(pre.contains_key(t) && pre[t] == v);
                                if old(self)@.contains_key(t) {
                                    assert(pre[t] == old(self)@[t] || entries_map(other.entries@.take(i as int)).contains_key(t));
                                }
                            } else {
                                assert(entries_map(other.entries@.take(i as int)).contains_key(k));
                            }
                        }
                    }
                }
                Err(e) => {
                    proof {
                        // The conflicting value came from this witness before the
                        // merge began: position `i` is the first use of key `t`.
                        assert(!entries_map(other.entries@.take(i as int)).contains_key(t));
                        assert(old(self)@.contains_key(t));
                        assert(pre[t] == old(self)@[t]);
                        lemma_entries_map_value(other.entries@, i as int);
                        assert(other@.contains_key(t) && other@[t] == v);
                        assert(!compatible(old(self)@, other@));
                    }
                    return Err(e);
                }
            }
            i = i + 1;
        }
        proof {
            assert(other.entries@.take(n as int) =~= other.entries@);
        }
        Ok(())
    }
}

} // verus!
