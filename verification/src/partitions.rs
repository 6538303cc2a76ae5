//! Equivalence classes over routable targets, backing the permutation
//! (copy-constraint) argument.
//!
//! Each registered target carries a class label; asserting two targets
//! equal relabels one whole class, so classes merge transitively.

use vstd::prelude::*;
use crate::target::Target2;

verus! {

/// The mapping a sequence of target/label entries denotes, later entries
/// taking precedence.
pub open spec fn label_map(s: Seq<(Target2, usize)>) -> Map<Target2, usize>
    decreases s.len(),
{
    if s.len() == 0 {
        Map::empty()
    } else {
        label_map(s.drop_last()).insert(s.last().0, s.last().1)
    }
}

pub open spec fn label_entries_unique(s: Seq<(Target2, usize)>) -> bool {
    forall|i: int, j: int| 0 <= i < j < s.len() ==> (#[trigger] s[i]).0 != (#[trigger] s[j]).0
}

pub proof fn lemma_label_map_domain(s: Seq<(Target2, usize)>, k: Target2)
    ensures
        label_map(s).contains_key(k) <==> exists|i: int| 0 <= i < s.len() && (#[trigger] s[i]).0 == k,
    decreases s.len(),
{
    if s.len() > 0 {
        lemma_label_map_domain(s.drop_last(), k);
        if label_map(s).contains_key(k) {
            if s.last().0 == k {
                assert(s[s.len() - 1].0 == k);
            } else {
                let i = choose|i: int| 0 <= i < s.drop_last().len() && (#[trigger] s.drop_last()[i]).0 == k;
                assert(s[i].0 == k);
            }
        }
        if exists|i: int| 0 <= i < s.len() && (#[trigger] s[i]).0 == k {
            let i = choose|i: int| 0 <= i < s.len() && (#[trigger] s[i]).0 == k;
            if i < s.len() - 1 {
                assert(s.drop_last()[i].0 == k);
            }
        }
    }
}

pub proof fn lemma_label_map_value(s: Seq<(Target2, usize)>, i: int)
    requires
        label_entries_unique(s),
        0 <= i < s.len(),
    ensures
        label_map(s).contains_key(s[i].0),
        label_map(s)[s[i].0] == s[i].1,
    decreases s.len(),
{
    if i == s.len() - 1 {
    } else {
        lemma_label_map_value(s.drop_last(), i);
        assert(s.drop_last()[i] == s[i]);
        assert(s.last().0 != s[i].0);
    }
}

/// Registers `t` with label `id` if it is absent, else leaves the map alone.
pub open spec fn aug(m: Map<Target2, usize>, t: Target2, id: usize) -> Map<Target2, usize> {
    if m.contains_key(t) {
        m
    } else {
        m.insert(t, id)
    }
}

/// Renames every occurrence of label `from` to label `to`.
pub open spec fn relabel(m: Map<Target2, usize>, from: usize, to: usize) -> Map<Target2, usize> {
    Map::new(
        |k: Target2| m.contains_key(k),
        |k: Target2| if m[k] == from { to } else { m[k] },
    )
}

/// The label map after asserting `x` and `y` equal: both are registered
/// (fresh labels drawn sequentially from `next`), then `y`'s class is
/// renamed to `x`'s.
pub open spec fn union_map(m: Map<Target2, usize>, x: Target2, y: Target2, next: usize) -> Map<Target2, usize> {
    let m1 = aug(m, x, next);
    let n2 = if m.contains_key(x) { next } else { (next + 1) as usize };
    let m2 = aug(m1, y, n2);
    relabel(m2, m2[y], m2[x])
}

/// Disjoint equivalence classes over targets, as a class label per target.
pub struct Partitions {
    pub entries: Vec<(Target2, usize)>,
    pub next: usize,
}

impl View for Partitions {
    type V = Map<Target2, usize>;

    open spec fn view(&self) -> Map<Target2, usize> {
        label_map(self.entries@)
    }
}

impl Partitions {
    pub open spec fn wf(self) -> bool {
        label_entries_unique(self.entries@)
        && self.next == self.entries@.len()
        && (forall|i: int| 0 <= i < self.entries@.len() ==> (#[trigger] self.entries@[i]).1 < self.next)
    }

    /// Both targets are registered and carry one class label.
    pub open spec fn same_class(self, a: Target2, b: Target2) -> bool {
        self@.contains_key(a) && self@.contains_key(b) && self@[a] == self@[b]
    }

    pub fn new() -> (r: Partitions)
        ensures
            r@ == Map::<Target2, usize>::empty(),
            r.wf(),
    {
        Partitions { entries: Vec::new(), next: 0 }
    }

    /// The class label of a target, if it is registered.
    pub fn find(&self, t: Target2) -> (r: Option<usize>)
        requires
            self.wf(),
        ensures
            match r {
                Some(id) => self@.contains_key(t) && self@[t] == id,
                None => !self@.contains_key(t),
            },
    {
        let n = self.entries.len();
        let mut i: usize = 0;
        while i < n
            invariant
                0 <= i <= n,
                n == self.entries@.len(),
                self.wf(),
                forall|j: int| 0 <= j < i ==> (#[trigger] self.entries@[j]).0 != t,
            decreases n - i,
        {
            if self.entries[i].0 == t {
                proof {
                    lemma_label_map_value(self.entries@, i as int);
                }
                return Some(self.entries[i].1);
            }
            i = i + 1;
        }
        proof {
            lemma_label_map_domain(self.entries@, t);
        }
        None
    }

    /// Registers a target as a singleton class if it is not yet known.
    fn ensure_present(&mut self, t: Target2)
        requires
            old(self).wf(),
        ensures
            final(self).wf(),
            final(self)@ == aug(old(self)@, t, old(self).next),
            final(self)@.contains_key(t),
            old(self)@.contains_key(t) ==> *final(self) == *old(self),
            !old(self)@.contains_key(t) ==> final(self).next == old(self).next + 1,
            forall|k: Target2| old(self)@.contains_key(k)
                ==> final(self)@.contains_key(k) && final(self)@[k] == old(self)@[k],
    {
        let present = self.find(t).is_some();
        if !present {
            let ghost old_entries = self.entries@;
            let id = self.next;
            self.entries.push((t, id));
            self.next = self.entries.len();
            proof {
                assert(self.entries@.drop_last() =~= old_entries);
                lemma_label_map_domain(old_entries, t);
                assert forall|i: int, j: int| 0 <= i < j < self.entries@.len()
                    implies (#[trigger] self.entries@[i]).0 != (#[trigger] self.entries@[j]).0 by {
                    if j == self.entries@.len() - 1 {
                        assert(self.entries@[i] == old_entries[i]);
                    }
                }
            }
        }
    }

    /// Merges the classes of `x` and `y`, registering either first if
    /// needed. Afterwards `x` and `y` share one class; existing classes are
    /// only ever united whole, never split.
    pub fn union(&mut self, x: Target2, y: Target2)
        requires
            old(self).wf(),
        ensures
            final(self).wf(),
            final(self)@ == union_map(old(self)@, x, y, old(self).next),
            final(self).same_class(x, y),
            forall|u: Target2, v: Target2| old(self).same_class(u, v)
                ==> #[trigger] final(self).same_class(u, v),
            forall|k: Target2| final(self)@.contains_key(k)
                <==> (old(self)@.contains_key(k) || k == x || k == y),
    {
        let ghost m0 = self@;
        let ghost n0 = self.next;
        self.ensure_present(x);
        let ghost mx = self@;
        self.ensure_present(y);
        let ghost m2 = self@;
        proof {
            assert(mx == aug(m0, x, n0));
            let n2 = if m0.contains_key(x) { n0 } else { (n0 + 1) as usize };
            assert(m2 == aug(mx, y, n2));
        }
        let cx = match self.find(x) {
            Some(id) => id,
            None => { proof { assert(false); } 0 }
        };
        let cy = match self.find(y) {
            Some(id) => id,
            None => { proof { assert(false); } 0 }
        };
        proof {
            lemma_label_map_domain(self.entries@, x);
            let i = choose|i: int| 0 <= i < self.entries@.len() && (#[trigger] self.entries@[i]).0 == x;
            lemma_label_map_value(self.entries@, i);
        }
        let ghost pre = self@;
        let n = self.entries.len();
        let mut out: Vec<(Target2, usize)> = Vec::new();
        let mut i: usize = 0;
        while i < n
            invariant
                0 <= i <= n,
                n == self.entries@.len(),
                self.wf(),
                out@.len() == i,
                cx < self.next,
                pre == self@,
                self@.contains_key(x) && self@[x] == cx,
                self@.contains_key(y) && self@[y] == cy,
                forall|j: int| 0 <= j < i ==> (#[trigger] out@[j]).0 == self.entries@[j].0
                    && out@[j].1 == (if self.entries@[j].1 == cy { cx } else { self.entries@[j].1 }),
            decreases n - i,
        {
            let (t, c) = self.entries[i];
            if c == cy {
                out.push((t, cx));
            } else {
                out.push((t, c));
            }
            i = i + 1;
        }
        let ghost old_entries = self.entries@;
        self.entries = out;
        proof {
            lemma_relabel_entries(old_entries, self.entries@, cy, cx);
            assert(self@ =~= relabel(pre, cy, cx));
            assert(relabel(pre, cy, cx) =~= relabel(m2, m2[y], m2[x]));
            assert(self@ == union_map(m0, x, y, n0));
            assert(self.same_class(x, y));
            assert forall|u: Target2, v: Target2|
                (label_map_same(m0, u, v)) implies #[trigger] label_map_same(self@, u, v) by {
                assert(m2.contains_key(u) && m2[u] == m0[u]);
                assert(m2.contains_key(v) && m2[v] == m0[v]);
            }
            assert forall|k: Target2| self@.contains_key(k)
                implies (m0.contains_key(k) || k == x || k == y) by {
            }
        }
    }
}

/// Two targets carry one label under a label map.
pub open spec fn label_map_same(m: Map<Target2, usize>, a: Target2, b: Target2) -> bool {
    m.contains_key(a) && m.contains_key(b) && m[a] == m[b]
}

/// Entrywise relabeling of the entry list is relabeling of its map.
proof fn lemma_relabel_entries(s: Seq<(Target2, usize)>, t: Seq<(Target2, usize)>, from: usize, to: usize)
    requires
        s.len() == t.len(),
        forall|j: int| 0 <= j < s.len() ==> (#[trigger] t[j]).0 == s[j].0
            && t[j].1 == (if s[j].1 == from { to } else { s[j].1 }),
    ensures
        label_map(t) =~= relabel(label_map(s), from, to),
        label_entries_unique(s) ==> label_entries_unique(t),
    decreases s.len(),
{
    if s.len() > 0 {
        assert forall|j: int| 0 <= j < s.drop_last().len()
            implies (#[trigger] t.drop_last()[j]).0 == s.drop_last()[j].0
                && t.drop_last()[j].1 == (if s.drop_last()[j].1 == from { to } else { s.drop_last()[j].1 }) by {
            assert(t.drop_last()[j] == t[j]);
            assert(s.drop_last()[j] == s[j]);
        }
        lemma_relabel_entries(s.drop_last(), t.drop_last(), from, to);
        assert(t.last().0 == s.last().0);
        assert(label_map(t) == label_map(t.drop_last()).insert(t.last().0, t.last().1));
        assert(label_map(t) =~= relabel(label_map(s), from, to));
    }
}

} // verus!
