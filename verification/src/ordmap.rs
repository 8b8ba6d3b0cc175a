//! A map that remembers the order in which values were inserted.
use vstd::prelude::*;

verus! {

/// The position of the last pair in `s` whose key is `k`.
pub open spec fn last_index<K: View, V>(s: Seq<(K, V)>, k: K::V) -> Option<int>
    decreases s.len(),
{
    if s.len() == 0 {
        None
    } else if s.last().0@ == k {
        Some(s.len() - 1)
    } else {
        last_index(s.drop_last(), k)
    }
}

/// The value that a key maps to: the one inserted last for it.
pub open spec fn latest<K: View, V>(s: Seq<(K, V)>, k: K::V) -> Option<V> {
    match last_index(s, k) {
        Some(i) => Some(s[i].1),
        None => None,
    }
}

pub proof fn lemma_last_index<K: View, V>(s: Seq<(K, V)>, k: K::V)
    ensures
        last_index(s, k) matches Some(i) ==> 0 <= i < s.len() && s[i].0@ == k && forall|j: int|
            i < j < s.len() ==> s[j].0@ != k,
        last_index(s, k) is None ==> forall|j: int| 0 <= j < s.len() ==> s[j].0@ != k,
    decreases s.len(),
{
    if s.len() > 0 {
        lemma_last_index(s.drop_last(), k);
        if s.last().0@ != k {
            assert forall|j: int| 0 <= j < s.len() - 1 implies s[j] == s.drop_last()[j] by {}
        }
    }
}

/// A map from keys to values that keeps every inserted value in insertion order; a key
/// maps to the value inserted last for it.
pub struct OrdMap<K, V> {
    keys: Vec<K>,
    values: Vec<V>,
}

impl<K, V> View for OrdMap<K, V> {
    type V = Seq<(K, V)>;

    /// The insertions, in order.
    closed spec fn view(&self) -> Seq<(K, V)> {
        Seq::new(self.keys@.len(), |i: int| (self.keys@[i], self.values@[i]))
    }
}

impl<K, V> OrdMap<K, V> {
    pub closed spec fn wf(&self) -> bool {
        self.keys@.len() == self.values@.len()
    }

    pub fn new() -> (m: Self)
        ensures
            m.wf(),
            m@ == Seq::<(K, V)>::empty(),
    {
        let m = OrdMap { keys: Vec::new(), values: Vec::new() };
        assert(m@ =~= Seq::<(K, V)>::empty());
        m
    }

    /// Maps `key` to `value`; the value is kept after the earlier ones.
    pub fn insert(&mut self, key: K, value: V)
        requires
            old(self).wf(),
        ensures
            final(self).wf(),
            final(self)@ == old(self)@.push((key, value)),
    {
        self.keys.push(key);
        self.values.push(value);
        assert(self@ =~= old(self)@.push((key, value)));
    }

    /// The value inserted last for `key`.
    pub fn get(&self, key: &K) -> (r: Option<&V>)
        where
            K: View + PartialEq,
        requires
            self.wf(),
            vstd::laws_eq::obeys_view_eq::<K>(),
        ensures
            r matches Some(v) ==> latest(self@, key@) == Some(*v),
            r is None ==> latest(self@, key@) is None,
    {
        proof {
            lemma_last_index(self@, key@);
        }
        let mut i: usize = self.keys.len();
        while i > 0
            invariant
                self.wf(),
                i <= self@.len(),
                vstd::laws_eq::obeys_view_eq::<K>(),
                forall|j: int| i <= j < self@.len() ==> self@[j].0@ != key@,
            decreases i,
        {
            i = i - 1;
            proof {
                reveal(vstd::laws_eq::obeys_view_eq);
            }
            if self.keys[i] == *key {
                proof {
                    lemma_last_index(self@, key@);
                    let f = last_index(self@, key@);
                    assert(self@[i as int].0@ == key@);
                    assert(f is Some);
                    let fi = f->0;
                    assert(fi == i) by {
                        if fi > i {
                        } else if fi < i {
                            assert(self@[i as int].0@ == key@);
                        }
                    }
                }
                return Some(&self.values[i]);
            }
        }
        None
    }

    /// Every inserted value, in insertion order.
    pub fn values(&self) -> (vs: &[V])
        requires
            self.wf(),
        ensures
            vs@ == self@.map_values(|p: (K, V)| p.1),
    {
        let vs = self.values.as_slice();
        assert(vs@ =~= self@.map_values(|p: (K, V)| p.1));
        vs
    }
}

/// What a lookup gives after an insertion: the inserted value for its key, and what it
/// gave before for every other key.
pub proof fn lemma_latest_insert<K: View, V>(s: Seq<(K, V)>, k: K, v: V, k2: K::V)
    ensures
        latest(s.push((k, v)), k@) == Some(v),
        k2 != k@ ==> latest(s.push((k, v)), k2) == latest(s, k2),
{
    let t = s.push((k, v));
    assert(t.drop_last() =~= s);
    assert(t.last() == (k, v));
    if k2 != k@ {
        assert(last_index(t, k2) == last_index(s, k2));
        lemma_last_index(s, k2);
        if let Some(i) = last_index(s, k2) {
            assert(t[i] == s[i]);
        }
    }
}

} // verus!
