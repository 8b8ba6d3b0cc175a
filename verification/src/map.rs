use vstd::prelude::*;

verus! {

/// An association list: key-value pairs in insertion order. Keys may repeat;
/// lookups find the first pair with the key.
#[derive(Debug, Clone)]
pub struct VecMap<K, V>(Vec<(K, V)>);

impl<K, V> View for VecMap<K, V> {
    type V = Seq<(K, V)>;

    open spec fn view(&self) -> Seq<(K, V)> {
        self.spec_pairs()
    }
}

/// The index of the first pair of `s` whose key has the view `k`, if there is one.
pub open spec fn first_index<K: View, V>(s: Seq<(K, V)>, k: K::V) -> Option<int> {
    if exists|i: int| 0 <= i < s.len() && #[trigger] s[i].0@ == k {
        Some(
            choose|i: int|
                0 <= i < s.len() && #[trigger] s[i].0@ == k && (forall|j: int|
                    0 <= j < i ==> s[j].0@ != k),
        )
    } else {
        None
    }
}

/// The value of the first pair of `s` whose key has the view `k`.
pub open spec fn spec_lookup<K: View, V>(s: Seq<(K, V)>, k: K::V) -> Option<V> {
    match first_index(s, k) {
        Some(i) => Some(s[i].1),
        None => None,
    }
}

/// If some key of `s` has the view `k`, there is a first such key.
pub proof fn lemma_first_index<K: View, V>(s: Seq<(K, V)>, k: K::V)
    ensures
        first_index(s, k) matches Some(i) ==> {
            &&& 0 <= i < s.len()
            &&& s[i].0@ == k
            &&& forall|j: int| 0 <= j < i ==> s[j].0@ != k
        },
        first_index(s, k) is None ==> forall|j: int| 0 <= j < s.len() ==> s[j].0@ != k,
{
    if exists|i: int| 0 <= i < s.len() && #[trigger] s[i].0@ == k {
        let i0 = choose|i: int| 0 <= i < s.len() && #[trigger] s[i].0@ == k;
        lemma_least_index(s, k, i0);
    }
}

proof fn lemma_least_index<K: View, V>(s: Seq<(K, V)>, k: K::V, i0: int)
    requires
        0 <= i0 < s.len(),
        s[i0].0@ == k,
    ensures
        exists|i: int|
            0 <= i < s.len() && #[trigger] s[i].0@ == k && (forall|j: int|
                0 <= j < i ==> s[j].0@ != k),
    decreases i0,
{
    if exists|j: int| 0 <= j < i0 && #[trigger] s[j].0@ == k {
        let j0 = choose|j: int| 0 <= j < i0 && #[trigger] s[j].0@ == k;
        lemma_least_index(s, k, j0);
    } else {
        assert(s[i0].0@ == k);
    }
}

/// A map is larger than the sequence of its pairs, and than each of its pairs.
pub proof fn lemma_view_decreases<K, V>(m: VecMap<K, V>)
    ensures
        decreases_to!(m => m@),
        forall|i: int| 0 <= i < m@.len() ==> decreases_to!(m => #[trigger] m@[i]),
{
    assert(decreases_to!(m => m.0));
    assert(decreases_to!(m.0 => m.0@)) by {
        broadcast use vstd::std_specs::vec::axiom_vec_decreases_to_view;
    }
    assert forall|i: int| 0 <= i < m@.len() implies decreases_to!(m => #[trigger] m@[i]) by {
        assert(decreases_to!(m.0@ => m.0@[i]));
    }
}

impl<K, V> VecMap<K, V> {
    pub closed spec fn spec_pairs(&self) -> Seq<(K, V)> {
        self.0@
    }

    pub fn new() -> (m: Self)
        ensures
            m@ == Seq::<(K, V)>::empty(),
    {
        VecMap(Vec::new())
    }

    pub fn singleton(k: K, v: V) -> (m: Self)
        ensures
            m@ == seq![(k, v)],
    {
        let mut m = Vec::new();
        m.push((k, v));
        VecMap(m)
    }

    /// Wraps a vector of pairs, keeping their order.
    pub fn from_vec(v: Vec<(K, V)>) -> (m: Self)
        ensures
            m@ == v@,
    {
        VecMap(v)
    }

    /// Adds a pair at the end; an earlier pair with the same key still wins lookups.
    pub fn insert(&mut self, k: K, v: V)
        ensures
            final(self)@ == old(self)@.push((k, v)),
    {
        self.0.push((k, v))
    }

    pub fn is_empty(&self) -> (b: bool)
        ensures
            b == (self@.len() == 0),
    {
        self.0.len() == 0
    }

    pub fn len(&self) -> (n: usize)
        ensures
            n == self@.len(),
    {
        self.0.len()
    }

    /// The pairs in order.
    pub fn iter(&self) -> (s: &[(K, V)])
        ensures
            s@ == self@,
    {
        self.0.as_slice()
    }

    pub fn keys(&self) -> (ks: Vec<&K>)
        ensures
            ks@.len() == self@.len(),
            forall|i: int| 0 <= i < self@.len() ==> *ks@[i] == self@[i].0,
    {
        let mut ks: Vec<&K> = Vec::new();
        let mut i: usize = 0;
        while i < self.0.len()
            invariant
                i <= self@.len(),
                ks@.len() == i,
                forall|j: int| 0 <= j < i ==> *ks@[j] == self@[j].0,
            decreases self@.len() - i,
        {
            ks.push(&self.0[i].0);
            i = i + 1;
        }
        ks
    }

    pub fn values(&self) -> (vs: Vec<&V>)
        ensures
            vs@.len() == self@.len(),
            forall|i: int| 0 <= i < self@.len() ==> *vs@[i] == self@[i].1,
    {
        let mut vs: Vec<&V> = Vec::new();
        let mut i: usize = 0;
        while i < self.0.len()
            invariant
                i <= self@.len(),
                vs@.len() == i,
                forall|j: int| 0 <= j < i ==> *vs@[j] == self@[j].1,
            decreases self@.len() - i,
        {
            vs.push(&self.0[i].1);
            i = i + 1;
        }
        vs
    }

    /// A new map holding `f(k, v)` for each pair, in order.
    pub fn map<U, F: Fn(&K, &V) -> (K, U)>(&self, f: F) -> (m: VecMap<K, U>)
        requires
            forall|i: int| 0 <= i < self@.len() ==> f.requires((&self@[i].0, &self@[i].1)),
        ensures
            m@.len() == self@.len(),
            forall|i: int|
                0 <= i < self@.len() ==> f.ensures((&self@[i].0, &self@[i].1), #[trigger] m@[i]),
    {
        let mut out: Vec<(K, U)> = Vec::new();
        let mut i: usize = 0;
        while i < self.0.len()
            invariant
                i <= self@.len(),
                out@.len() == i,
                forall|j: int| 0 <= j < self@.len() ==> f.requires((&self@[j].0, &self@[j].1)),
                forall|j: int|
                    0 <= j < i ==> f.ensures((&self@[j].0, &self@[j].1), #[trigger] out@[j]),
            decreases self@.len() - i,
        {
            let r = f(&self.0[i].0, &self.0[i].1);
            out.push(r);
            i = i + 1;
        }
        VecMap(out)
    }
}

impl<K: View + PartialEq, V> VecMap<K, V> {
    /// The value of the first pair whose key equals `k`.
    pub fn get(&self, k: &K) -> (r: Option<&V>)
        requires
            vstd::laws_eq::obeys_view_eq::<K>(),
        ensures
            r matches Some(v) ==> spec_lookup(self@, k@) == Some(*v),
            r is None ==> spec_lookup(self@, k@) is None,
    {
        match self.index_of(k) {
            Some(i) => Some(&self.0[i].1),
            None => None,
        }
    }

    /// The value of the first pair whose key equals `k`, to be changed in place.
    pub fn get_mut(&mut self, k: &K) -> (r: Option<&mut V>)
        requires
            vstd::laws_eq::obeys_view_eq::<K>(),
        ensures
            first_index(old(self)@, k@) is None ==> r is None && final(self)@ == old(self)@,
            first_index(old(self)@, k@) matches Some(i) ==> (r matches Some(v) && *v == old(
                self,
            )@[i].1 && final(self)@ == old(self)@.update(i, (old(self)@[i].0, *final(v)))),
    {
        match self.index_of(k) {
            Some(i) => Some(&mut self.0[i].1),
            None => None,
        }
    }

    /// The position of the first pair whose key equals `k`.
    pub fn index_of(&self, k: &K) -> (r: Option<usize>)
        requires
            vstd::laws_eq::obeys_view_eq::<K>(),
        ensures
            r matches Some(i) ==> first_index(self@, k@) == Some(i as int) && i < self@.len(),
            r is None ==> first_index(self@, k@) is None,
    {
        proof {
            reveal(vstd::laws_eq::obeys_view_eq);
            lemma_first_index(self@, k@);
        }
        let mut i: usize = 0;
        while i < self.0.len()
            invariant
                i <= self@.len(),
                vstd::laws_eq::obeys_view_eq::<K>(),
                forall|j: int| 0 <= j < i ==> self@[j].0@ != k@,
            decreases self@.len() - i,
        {
            proof {
                reveal(vstd::laws_eq::obeys_view_eq);
            }
            if self.0[i].0 == *k {
                proof {
                    lemma_first_index(self@, k@);
                    let f = first_index(self@, k@);
                    assert(f is Some);
                    let fi = f->0;
                    assert(fi == i) by {
                        if fi < i {
                        } else if fi > i {
                            assert(self@[i as int].0@ == k@);
                        }
                    }
                }
                return Some(i);
            }
            i = i + 1;
        }
        None
    }

    pub fn contains_key(&self, k: &K) -> (b: bool)
        requires
            vstd::laws_eq::obeys_view_eq::<K>(),
        ensures
            b == (exists|i: int| 0 <= i < self@.len() && #[trigger] self@[i].0@ == k@),
    {
        proof {
            lemma_first_index(self@, k@);
        }
        self.index_of(k).is_some()
    }
}

impl<K: Clone, V> VecMap<K, V> {
    /// A new map with the same keys and `f` applied to each value.
    pub fn mapv<U, F: Fn(&V) -> U>(&self, f: F) -> (m: VecMap<K, U>)
        requires
            forall|i: int| 0 <= i < self@.len() ==> f.requires((&self@[i].1,)),
        ensures
            m@.len() == self@.len(),
            forall|i: int|
                0 <= i < self@.len() ==> f.ensures((&self@[i].1,), (#[trigger] m@[i]).1)
                    && vstd::pervasive::cloned(self@[i].0, m@[i].0),
    {
        let mut out: Vec<(K, U)> = Vec::new();
        let mut i: usize = 0;
        while i < self.0.len()
            invariant
                i <= self@.len(),
                out@.len() == i,
                forall|j: int| 0 <= j < self@.len() ==> f.requires((&self@[j].1,)),
                forall|j: int|
                    0 <= j < i ==> f.ensures((&self@[j].1,), (#[trigger] out@[j]).1)
                        && vstd::pervasive::cloned(self@[j].0, out@[j].0),
            decreases self@.len() - i,
        {
            let k = self.0[i].0.clone();
            let u = f(&self.0[i].1);
            out.push((k, u));
            i = i + 1;
        }
        VecMap(out)
    }
}

impl<K, V> Default for VecMap<K, V> {
    fn default() -> (m: Self)
        ensures
            m@ == Seq::<(K, V)>::empty(),
    {
        VecMap(Vec::new())
    }
}

/// A lookup after an insertion finds the inserted value exactly when no earlier pair has
/// the key; otherwise the earlier value stays in force. Other keys are unaffected.
pub proof fn lemma_lookup_insert<K: View, V>(s: Seq<(K, V)>, k: K, v: V, k2: K::V)
    ensures
        spec_lookup(s, k@) is None ==> spec_lookup(s.push((k, v)), k@) == Some(v),
        spec_lookup(s, k@) is Some ==> spec_lookup(s.push((k, v)), k@) == spec_lookup(s, k@),
        k2 != k@ ==> spec_lookup(s.push((k, v)), k2) == spec_lookup(s, k2),
{
    let t = s.push((k, v));
    lemma_first_index(s, k@);
    lemma_first_index(t, k@);
    lemma_first_index(s, k2);
    lemma_first_index(t, k2);
    assert(t[s.len() as int].0@ == k@);
    if let Some(i) = first_index(s, k@) {
        assert(t[i].0@ == k@);
        let ti = first_index(t, k@)->0;
        assert(ti == i) by {
            if ti > i {
            } else if ti < i {
                assert(t[ti] == s[ti]);
            }
        }
    } else {
        let ti = first_index(t, k@)->0;
        assert(ti == s.len()) by {
            if ti < s.len() {
                assert(t[ti] == s[ti]);
            }
        }
    }
    if k2 != k@ {
        if let Some(i) = first_index(s, k2) {
            assert(t[i].0@ == k2);
            let ti = first_index(t, k2)->0;
            assert(ti == i) by {
                if ti > i {
                } else if ti < i {
                    assert(t[ti] == s[ti]);
                }
            }
        } else {
            if first_index(t, k2) is Some {
                let ti = first_index(t, k2)->0;
                assert(t[ti] == s[ti]);
            }
        }
    }
}

/// What `insert` does, seen through `len`, the pairs and `get`: the map `m` after inserting
/// `(k, v)` into `m0` holds every pair of `m0` in place with `(k, v)` appended at the end, is
/// one longer, and, where `m0` already had the key `k`, gives the same value for it as before.
pub proof fn lemma_insert_law<K: View, V>(m0: VecMap<K, V>, m: VecMap<K, V>, k: K, v: V)
    requires
        m@ == m0@.push((k, v)),
    ensures
        m@.len() == m0@.len() + 1,
        m@.subrange(0, m0@.len() as int) == m0@,
        m@[m0@.len() as int] == (k, v),
        (exists|i: int| 0 <= i < m0@.len() && #[trigger] m0@[i].0@ == k@) ==> spec_lookup(m@, k@)
            == spec_lookup(m0@, k@),
        (exists|i: int| 0 <= i < m0@.len() && #[trigger] m0@[i].0@ == k@) ==> spec_lookup(m0@, k@)
            is Some,
{
    assert(m@.subrange(0, m0@.len() as int) =~= m0@);
    lemma_first_index(m0@, k@);
    lemma_lookup_insert(m0@, k, v, k@);
}

} // verus!
