use vstd::prelude::*;

verus! {

/// A key whose equality is decided on its view.
pub trait KeyEq: View + Sized {
    fn key_eq(&self, other: &Self) -> (r: bool)
        ensures
            r == (self@ == other@),
    ;
}

impl KeyEq for String {
    fn key_eq(&self, other: &Self) -> (r: bool) {
        *self == *other
    }
}

/// An association list with unique keys, modelled as a map from key views to values.
/// The stores key by strings and account identifiers, for which vstd gives std's
/// `HashMap` no specification (it does so for integer keys only), so the map is
/// kept here as a list whose invariant the proofs maintain.
pub(crate) struct Table<K: KeyEq, V> {
    pub(crate) keys: Vec<K>,
    pub(crate) vals: Vec<V>,
    pub(crate) model: Ghost<Map<K::V, V>>,
}

impl<K: KeyEq, V> Table<K, V> {
    pub(crate) open spec fn map(&self) -> Map<K::V, V> {
        self.model@
    }

    pub(crate) open spec fn key_view(&self, i: int) -> K::V {
        self.keys@[i]@
    }

    pub(crate) open spec fn wf(&self) -> bool {
        &&& self.keys@.len() == self.vals@.len()
        &&& forall|i: int|
            0 <= i < self.keys@.len() ==> #[trigger] self.model@.contains_key(self.key_view(i))
                && self.model@[self.key_view(i)] == self.vals@[i]
        &&& forall|k: K::V| #[trigger]
            self.model@.contains_key(k) ==> exists|i: int|
                0 <= i < self.keys@.len() && #[trigger] self.key_view(i) == k
        &&& forall|i: int, j: int|
            0 <= i < self.keys@.len() && 0 <= j < self.keys@.len() && i != j ==> #[trigger] self.key_view(i)
                != #[trigger] self.key_view(j)
    }

    pub(crate) fn new() -> (t: Self)
        ensures
            t.wf(),
            t.map() == Map::<K::V, V>::empty(),
    {
        Table { keys: Vec::new(), vals: Vec::new(), model: Ghost(Map::empty()) }
    }

    pub(crate) fn len(&self) -> (n: usize)
        requires
            self.wf(),
        ensures
            n == self.keys@.len(),
    {
        self.keys.len()
    }

    /// The position of `k`, if it is stored.
    pub(crate) fn find(&self, k: &K) -> (r: Option<usize>)
        requires
            self.wf(),
        ensures
            match r {
                Some(i) => i < self.keys@.len() && self.key_view(i as int) == k@,
                None => !self.map().contains_key(k@),
            },
    {
        let n = self.keys.len();
        let mut i: usize = 0;
        while i < n
            invariant
                self.wf(),
                n == self.keys@.len(),
                i <= n,
                forall|j: int| 0 <= j < i ==> self.key_view(j) != k@,
            decreases n - i,
        {
            if self.keys[i].key_eq(k) {
                return Some(i);
            }
            i = i + 1;
        }
        None
    }

    pub(crate) fn get(&self, k: &K) -> (r: Option<&V>)
        requires
            self.wf(),
        ensures
            r is Some <==> self.map().contains_key(k@),
            r is Some ==> *r->0 == self.map()[k@],
    {
        match self.find(k) {
            Some(i) => {
                assert(self.model@.contains_key(self.key_view(i as int)));
                Some(&self.vals[i])
            },
            None => None,
        }
    }

    pub(crate) fn insert(&mut self, k: K, v: V)
        requires
            old(self).wf(),
        ensures
            final(self).wf(),
            final(self).map() == old(self).map().insert(k@, v),
    {
        let ghost kv = k@;
        match self.find(&k) {
            Some(i) => {
                self.vals.set(i, v);
                self.model = Ghost(self.model@.insert(kv, v));
                assert forall|j: int|
                    0 <= j < self.keys@.len() implies #[trigger] self.model@.contains_key(
                    self.key_view(j),
                ) && self.model@[self.key_view(j)] == self.vals@[j] by {
                    assert(self.key_view(j) == old(self).key_view(j));
                    assert(old(self).model@.contains_key(old(self).key_view(j)));
                    if j != i {
                        assert(old(self).key_view(j) != old(self).key_view(i as int));
                    }
                }
                assert forall|c: K::V| #[trigger]
                    self.model@.contains_key(c) implies exists|j: int|
                        0 <= j < self.keys@.len() && #[trigger] self.key_view(j) == c by {
                    if c == kv {
                        assert(self.key_view(i as int) == c);
                    } else {
                        assert(old(self).model@.contains_key(c));
                        let j = choose|j: int|
                            0 <= j < old(self).keys@.len() && #[trigger] old(self).key_view(j) == c;
                        assert(self.key_view(j) == c);
                    }
                }
                assert forall|a: int, b: int|
                    0 <= a < self.keys@.len() && 0 <= b < self.keys@.len() && a != b implies #[trigger] self.key_view(a)
                        != #[trigger] self.key_view(b) by {
                    assert(self.key_view(a) == old(self).key_view(a));
                    assert(self.key_view(b) == old(self).key_view(b));
                }
            },
            None => {
                self.keys.push(k);
                self.vals.push(v);
                self.model = Ghost(self.model@.insert(kv, v));
                let ghost n = self.keys@.len() - 1;
                assert(self.key_view(n) == kv);
                assert forall|j: int|
                    0 <= j < self.keys@.len() implies #[trigger] self.model@.contains_key(
                    self.key_view(j),
                ) && self.model@[self.key_view(j)] == self.vals@[j] by {
                    if j < n {
                        assert(self.key_view(j) == old(self).key_view(j));
                        assert(old(self).model@.contains_key(old(self).key_view(j)));
                    }
                }
                assert forall|a: int, b: int|
                    0 <= a < self.keys@.len() && 0 <= b < self.keys@.len() && a != b implies #[trigger] self.key_view(a)
                        != #[trigger] self.key_view(b) by {
                    if a < n {
                        assert(self.key_view(a) == old(self).key_view(a));
                        assert(old(self).model@.contains_key(old(self).key_view(a)));
                    }
                    if b < n {
                        assert(self.key_view(b) == old(self).key_view(b));
                        assert(old(self).model@.contains_key(old(self).key_view(b)));
                    }
                }
                assert forall|c: K::V| #[trigger]
                    self.model@.contains_key(c) implies exists|j: int|
                        0 <= j < self.keys@.len() && #[trigger] self.key_view(j) == c by {
                    if c != kv {
                        assert(old(self).model@.contains_key(c));
                        let j = choose|j: int|
                            0 <= j < old(self).keys@.len() && #[trigger] old(self).key_view(j) == c;
                        assert(self.key_view(j) == c);
                    }
                }
            },
        }
    }

    /// Takes the value stored under `k` out of the table.
    pub(crate) fn remove(&mut self, k: &K) -> (r: Option<V>)
        requires
            old(self).wf(),
        ensures
            final(self).wf(),
            final(self).map() == old(self).map().remove(k@),
            r is Some <==> old(self).map().contains_key(k@),
            r is Some ==> r->0 == old(self).map()[k@],
    {
        match self.find(k) {
            Some(i) => {
                let ghost last = self.keys@.len() - 1;
                let ghost lastk = self.key_view(last);
                assert(old(self).model@.contains_key(old(self).key_view(i as int)));
                self.keys.swap_remove(i);
                let v = self.vals.swap_remove(i);
                self.model = Ghost(self.model@.remove(k@));
                assert forall|j: int|
                    0 <= j < self.keys@.len() implies #[trigger] self.model@.contains_key(
                    self.key_view(j),
                ) && self.model@[self.key_view(j)] == self.vals@[j] by {
                    if j == i {
                        assert(self.key_view(j) == old(self).key_view(last));
                        assert(self.vals@[j] == old(self).vals@[last]);
                        assert(old(self).model@.contains_key(old(self).key_view(last)));
                        assert(old(self).key_view(last) != old(self).key_view(i as int));
                    } else {
                        assert(self.key_view(j) == old(self).key_view(j));
                        assert(self.vals@[j] == old(self).vals@[j]);
                        assert(old(self).model@.contains_key(old(self).key_view(j)));
                        assert(old(self).key_view(j) != old(self).key_view(i as int));
                    }
                }
                assert forall|c: K::V| #[trigger]
                    self.model@.contains_key(c) implies exists|j: int|
                        0 <= j < self.keys@.len() && #[trigger] self.key_view(j) == c by {
                    let j = choose|j: int|
                        0 <= j < old(self).keys@.len() && #[trigger] old(self).key_view(j) == c;
                    if j == last {
                        assert(self.key_view(i as int) == c);
                    } else {
                        assert(self.key_view(j) == c);
                    }
                }
                assert forall|a: int, b: int|
                    0 <= a < self.keys@.len() && 0 <= b < self.keys@.len() && a != b implies #[trigger] self.key_view(a)
                        != #[trigger] self.key_view(b) by {
                    let oa = if a == i { last } else { a };
                    let ob = if b == i { last } else { b };
                    assert(self.key_view(a) == old(self).key_view(oa));
                    assert(self.key_view(b) == old(self).key_view(ob));
                }
                Some(v)
            },
            None => {
                assert(self.model@.remove(k@) =~= self.model@);
                self.model = Ghost(self.model@.remove(k@));
                None
            },
        }
    }
}

} // verus!
