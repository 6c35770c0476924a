//! A map from peer names to values that keeps its keys in order of arrival.
use vstd::prelude::*;

verus! {

/// An association list keyed by peer name, in which no name occurs twice.
///
/// `@` is the finite map that it stands for, and `keys()` the order in which
/// it is walked: a new name goes to the end, a replaced value stays in place.
pub struct Roster<V> {
    entries: Vec<(String, V)>,
}

impl<V> View for Roster<V> {
    type V = Map<Seq<char>, V>;

    closed spec fn view(&self) -> Map<Seq<char>, V> {
        Map::new(
            |k: Seq<char>| self.keys().contains(k),
            |k: Seq<char>| self.entries@[self.keys().index_of(k)].1,
        )
    }
}

impl<V> Roster<V> {
    /// The names, in order of arrival.
    pub closed spec fn keys(&self) -> Seq<Seq<char>> {
        self.entries@.map_values(|e: (String, V)| e.0@)
    }

    /// No name occurs twice.
    pub closed spec fn wf(&self) -> bool {
        self.keys().no_duplicates()
    }

    /// What a well-formed roster guarantees of its two views.
    pub proof fn lemma_wf(&self)
        requires
            self.wf(),
        ensures
            self.keys().no_duplicates(),
            self.keys().to_set() == self@.dom(),
            self@.dom().finite(),
            self@.dom().len() == self.keys().len(),
    {
        self.keys().unique_seq_to_set();
        assert(self.keys().to_set() =~= self@.dom());
    }

    proof fn lemma_at(&self, i: int)
        requires
            self.wf(),
            0 <= i < self.entries@.len(),
        ensures
            self.keys()[i] == self.entries@[i].0@,
            self@.contains_key(self.keys()[i]),
            self@[self.keys()[i]] == self.entries@[i].1,
    {
        assert(self.keys().contains(self.keys()[i]));
        let j = self.keys().index_of(self.keys()[i]);
        assert(j == i);
    }

    pub fn new() -> (r: Self)
        ensures
            r.wf(),
            r.keys() == Seq::<Seq<char>>::empty(),
            r@ == Map::<Seq<char>, V>::empty(),
    {
        let r = Roster { entries: Vec::new() };
        assert(r.keys() =~= Seq::<Seq<char>>::empty());
        assert(r@ =~= Map::<Seq<char>, V>::empty());
        r
    }

    /// The number of names.
    pub fn len(&self) -> (n: usize)
        requires
            self.wf(),
        ensures
            n == self@.dom().len(),
            n == self.keys().len(),
    {
        proof {
            self.lemma_wf();
        }
        self.entries.len()
    }

    fn position(&self, key: &String) -> (r: Option<usize>)
        requires
            self.wf(),
        ensures
            match r {
                Some(i) => i < self.entries@.len() && self.entries@[i as int].0@ == key@
                    && self.keys()[i as int] == key@ && self@.contains_key(key@)
                    && self@[key@] == self.entries@[i as int].1,
                None => !self@.contains_key(key@) && !self.keys().contains(key@),
            },
    {
        let n: usize = self.entries.len();
        let mut i: usize = 0;
        while i < n
            invariant
                self.wf(),
                n == self.entries@.len(),
                i <= n,
                forall|j: int| 0 <= j < i ==> self.entries@[j].0@ != key@,
            decreases n - i,
        {
            if self.entries[i].0 == *key {
                proof {
                    self.lemma_at(i as int);
                }
                return Some(i);
            }
            i = i + 1;
        }
        None
    }

    pub fn contains_key(&self, key: &String) -> (r: bool)
        requires
            self.wf(),
        ensures
            r == self@.contains_key(key@),
    {
        self.position(key).is_some()
    }

    pub fn get(&self, key: &String) -> (r: Option<&V>)
        requires
            self.wf(),
        ensures
            match r {
                Some(v) => self@.contains_key(key@) && *v == self@[key@],
                None => !self@.contains_key(key@),
            },
    {
        match self.position(key) {
            Some(i) => Some(&self.entries[i].1),
            None => None,
        }
    }

    /// The name at a place in the order of arrival.
    pub fn key_at(&self, i: usize) -> (r: &String)
        requires
            self.wf(),
            i < self.keys().len(),
        ensures
            r@ == self.keys()[i as int],
            self@.contains_key(r@),
    {
        proof {
            self.lemma_at(i as int);
        }
        &self.entries[i].0
    }

    /// The value at a place in the order of arrival.
    pub fn value_at(&self, i: usize) -> (r: &V)
        requires
            self.wf(),
            i < self.keys().len(),
        ensures
            *r == self@[self.keys()[i as int]],
            self@.contains_key(self.keys()[i as int]),
    {
        proof {
            self.lemma_at(i as int);
        }
        &self.entries[i].1
    }

    /// Puts a value under a name, in place of the one that was there.
    pub fn insert(&mut self, key: String, value: V)
        requires
            old(self).wf(),
        ensures
            final(self).wf(),
            final(self)@ == old(self)@.insert(key@, value),
            final(self).keys() == if old(self)@.contains_key(key@) {
                old(self).keys()
            } else {
                old(self).keys().push(key@)
            },
    {
        let ghost before = *self;
        match self.position(&key) {
            Some(i) => {
                self.entries.set(i, (key, value));
                assert(self.keys() =~= before.keys());
                proof {
                    self.lemma_replaced(before, i as int);
                }
            },
            None => {
                self.entries.push((key, value));
                assert(self.keys() =~= before.keys().push(key@));
                assert(self.wf());
                proof {
                    self.lemma_wf();
                    before.lemma_wf();
                    assert forall|k: Seq<char>| #[trigger] self@.contains_key(k) implies self@[k]
                        == before@.insert(key@, value)[k] by {
                        let j = self.keys().index_of(k);
                        self.lemma_at(j);
                        if j < before.keys().len() {
                            before.lemma_at(j);
                        }
                    }
                    assert forall|k: Seq<char>|
                        self@.contains_key(k) <==> before@.insert(key@, value).contains_key(k) by {
                        if before.keys().contains(k) {
                            let j = before.keys().index_of(k);
                            assert(self.keys()[j] == k);
                        }
                        assert(self.keys()[before.keys().len() as int] == key@);
                    }
                    assert(self@ =~= before@.insert(key@, value));
                }
            },
        }
    }

    /// Replacing the value at one place changes the map at that name alone.
    proof fn lemma_replaced(&self, before: Self, i: int)
        requires
            before.wf(),
            0 <= i < before.entries@.len(),
            self.keys() == before.keys(),
            self.entries@.len() == before.entries@.len(),
            forall|j: int|
                0 <= j < before.entries@.len() && j != i ==> #[trigger] self.entries@[j].1
                    == before.entries@[j].1,
        ensures
            self.wf(),
            self@ == before@.insert(before.keys()[i], self.entries@[i].1),
    {
        assert forall|k: Seq<char>| #[trigger] self@.contains_key(k) implies self@[k]
            == before@.insert(before.keys()[i], self.entries@[i].1)[k] by {
            let j = self.keys().index_of(k);
            self.lemma_at(j);
            before.lemma_at(j);
        }
        assert(self.keys().contains(self.keys()[i]));
        assert(self@ =~= before@.insert(before.keys()[i], self.entries@[i].1));
    }

    /// Lends the value under a name for changing it in place.
    pub fn get_mut(&mut self, key: &String) -> (r: Option<&mut V>)
        requires
            old(self).wf(),
        ensures
            match r {
                Some(v) => {
                    &&& old(self)@.contains_key(key@)
                    &&& *v == old(self)@[key@]
                    &&& final(self).wf()
                    &&& final(self).keys() == old(self).keys()
                    &&& final(self)@ == old(self)@.insert(key@, *final(v))
                },
                None => !old(self)@.contains_key(key@) && *final(self) == *old(self),
            },
    {
        let ghost before = *self;
        match self.position(key) {
            Some(i) => {
                proof {
                    assert forall|after: Self|
                        #![trigger after.entries@]
                        after.entries@.len() == before.entries@.len() && after.entries@[i as int].0
                            == before.entries@[i as int].0 && (forall|j: int|
                            0 <= j < before.entries@.len() && j != i ==> after.entries@[j]
                                == before.entries@[j]) implies after.wf() && after.keys()
                        == before.keys() && after@ == before@.insert(
                        key@,
                        after.entries@[i as int].1,
                    ) by {
                        assert(after.keys() =~= before.keys());
                        after.lemma_replaced(before, i as int);
                    }
                }
                Some(&mut self.entries[i].1)
            },
            None => None,
        }
    }

    /// Takes a name and its value out.
    pub fn remove(&mut self, key: &String) -> (r: Option<V>)
        requires
            old(self).wf(),
        ensures
            final(self).wf(),
            final(self)@ == old(self)@.remove(key@),
            final(self).keys() == old(self).keys().filter(|k: Seq<char>| k != key@),
            match r {
                Some(v) => old(self)@.contains_key(key@) && v == old(self)@[key@],
                None => !old(self)@.contains_key(key@),
            },
    {
        let ghost before = *self;
        match self.position(key) {
            Some(i) => {
                let (name, value) = self.entries.remove(i);
                proof {
                    assert(self.keys() =~= before.keys().remove(i as int));
                    lemma_remove_is_filter(before.keys(), i as int);
                    lemma_remove_no_duplicates(before.keys(), i as int);
                    assert(self.wf());
                    assert forall|k: Seq<char>| #[trigger] self@.contains_key(k) implies self@[k]
                        == before@.remove(key@)[k] by {
                        let j = self.keys().index_of(k);
                        self.lemma_at(j);
                        let j2 = if j < i {
                            j
                        } else {
                            j + 1
                        };
                        before.lemma_at(j2);
                        assert(before.keys()[j2] == k);
                    }
                    assert forall|k: Seq<char>|
                        self@.contains_key(k) <==> before@.remove(key@).contains_key(k) by {
                        if before.keys().contains(k) && k != key@ {
                            let j = before.keys().index_of(k);
                            let j2 = if j < i {
                                j
                            } else {
                                j - 1
                            };
                            assert(self.keys()[j2] == k);
                        }
                        if self.keys().contains(k) {
                            let j = self.keys().index_of(k);
                            let j2 = if j < i {
                                j
                            } else {
                                j + 1
                            };
                            assert(before.keys()[j2] == k);
                        }
                    }
                    assert(self@ =~= before@.remove(key@));
                }
                Some(value)
            },
            None => {
                proof {
                    lemma_filter_absent(before.keys(), key@);
                    assert(before@ =~= before@.remove(key@));
                }
                None
            },
        }
    }
}

proof fn lemma_remove_no_duplicates<A>(s: Seq<A>, i: int)
    requires
        s.no_duplicates(),
        0 <= i < s.len(),
    ensures
        s.remove(i).no_duplicates(),
{
}

/// Filtering out a value that does not occur changes nothing.
pub proof fn lemma_filter_absent<A>(s: Seq<A>, a: A)
    requires
        !s.contains(a),
    ensures
        s.filter(|x: A| x != a) == s,
    decreases s.len(),
{
    reveal(Seq::filter);
    if s.len() > 0 {
        assert(s.last() != a);
        assert forall|x: A| s.drop_last().contains(x) implies s.contains(x) by {
            let j = s.drop_last().index_of(x);
            assert(s[j] == x);
        }
        lemma_filter_absent(s.drop_last(), a);
        assert(s.drop_last().push(s.last()) =~= s);
    }
}

/// In a sequence without repetition, taking one place out filters its value out.
proof fn lemma_remove_is_filter<A>(s: Seq<A>, i: int)
    requires
        s.no_duplicates(),
        0 <= i < s.len(),
    ensures
        s.remove(i) == s.filter(|x: A| x != s[i]),
    decreases s.len(),
{
    reveal(Seq::filter);
    let a = s[i];
    if i == s.len() - 1 {
        assert(!s.drop_last().contains(a));
        lemma_filter_absent(s.drop_last(), a);
        assert(s.remove(i) =~= s.drop_last());
    } else {
        let t = s.drop_last();
        assert(t.no_duplicates());
        lemma_remove_is_filter(t, i);
        assert(t[i] == a);
        assert(s.last() != a);
        assert(s.remove(i) =~= t.remove(i).push(s.last()));
    }
}

} // verus!
