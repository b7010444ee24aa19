//! A table from string keys to values, in which no key occurs twice.
use vstd::prelude::*;

verus! {

/// Entries in the order they were first inserted; a key occurs at most once.
pub struct KeyedTable<V: View> {
    entries: Vec<(String, V)>,
}

/// No key occurs at two places of `s`.
pub open spec fn distinct_keys<V>(s: Seq<(String, V)>) -> bool {
    forall|i: int, j: int|
        0 <= i < s.len() && 0 <= j < s.len() && i != j ==> (#[trigger] s[i]).0@ != (#[trigger] s[j]).0@
}

/// `k` occurs in `s`.
pub open spec fn has_key<V>(s: Seq<(String, V)>, k: Seq<char>) -> bool {
    exists|i: int| 0 <= i < s.len() && (#[trigger] s[i]).0@ == k
}

/// The place of `k` in `s`, where it occurs.
pub open spec fn place_of<V>(s: Seq<(String, V)>, k: Seq<char>) -> int {
    choose|i: int| 0 <= i < s.len() && (#[trigger] s[i]).0@ == k
}

/// The map that a sequence of entries with distinct keys stands for.
pub open spec fn entries_map<V: View>(s: Seq<(String, V)>) -> Map<Seq<char>, V::V> {
    Map::new(|k: Seq<char>| has_key(s, k), |k: Seq<char>| s[place_of(s, k)].1@)
}

proof fn lemma_place_of<V: View>(s: Seq<(String, V)>, i: int)
    requires
        distinct_keys(s),
        0 <= i < s.len(),
    ensures
        has_key(s, s[i].0@),
        place_of(s, s[i].0@) == i,
        entries_map(s).dom().contains(s[i].0@),
        entries_map(s)[s[i].0@] == s[i].1@,
{
    assert(has_key(s, s[i].0@));
    let p = place_of(s, s[i].0@);
    assert(s[p].0@ == s[i].0@);
}

/// The map has as many keys as there are entries.
proof fn lemma_entries_map_len<V: View>(s: Seq<(String, V)>)
    requires
        distinct_keys(s),
    ensures
        entries_map(s).dom().finite(),
        entries_map(s).dom().len() == s.len(),
    decreases s.len(),
{
    if s.len() == 0 {
        assert(entries_map(s).dom() =~= Set::<Seq<char>>::empty());
    } else {
        let t = s.drop_last();
        assert(distinct_keys(t)) by {
            assert forall|i: int, j: int|
                0 <= i < t.len() && 0 <= j < t.len() && i != j implies (#[trigger] t[i]).0@ != (#[trigger] t[j]).0@ by {
                assert(t[i] == s[i] && t[j] == s[j]);
            }
        }
        lemma_entries_map_len(t);
        let k = s.last().0@;
        assert(!has_key(t, k)) by {
            if has_key(t, k) {
                let p = choose|p: int| 0 <= p < t.len() && (#[trigger] t[p]).0@ == k;
                assert(s[p] == t[p]);
                assert(s[s.len() - 1] == s.last());
            }
        }
        assert(entries_map(s).dom() =~= entries_map(t).dom().insert(k)) by {
            assert forall|x: Seq<char>| #[trigger] entries_map(s).dom().contains(x) implies entries_map(t).dom().insert(k).contains(x) by {
                let p = choose|p: int| 0 <= p < s.len() && (#[trigger] s[p]).0@ == x;
                if p < s.len() - 1 {
                    assert(t[p] == s[p]);
                }
            }
            assert forall|x: Seq<char>| #[trigger] entries_map(t).dom().insert(k).contains(x) implies entries_map(s).dom().contains(x) by {
                if x == k {
                    assert(s[s.len() - 1].0@ == k);
                } else {
                    let p = choose|p: int| 0 <= p < t.len() && (#[trigger] t[p]).0@ == x;
                    assert(s[p] == t[p]);
                }
            }
        }
    }
}

impl<V: View> View for KeyedTable<V> {
    type V = Map<Seq<char>, V::V>;

    closed spec fn view(&self) -> Map<Seq<char>, V::V> {
        entries_map(self.entries@)
    }
}

impl<V: View> KeyedTable<V> {
    /// No key occurs twice.
    #[verifier::type_invariant]
    spec fn wf(&self) -> bool {
        distinct_keys(self.entries@)
    }

    pub fn new() -> (t: Self)
        ensures
            t@ == Map::<Seq<char>, V::V>::empty(),
    {
        let t = KeyedTable { entries: Vec::new() };
        assert(t@ =~= Map::<Seq<char>, V::V>::empty());
        t
    }

    pub fn len(&self) -> (n: usize)
        ensures
            n == self@.dom().len(),
    {
        proof {
            use_type_invariant(self);
            lemma_entries_map_len(self.entries@);
        }
        self.entries.len()
    }

    /// The value stored under `key`.
    pub fn get(&self, key: &str) -> (v: Option<&V>)
        ensures
            v matches Some(x) ==> self@.dom().contains(key@) && x@ == self@[key@],
            v is None <==> !self@.dom().contains(key@),
    {
        proof { use_type_invariant(self); }
        match self.position(key) {
            Some(i) => {
                proof { lemma_place_of(self.entries@, i as int); }
                Some(&self.entries[i].1)
            },
            None => None,
        }
    }

    /// Whether a value is stored under `key`.
    pub fn contains_key(&self, key: &str) -> (b: bool)
        ensures
            b == self@.dom().contains(key@),
    {
        proof { use_type_invariant(self); }
        self.position(key).is_some()
    }

    fn position(&self, key: &str) -> (p: Option<usize>)
        ensures
            p matches Some(i) ==> i < self.entries@.len() && self.entries@[i as int].0@ == key@,
            p is None <==> !has_key(self.entries@, key@),
    {
        let k = key.to_owned();
        let mut i: usize = 0;
        while i < self.entries.len()
            invariant
                i <= self.entries.len(),
                k@ == key@,
                forall|j: int| 0 <= j < i ==> (#[trigger] self.entries@[j]).0@ != key@,
            decreases self.entries.len() - i,
        {
            if self.entries[i].0 == k {
                return Some(i);
            }
            i = i + 1;
        }
        None
    }

    /// Stores `value` under `key`, in place of what was stored there.
    pub fn insert(&mut self, key: String, value: V)
        ensures
            final(self)@ == old(self)@.insert(key@, value@),
    {
        proof { use_type_invariant(&*self); }
        let ghost k = key@;
        let ghost old_s = self.entries@;
        let place = self.position(key.as_str());
        let mut entries: Vec<(String, V)> = Vec::new();
        std::mem::swap(&mut entries, &mut self.entries);
        match place {
            Some(i) => {
                entries.set(i, (key, value));
                let ghost s = entries@;
                assert(s =~= old_s.update(i as int, s[i as int]));
                assert(distinct_keys(s)) by {
                    assert forall|a: int, b: int|
                        0 <= a < s.len() && 0 <= b < s.len() && a != b implies (#[trigger] s[a]).0@ != (#[trigger] s[b]).0@ by {
                        if a != i && b != i {
                            assert(s[a] == old_s[a] && s[b] == old_s[b]);
                        } else if a == i {
                            assert(s[b] == old_s[b]);
                            assert(old_s[i as int].0@ == k);
                        } else {
                            assert(s[a] == old_s[a]);
                            assert(old_s[i as int].0@ == k);
                        }
                    }
                }
                assert(entries_map(s) =~= entries_map(old_s).insert(k, value@)) by {
                    assert forall|x: Seq<char>| #[trigger] entries_map(s).dom().contains(x) <==> entries_map(old_s).insert(k, value@).dom().contains(x) by {
                        if has_key(s, x) {
                            let p = choose|p: int| 0 <= p < s.len() && (#[trigger] s[p]).0@ == x;
                            if p != i { assert(old_s[p] == s[p]); }
                            else { lemma_place_of(old_s, i as int); }
                        }
                        if has_key(old_s, x) {
                            let p = choose|p: int| 0 <= p < old_s.len() && (#[trigger] old_s[p]).0@ == x;
                            if p != i { assert(old_s[p] == s[p]); }
                            else { assert(s[i as int].0@ == k); }
                        }
                        if x == k { assert(s[i as int].0@ == k); }
                    }
                    assert forall|x: Seq<char>| #[trigger] entries_map(s).dom().contains(x) implies entries_map(s)[x] == entries_map(old_s).insert(k, value@)[x] by {
                        let p = choose|p: int| 0 <= p < s.len() && (#[trigger] s[p]).0@ == x;
                        lemma_place_of(s, p);
                        if p != i {
                            assert(old_s[p] == s[p]);
                            lemma_place_of(old_s, p);
                        }
                    }
                }
            },
            None => {
                entries.push((key, value));
                let ghost s = entries@;
                assert(s =~= old_s.push((s.last().0, value)));
                assert(distinct_keys(s)) by {
                    assert forall|a: int, b: int|
                        0 <= a < s.len() && 0 <= b < s.len() && a != b implies (#[trigger] s[a]).0@ != (#[trigger] s[b]).0@ by {
                        if a < old_s.len() && b < old_s.len() {
                            assert(s[a] == old_s[a] && s[b] == old_s[b]);
                        } else if a < old_s.len() {
                            assert(s[a] == old_s[a]);
                        } else {
                            assert(s[b] == old_s[b]);
                        }
                    }
                }
                assert(entries_map(s) =~= entries_map(old_s).insert(k, value@)) by {
                    assert forall|x: Seq<char>| #[trigger] entries_map(s).dom().contains(x) <==> entries_map(old_s).insert(k, value@).dom().contains(x) by {
                        if has_key(s, x) {
                            let p = choose|p: int| 0 <= p < s.len() && (#[trigger] s[p]).0@ == x;
                            if p < old_s.len() { assert(old_s[p] == s[p]); }
                        }
                        if has_key(old_s, x) {
                            let p = choose|p: int| 0 <= p < old_s.len() && (#[trigger] old_s[p]).0@ == x;
                            assert(old_s[p] == s[p]);
                        }
                        if x == k { assert(s[old_s.len() as int].0@ == k); }
                    }
                    assert forall|x: Seq<char>| #[trigger] entries_map(s).dom().contains(x) implies entries_map(s)[x] == entries_map(old_s).insert(k, value@)[x] by {
                        let p = choose|p: int| 0 <= p < s.len() && (#[trigger] s[p]).0@ == x;
                        lemma_place_of(s, p);
                        if p < old_s.len() {
                            assert(old_s[p] == s[p]);
                            lemma_place_of(old_s, p);
                        }
                    }
                }
            },
        }
        self.entries = entries;
    }

    /// Takes out the value stored under `key`, if any.
    pub fn remove(&mut self, key: &str) -> (v: Option<V>)
        ensures
            final(self)@ == old(self)@.remove(key@),
            v matches Some(x) ==> old(self)@.dom().contains(key@) && x@ == old(self)@[key@],
            v is None <==> !old(self)@.dom().contains(key@),
    {
        proof { use_type_invariant(&*self); }
        let ghost k = key@;
        let ghost old_s = self.entries@;
        match self.position(key) {
            Some(i) => {
                proof { lemma_place_of(old_s, i as int); }
                let mut entries: Vec<(String, V)> = Vec::new();
                std::mem::swap(&mut entries, &mut self.entries);
                let (_, value) = entries.remove(i);
                let ghost s = entries@;
                assert forall|a: int| 0 <= a < s.len() implies #[trigger] s[a] == (if a < i { old_s[a] } else { old_s[a + 1] }) by {}
                assert(distinct_keys(s)) by {
                    assert forall|a: int, b: int|
                        0 <= a < s.len() && 0 <= b < s.len() && a != b implies (#[trigger] s[a]).0@ != (#[trigger] s[b]).0@ by {
                        let a2 = if a < i { a } else { a + 1 };
                        let b2 = if b < i { b } else { b + 1 };
                        assert(s[a] == old_s[a2] && s[b] == old_s[b2]);
                    }
                }
                assert(entries_map(s) =~= entries_map(old_s).remove(k)) by {
                    assert forall|x: Seq<char>| #[trigger] entries_map(s).dom().contains(x) <==> entries_map(old_s).remove(k).dom().contains(x) by {
                        if has_key(s, x) {
                            let p = choose|p: int| 0 <= p < s.len() && (#[trigger] s[p]).0@ == x;
                            let p2 = if p < i { p } else { p + 1 };
                            assert(s[p] == old_s[p2]);
                            assert(p2 != i);
                        }
                        if has_key(old_s, x) && x != k {
                            let p = choose|p: int| 0 <= p < old_s.len() && (#[trigger] old_s[p]).0@ == x;
                            assert(p != i);
                            let p2 = if p < i { p } else { p - 1 };
                            assert(s[p2] == old_s[p]);
                        }
                    }
                    assert forall|x: Seq<char>| #[trigger] entries_map(s).dom().contains(x) implies entries_map(s)[x] == entries_map(old_s).remove(k)[x] by {
                        let p = choose|p: int| 0 <= p < s.len() && (#[trigger] s[p]).0@ == x;
                        lemma_place_of(s, p);
                        let p2 = if p < i { p } else { p + 1 };
                        assert(s[p] == old_s[p2]);
                        lemma_place_of(old_s, p2);
                    }
                }
                self.entries = entries;
                Some(value)
            },
            None => {
                assert(entries_map(old_s) =~= entries_map(old_s).remove(k));
                None
            },
        }
    }
}

} // verus!
