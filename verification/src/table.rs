//! A small map keyed by strings.

use vstd::prelude::*;

verus! {

/// A map from strings to values. No key occurs twice; a key that is inserted again takes the new
/// value.
pub struct Table<V> {
    entries: Vec<(String, V)>,
}

/// The value at the first entry whose key is `key`.
spec fn lookup<V>(entries: Seq<(String, V)>, key: Seq<char>) -> Option<V>
    decreases entries.len(),
{
    if entries.len() == 0 {
        None
    } else if entries[0].0@ == key {
        Some(entries[0].1)
    } else {
        lookup(entries.skip(1), key)
    }
}

spec fn distinct_keys<V>(entries: Seq<(String, V)>) -> bool {
    forall|i: int, j: int|
        0 <= i < j < entries.len() ==> (#[trigger] entries[i]).0@ != (#[trigger] entries[j]).0@
}

proof fn lemma_lookup_at<V>(entries: Seq<(String, V)>, key: Seq<char>, i: int)
    requires
        distinct_keys(entries),
        0 <= i < entries.len(),
        entries[i].0@ == key,
    ensures
        lookup(entries, key) == Some(entries[i].1),
    decreases entries.len(),
{
    if i > 0 {
        assert(entries[0].0@ != entries[i].0@);
        assert(entries.skip(1)[i - 1] == entries[i]);
        assert forall|a: int, b: int| 0 <= a < b < entries.skip(1).len() implies (
        #[trigger] entries.skip(1)[a]).0@ != (#[trigger] entries.skip(1)[b]).0@ by {
            assert(entries[a + 1].0@ != entries[b + 1].0@);
        }
        lemma_lookup_at(entries.skip(1), key, i - 1);
    }
}

proof fn lemma_lookup_absent<V>(entries: Seq<(String, V)>, key: Seq<char>)
    requires
        forall|i: int| 0 <= i < entries.len() ==> (#[trigger] entries[i]).0@ != key,
    ensures
        lookup(entries, key) is None,
    decreases entries.len(),
{
    if entries.len() > 0 {
        assert(entries[0].0@ != key);
        assert forall|i: int| 0 <= i < entries.skip(1).len() implies (
        #[trigger] entries.skip(1)[i]).0@ != key by {
            assert(entries.skip(1)[i] == entries[i + 1]);
        }
        lemma_lookup_absent(entries.skip(1), key);
    }
}

proof fn lemma_lookup_witness<V>(entries: Seq<(String, V)>, key: Seq<char>) -> (i: int)
    requires
        lookup(entries, key) is Some,
    ensures
        0 <= i < entries.len(),
        entries[i].0@ == key,
        lookup(entries, key) == Some(entries[i].1),
    decreases entries.len(),
{
    if entries[0].0@ == key {
        0
    } else {
        let i = lemma_lookup_witness(entries.skip(1), key);
        i + 1
    }
}

impl<V> View for Table<V> {
    type V = Map<Seq<char>, V>;

    closed spec fn view(&self) -> Map<Seq<char>, V> {
        Map::new(
            |key: Seq<char>| lookup(self.entries@, key) is Some,
            |key: Seq<char>| lookup(self.entries@, key)->0,
        )
    }
}

impl<V> Table<V> {
    #[verifier::type_invariant]
    spec fn inv(self) -> bool {
        distinct_keys(self.entries@)
    }

    /// The empty map.
    pub fn new() -> (r: Self)
        ensures
            r@ == Map::<Seq<char>, V>::empty(),
    {
        let r = Table { entries: Vec::new() };
        assert(r@ =~= Map::<Seq<char>, V>::empty());
        r
    }

    fn position(&self, key: &str) -> (r: Option<usize>)
        ensures
            match r {
                Some(i) => {
                    &&& i < self.entries@.len()
                    &&& self.entries@[i as int].0@ == key@
                    &&& self@.contains_key(key@)
                    &&& self@[key@] == self.entries@[i as int].1
                },
                None => {
                    &&& !self@.contains_key(key@)
                    &&& forall|i: int|
                        0 <= i < self.entries@.len() ==> (#[trigger] self.entries@[i]).0@ != key@
                },
            },
    {
        proof {
            use_type_invariant(self);
        }
        let mut i: usize = 0;
        while i < self.entries.len()
            invariant
                i <= self.entries@.len(),
                distinct_keys(self.entries@),
                forall|j: int| 0 <= j < i ==> (#[trigger] self.entries@[j]).0@ != key@,
            decreases self.entries@.len() - i,
        {
            if crate::text::str_eq(self.entries[i].0.as_str(), key) {
                proof {
                    lemma_lookup_at(self.entries@, key@, i as int);
                }
                return Some(i);
            }
            i = i + 1;
        }
        proof {
            lemma_lookup_absent(self.entries@, key@);
        }
        None
    }

    /// The value at `key`.
    pub fn get(&self, key: &str) -> (r: Option<&V>)
        ensures
            r is Some <==> self@.contains_key(key@),
            r matches Some(v) ==> *v == self@[key@],
    {
        match self.position(key) {
            Some(i) => Some(&self.entries[i].1),
            None => None,
        }
    }

    /// Puts `value` at `key`, in place of what stood there.
    pub fn insert(&mut self, key: String, value: V)
        ensures
            final(self)@ == old(self)@.insert(key@, value),
    {
        proof {
            use_type_invariant(&*self);
        }
        let found = self.position(key.as_str());
        let ghost before = self.entries@;
        let ghost map = self@;
        let mut entries: Vec<(String, V)> = Vec::new();
        std::mem::swap(&mut entries, &mut self.entries);
        match found {
            Some(i) => {
                entries[i] = (key, value);
            },
            None => {
                entries.push((key, value));
            },
        }
        let ghost after = entries@;
        proof {
            let at = match found {
                Some(i) => i as int,
                None => before.len() as int,
            };
            assert(after[at] == (key, value));
            assert(forall|k: int| 0 <= k < before.len() && k != at ==> after[k] == before[k]);
            assert(distinct_keys(after)) by {
                assert forall|i: int, j: int| 0 <= i < j < after.len() implies (
                #[trigger] after[i]).0@ != (#[trigger] after[j]).0@ by {
                    if i != at && j != at {
                        assert(before[i].0@ != before[j].0@);
                    } else if found is Some {
                        assert(before[i].0@ != before[j].0@);
                    } else {
                        assert(before[i].0@ != key@);
                    }
                }
            }
            lemma_lookup_at(after, key@, at);
            assert forall|k: Seq<char>| k != key@ implies lookup(after, k) == lookup(before, k) by {
                if lookup(before, k) is Some {
                    let w = lemma_lookup_witness(before, k);
                    assert(w != at);
                    assert(after[w] == before[w]);
                    lemma_lookup_at(after, k, w);
                } else if lookup(after, k) is Some {
                    let w = lemma_lookup_witness(after, k);
                    assert(w != at);
                    assert(after[w] == before[w]);
                    lemma_lookup_at(before, k, w);
                }
            }
        }
        self.entries = entries;
        assert(self@ =~= map.insert(key@, value));
    }

    /// Takes `key` and its value out, where it is there.
    pub fn remove(&mut self, key: &str)
        ensures
            final(self)@ == old(self)@.remove(key@),
    {
        proof {
            use_type_invariant(&*self);
        }
        let found = self.position(key);
        let ghost before = self.entries@;
        let ghost map = self@;
        match found {
            Some(i) => {
                let mut entries: Vec<(String, V)> = Vec::new();
                std::mem::swap(&mut entries, &mut self.entries);
                let _ = entries.remove(i);
                let ghost after = entries@;
                proof {
                    assert(after == before.remove(i as int));
                    assert forall|a: int, b: int| 0 <= a < b < after.len() implies (
                    #[trigger] after[a]).0@ != (#[trigger] after[b]).0@ by {
                        let x = if a < i { a } else { a + 1 };
                        let y = if b < i { b } else { b + 1 };
                        assert(before[x].0@ != before[y].0@);
                    }
                    assert forall|k: Seq<char>| k != key@ implies lookup(after, k) == lookup(
                        before,
                        k,
                    ) by {
                        if lookup(before, k) is Some {
                            let w = lemma_lookup_witness(before, k);
                            let x = if w < i { w } else { w - 1 };
                            assert(after[x] == before[w]);
                            lemma_lookup_at(after, k, x);
                        } else if lookup(after, k) is Some {
                            let w = lemma_lookup_witness(after, k);
                            let x = if w < i { w } else { w + 1 };
                            assert(after[w] == before[x]);
                            lemma_lookup_at(before, k, x);
                        }
                    }
                    assert(lookup(after, key@) is None) by {
                        assert forall|a: int| 0 <= a < after.len() implies (
                        #[trigger] after[a]).0@ != key@ by {
                            let x = if a < i { a } else { a + 1 };
                            assert(after[a] == before[x]);
                            assert(before[x].0@ != before[i as int].0@);
                        }
                        lemma_lookup_absent(after, key@);
                    }
                }
                self.entries = entries;
                assert(self@ =~= map.remove(key@));
            },
            None => {
                assert(self@ =~= map.remove(key@));
            },
        }
    }

    /// The keys, each once.
    pub fn keys(&self) -> (r: Vec<&String>)
        ensures
            forall|i: int| 0 <= i < r@.len() ==> self@.contains_key((#[trigger] r@[i])@),
            forall|k: Seq<char>|
                #[trigger] self@.contains_key(k) ==> exists|i: int|
                    0 <= i < r@.len() && (#[trigger] r@[i])@ == k,
            forall|i: int, j: int| 0 <= i < j < r@.len() ==> (#[trigger] r@[i])@ != (#[trigger] r@[j])@,
    {
        proof {
            use_type_invariant(self);
        }
        let mut out: Vec<&String> = Vec::new();
        let mut i: usize = 0;
        while i < self.entries.len()
            invariant
                i <= self.entries@.len(),
                out@.len() == i,
                forall|k: int| 0 <= k < i ==> *(#[trigger] out@[k]) == self.entries@[k].0,
            decreases self.entries@.len() - i,
        {
            out.push(&self.entries[i].0);
            i = i + 1;
        }
        proof {
            assert forall|k: int| 0 <= k < out@.len() implies self@.contains_key(
                (#[trigger] out@[k])@,
            ) by {
                lemma_lookup_at(self.entries@, out@[k]@, k);
            }
            assert forall|k: Seq<char>| #[trigger] self@.contains_key(k) implies exists|i: int|
                0 <= i < out@.len() && (#[trigger] out@[i])@ == k by {
                let w = lemma_lookup_witness(self.entries@, k);
                assert(out@[w]@ == k);
            }
            assert forall|i: int, j: int| 0 <= i < j < out@.len() implies (#[trigger] out@[i])@ != (
            #[trigger] out@[j])@ by {
                assert(self.entries@[i].0@ != self.entries@[j].0@);
            }
        }
        out
    }
}

}
