//! The string-keyed mapping that holds the entries of one value type.
//!
//! A `Shelf<V>` is a mapping from keys to owned values of type `V` in which the
//! first value stored under a key stays until it is removed: storing under an
//! occupied key hands the new value back and changes nothing.

use vstd::prelude::*;

verus! {

/// The mapping `m` after `val` was offered under `key`: an occupied key keeps
/// the value it has, a free key takes `val`.
pub open spec fn stored<V>(m: Map<Seq<char>, V>, key: Seq<char>, val: V) -> Map<Seq<char>, V> {
    if m.contains_key(key) {
        m
    } else {
        m.insert(key, val)
    }
}

/// The value that `m` holds under `key`, if any.
pub open spec fn fetched<V>(m: Map<Seq<char>, V>, key: Seq<char>) -> Option<V> {
    if m.contains_key(key) {
        Some(m[key])
    } else {
        None
    }
}

/// No key stands at two places of `s`.
spec fn distinct_keys<V>(s: Seq<(String, V)>) -> bool {
    forall|i: int, j: int|
        0 <= i < j < s.len() ==> (#[trigger] s[i]).0@ != (#[trigger] s[j]).0@
}

/// `key` stands at place `i` of `s`.
spec fn key_at<V>(s: Seq<(String, V)>, key: Seq<char>, i: int) -> bool {
    0 <= i < s.len() && s[i].0@ == key
}

/// The mapping that a sequence of (key, value) pairs stands for.
spec fn as_map<V>(s: Seq<(String, V)>) -> Map<Seq<char>, V> {
    Map::new(
        |k: Seq<char>| exists|i: int| key_at(s, k, i),
        |k: Seq<char>| s[choose|i: int| key_at(s, k, i)].1,
    )
}

/// With distinct keys, the mapping holds under the key of each place the
/// value of that place.
proof fn lemma_as_map_at<V>(s: Seq<(String, V)>, i: int)
    requires
        distinct_keys(s),
        0 <= i < s.len(),
    ensures
        as_map(s).contains_key(s[i].0@),
        as_map(s)[s[i].0@] == s[i].1,
{
    let k = s[i].0@;
    assert(key_at(s, k, i));
    let j = choose|j: int| key_at(s, k, j);
    assert(key_at(s, k, j));
    if j < i {
        assert(s[j].0@ != s[i].0@);
    } else if i < j {
        assert(s[i].0@ != s[j].0@);
    }
}

/// A key that stands at no place is no key of the mapping.
proof fn lemma_as_map_absent<V>(s: Seq<(String, V)>, key: Seq<char>)
    requires
        forall|i: int| 0 <= i < s.len() ==> (#[trigger] s[i]).0@ != key,
    ensures
        !as_map(s).contains_key(key),
{
    assert forall|i: int| !key_at(s, key, i) by {
        if 0 <= i < s.len() {
            assert(s[i].0@ != key);
        }
    }
}

/// No pairs stand for the empty mapping.
proof fn lemma_as_map_empty<V>(s: Seq<(String, V)>)
    requires
        s.len() == 0,
    ensures
        as_map(s) == Map::<Seq<char>, V>::empty(),
{
    assert forall|k: Seq<char>| !as_map(s).contains_key(k) by {
        lemma_as_map_absent(s, k);
    }
    assert(as_map(s) =~= Map::<Seq<char>, V>::empty());
}

/// A pair with a new key, put at the end, adds its entry to the mapping.
proof fn lemma_push<V>(s: Seq<(String, V)>, key: String, val: V)
    requires
        distinct_keys(s),
        !as_map(s).contains_key(key@),
    ensures
        distinct_keys(s.push((key, val))),
        as_map(s.push((key, val))) == as_map(s).insert(key@, val),
{
    let t = s.push((key, val));
    assert forall|i: int| 0 <= i < s.len() implies (#[trigger] s[i]).0@ != key@ by {
        assert(key_at(s, s[i].0@, i));
    }
    assert forall|i: int, j: int| 0 <= i < j < t.len() implies (#[trigger] t[i]).0@ != (
    #[trigger] t[j]).0@ by {
        if j < s.len() {
            assert(s[i].0@ != s[j].0@);
        } else {
            assert(s[i].0@ != key@);
        }
    }
    assert forall|k: Seq<char>| as_map(t).contains_key(k) <==> #[trigger] as_map(s).insert(
        key@,
        val,
    ).contains_key(k) by {
        if as_map(t).contains_key(k) {
            let i = choose|i: int| key_at(t, k, i);
            if i < s.len() {
                assert(key_at(s, k, i));
            }
        }
        if as_map(s).contains_key(k) {
            let i = choose|i: int| key_at(s, k, i);
            assert(key_at(t, k, i));
        }
        if k == key@ {
            assert(key_at(t, k, s.len() as int));
        }
    }
    assert forall|k: Seq<char>| as_map(t).contains_key(k) implies #[trigger] as_map(t)[k]
        == as_map(s).insert(key@, val)[k] by {
        let i = choose|i: int| key_at(t, k, i);
        lemma_as_map_at(t, i);
        if i < s.len() {
            lemma_as_map_at(s, i);
        }
    }
    assert(as_map(t) =~= as_map(s).insert(key@, val));
}

/// Taking one place out takes its key out of the mapping and nothing else.
proof fn lemma_remove<V>(s: Seq<(String, V)>, at: int)
    requires
        distinct_keys(s),
        0 <= at < s.len(),
    ensures
        distinct_keys(s.remove(at)),
        as_map(s.remove(at)) == as_map(s).remove(s[at].0@),
{
    let t = s.remove(at);
    let gone = s[at].0@;
    assert forall|i: int, j: int| 0 <= i < j < t.len() implies (#[trigger] t[i]).0@ != (
    #[trigger] t[j]).0@ by {
        let a = if i < at { i } else { i + 1 };
        let b = if j < at { j } else { j + 1 };
        assert(s[a].0@ != s[b].0@);
    }
    assert forall|k: Seq<char>| as_map(t).contains_key(k) <==> #[trigger] as_map(s).remove(
        gone,
    ).contains_key(k) by {
        if as_map(t).contains_key(k) {
            let i = choose|i: int| key_at(t, k, i);
            let a = if i < at { i } else { i + 1 };
            assert(key_at(s, k, a));
            if a < at {
                assert(s[a].0@ != s[at].0@);
            } else {
                assert(s[at].0@ != s[a].0@);
            }
        }
        if as_map(s).contains_key(k) && k != gone {
            let a = choose|a: int| key_at(s, k, a);
            let i = if a < at { a } else { a - 1 };
            assert(key_at(t, k, i));
        }
    }
    assert forall|k: Seq<char>| as_map(t).contains_key(k) implies #[trigger] as_map(t)[k]
        == as_map(s).remove(gone)[k] by {
        let i = choose|i: int| key_at(t, k, i);
        let a = if i < at { i } else { i + 1 };
        lemma_as_map_at(t, i);
        lemma_as_map_at(s, a);
    }
    assert(as_map(t) =~= as_map(s).remove(gone));
}

/// The entries of one value type: at most one value under each key.
pub struct Shelf<V> {
    items: Vec<(String, V)>,
}

impl<V> View for Shelf<V> {
    type V = Map<Seq<char>, V>;

    closed spec fn view(&self) -> Map<Seq<char>, V> {
        as_map(self.items@)
    }
}

impl<V> Shelf<V> {
    #[verifier::type_invariant]
    closed spec fn well_formed(self) -> bool {
        distinct_keys(self.items@)
    }

    /// An empty shelf.
    pub fn new() -> (shelf: Shelf<V>)
        ensures
            shelf@ == Map::<Seq<char>, V>::empty(),
    {
        let shelf = Shelf { items: Vec::new() };
        proof {
            lemma_as_map_empty(shelf.items@);
        }
        shelf
    }

    /// The place at which `key` stands, if it stands anywhere.
    fn find(&self, key: &String) -> (place: Option<usize>)
        ensures
            match place {
                Some(i) => i < self.items@.len() && self.items@[i as int].0@ == key@,
                None => !self@.contains_key(key@),
            },
    {
        let mut i: usize = 0;
        while i < self.items.len()
            invariant
                i <= self.items@.len(),
                forall|j: int| 0 <= j < i ==> (#[trigger] self.items@[j]).0@ != key@,
            decreases self.items@.len() - i,
        {
            if self.items[i].0 == *key {
                return Some(i);
            }
            i += 1;
        }
        proof {
            lemma_as_map_absent(self.items@, key@);
        }
        None
    }

    /// Stores `val` under `key` unless the key is occupied. An occupied key
    /// keeps its value, and `val` comes back to the caller.
    pub fn insert(&mut self, key: String, val: V) -> (rejected: Option<V>)
        ensures
            final(self)@ == stored(old(self)@, key@, val),
            rejected == if old(self)@.contains_key(key@) {
                Some(val)
            } else {
                None::<V>
            },
    {
        proof {
            use_type_invariant(&*self);
        }
        match self.find(&key) {
            Some(i) => {
                proof {
                    lemma_as_map_at(self.items@, i as int);
                }
                Some(val)
            },
            None => {
                proof {
                    lemma_push(self.items@, key, val);
                }
                // The pairs leave the shelf while they change; the empty
                // vector that stands in for them has distinct keys too.
                let mut items: Vec<(String, V)> = Vec::new();
                core::mem::swap(&mut self.items, &mut items);
                items.push((key, val));
                core::mem::swap(&mut self.items, &mut items);
                None
            },
        }
    }

    /// The value stored under `key`, if there is one. The shelf keeps it.
    pub fn get(&self, key: &str) -> (found: Option<&V>)
        ensures
            match found {
                Some(v) => fetched(self@, key@) == Some(*v),
                None => fetched(self@, key@).is_none(),
            },
    {
        proof {
            use_type_invariant(self);
        }
        let owned = key.to_owned();
        match self.find(&owned) {
            Some(i) => {
                proof {
                    lemma_as_map_at(self.items@, i as int);
                }
                Some(&self.items[i].1)
            },
            None => None,
        }
    }

    /// Takes the value stored under `key` out of the shelf, if there is one.
    pub fn remove(&mut self, key: &str) -> (taken: Option<V>)
        ensures
            taken == fetched(old(self)@, key@),
            final(self)@ == old(self)@.remove(key@),
    {
        proof {
            use_type_invariant(&*self);
        }
        let owned = key.to_owned();
        match self.find(&owned) {
            Some(i) => {
                proof {
                    lemma_as_map_at(self.items@, i as int);
                    lemma_remove(self.items@, i as int);
                }
                let mut items: Vec<(String, V)> = Vec::new();
                core::mem::swap(&mut self.items, &mut items);
                let entry = items.remove(i);
                core::mem::swap(&mut self.items, &mut items);
                Some(entry.1)
            },
            None => {
                assert(self@.remove(key@) =~= self@);
                None
            },
        }
    }
}

} // verus!
