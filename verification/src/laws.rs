//! What holds of the entries of one value type, whatever was stored before.
//!
//! Each statement is over `stored`, `fetched` and `Map::remove`, the terms in
//! which `Shelf::insert`, `Shelf::get` and `Shelf::remove` say what they do.

use crate::shelf::{fetched, stored};
use vstd::prelude::*;

verus! {

/// A value stored under a free key is the value that a lookup of the key
/// gives.
pub proof fn lemma_stored_is_fetched<V>(m: Map<Seq<char>, V>, key: Seq<char>, val: V)
    requires
        !m.contains_key(key),
    ensures
        fetched(stored(m, key, val), key) == Some(val),
{
}

/// A stored value stays while other keys are stored under or removed: neither
/// changes what a lookup of `key` gives.
pub proof fn lemma_other_keys_apart<V>(
    m: Map<Seq<char>, V>,
    key: Seq<char>,
    other: Seq<char>,
    val: V,
)
    requires
        other != key,
    ensures
        fetched(stored(m, other, val), key) == fetched(m, key),
        fetched(m.remove(other), key) == fetched(m, key),
{
}

/// The first writer wins: a second value offered under an occupied key
/// changes nothing, so a lookup still gives the value that was there.
pub proof fn lemma_first_writer_wins<V>(m: Map<Seq<char>, V>, key: Seq<char>, first: V, second: V)
    ensures
        stored(stored(m, key, first), key, second) == stored(m, key, first),
        !m.contains_key(key) ==> fetched(stored(stored(m, key, first), key, second), key) == Some(
            first,
        ),
{
}

/// A key under which nothing is stored gives nothing, and storing under
/// another key does not change that. Nothing is stored under any key of the
/// empty mapping.
pub proof fn lemma_absent_key<V>(m: Map<Seq<char>, V>, key: Seq<char>, other: Seq<char>, val: V)
    requires
        !m.contains_key(key),
        other != key,
    ensures
        fetched(m, key).is_none(),
        fetched(stored(m, other, val), key).is_none(),
        fetched(Map::<Seq<char>, V>::empty(), key).is_none(),
{
}

/// Removal gives the stored value once: after a value was stored under a free
/// key, removing the key gives that value, a lookup then gives nothing, and a
/// second removal gives nothing and changes nothing.
pub proof fn lemma_removed_once<V>(m: Map<Seq<char>, V>, key: Seq<char>, val: V)
    requires
        !m.contains_key(key),
    ensures
        fetched(stored(m, key, val), key) == Some(val),
        fetched(stored(m, key, val).remove(key), key).is_none(),
        stored(m, key, val).remove(key).remove(key) == stored(m, key, val).remove(key),
        stored(m, key, val).remove(key) == m,
{
    assert(stored(m, key, val).remove(key).remove(key) =~= stored(m, key, val).remove(key));
    assert(stored(m, key, val).remove(key) =~= m);
}

/// Whatever a mapping holds, removing a key leaves nothing under it.
pub proof fn lemma_removed_is_absent<V>(m: Map<Seq<char>, V>, key: Seq<char>)
    ensures
        fetched(m.remove(key), key).is_none(),
{
}

} // verus!
