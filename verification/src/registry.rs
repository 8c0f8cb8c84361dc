//! The registry: one shelf for each value type, found by the type itself.
//!
//! Which shelf a type leads to is the work of an `anymap::AnyMap`. Verus is
//! told of it what can be said without naming a type: under which keys the
//! shelves hold a value, and how often. The methods of [`Stuff`] say what they
//! do to these keys. What is done with a shelf once it was sought is
//! [`lookup`], [`deposit`] and [`withdraw`], each with an exact contract over
//! the shelf that it is handed, values included.

use crate::shelf::{fetched, stored, Shelf};
use vstd::multiset::Multiset;
use vstd::prelude::*;

verus! {

/// The shelves of a registry, at most one for each value type, held in an
/// `anymap::AnyMap`. Verus sees nothing inside it.
#[verifier::external_body]
pub struct Shelves {
    by_type: anymap::AnyMap,
}

/// The keys under which the shelves of a collection hold a value, each as
/// often as there are shelves that hold one under it.
pub uninterp spec fn held_keys(shelves: Shelves) -> Multiset<Seq<char>>;

/// How often `key` is a key of `m`: once or not at all.
pub open spec fn times<V>(m: Map<Seq<char>, V>, key: Seq<char>) -> nat {
    if m.contains_key(key) {
        1
    } else {
        0
    }
}

/// How often `key` is a key of the shelf in `slot`; not at all where there
/// is no shelf.
pub open spec fn times_in<V>(slot: Option<Shelf<V>>, key: Seq<char>) -> nat {
    match slot {
        Some(shelf) => times(shelf@, key),
        None => 0,
    }
}

/// Calls `anymap::Map::new`, which makes a collection without entries: it
/// holds no shelf, so no key.
#[verifier::external_body]
fn no_shelves() -> (shelves: Shelves)
    ensures
        held_keys(shelves) == Multiset::<Seq<char>>::empty(),
{
    Shelves { by_type: anymap::AnyMap::new() }
}

/// Calls `anymap::Map::get` for the type `Shelf<V>`. A shelf that it finds is
/// one of the collection's, so each of its keys is held. Nothing is claimed
/// of whether it finds one.
#[verifier::external_body]
fn shelf_ref<V: 'static>(shelves: &Shelves) -> (slot: Option<&Shelf<V>>)
    ensures
        slot matches Some(shelf) ==> forall|k: Seq<char>|
            (#[trigger] shelf@.contains_key(k)) ==> held_keys(*shelves).count(k) >= 1,
{
    shelves.by_type.get::<Shelf<V>>()
}

/// Calls `anymap::Map::get_mut` for the type `Shelf<V>`. A shelf that it
/// finds is one of the collection's, so each of its keys is held; the
/// collection changes as that shelf does and not otherwise, so a key is held
/// once more or once less as the shelf gains or loses it. Nothing is claimed
/// of whether it finds one.
#[verifier::external_body]
fn shelf_mut<V: 'static>(shelves: &mut Shelves) -> (slot: Option<&mut Shelf<V>>)
    ensures
        match slot {
            Some(shelf) => {
                &&& forall|k: Seq<char>|
                    (#[trigger] (*shelf)@.contains_key(k)) ==> held_keys(*old(shelves)).count(k)
                        >= 1
                &&& forall|k: Seq<char>|
                    (#[trigger] held_keys(*final(shelves)).count(k)) + times((*shelf)@, k)
                        == held_keys(*old(shelves)).count(k) + times(final(shelf)@, k)
            },
            None => held_keys(*final(shelves)) == held_keys(*old(shelves)),
        },
{
    shelves.by_type.get_mut::<Shelf<V>>()
}

/// Calls `anymap::Map::insert` with a shelf, which puts the shelf into the
/// collection and hands back the shelf of the same type that it held before,
/// if it held one: the keys of the new shelf are held once more, those of a
/// shelf that came back once less. Nothing is claimed of whether one comes
/// back.
#[verifier::external_body]
fn install<V: 'static>(shelves: &mut Shelves, shelf: Shelf<V>) -> (before: Option<Shelf<V>>)
    ensures
        forall|k: Seq<char>| (#[trigger] times_in(before, k)) <= held_keys(*old(shelves)).count(k),
        forall|k: Seq<char>|
            (#[trigger] held_keys(*final(shelves)).count(k)) + times_in(before, k) == held_keys(
                *old(shelves),
            ).count(k) + times(shelf@, k),
{
    shelves.by_type.insert(shelf)
}

/// What became of a value that was offered under a key.
pub enum Deposit<V> {
    /// The key was free on the shelf of the value's type: the shelf holds
    /// the value now.
    Stored,
    /// The key was occupied: the shelf is as it was, and the value is here.
    Rejected(V),
    /// There was no shelf for the value's type. This one holds the value
    /// and nothing else, and is to be put up.
    Fresh(Shelf<V>),
}

/// Store anything with a string key.
pub struct Stuff {
    stuff: Shelves,
}

/// What a lookup of `key` gives once the shelf of the value type was sought:
/// the value that the shelf holds under the key, nothing where there is no
/// shelf.
pub fn lookup<'a, V>(slot: Option<&'a Shelf<V>>, key: &str) -> (found: Option<&'a V>)
    ensures
        match slot {
            Some(shelf) => match found {
                Some(v) => fetched(shelf@, key@) == Some(*v),
                None => fetched(shelf@, key@).is_none(),
            },
            None => found.is_none(),
        },
{
    match slot {
        Some(shelf) => shelf.get(key),
        None => None,
    }
}

/// What an offer of `val` under `key` does once the shelf of the value type
/// was sought. A shelf that is there takes the value unless the key is
/// occupied; where there is none, a new shelf with this one entry is made.
pub fn deposit<V>(slot: Option<&mut Shelf<V>>, key: String, val: V) -> (outcome: Deposit<V>)
    ensures
        match slot {
            Some(shelf) => {
                &&& final(shelf)@ == stored((*shelf)@, key@, val)
                &&& outcome == if (*shelf)@.contains_key(key@) {
                    Deposit::Rejected(val)
                } else {
                    Deposit::Stored
                }
            },
            None => match outcome {
                Deposit::Fresh(shelf) => shelf@ == Map::<Seq<char>, V>::empty().insert(key@, val),
                _ => false,
            },
        },
{
    match slot {
        Some(shelf) => match shelf.insert(key, val) {
            Some(back) => Deposit::Rejected(back),
            None => Deposit::Stored,
        },
        None => {
            let mut shelf = Shelf::new();
            let _ = shelf.insert(key, val);
            Deposit::Fresh(shelf)
        },
    }
}

/// What a removal of `key` does once the shelf of the value type was sought:
/// the shelf gives up the value that it holds under the key, and nothing
/// comes back where there is no shelf or no such key.
pub fn withdraw<V>(slot: Option<&mut Shelf<V>>, key: &str) -> (taken: Option<V>)
    ensures
        match slot {
            Some(shelf) => {
                &&& taken == fetched((*shelf)@, key@)
                &&& final(shelf)@ == (*shelf)@.remove(key@)
            },
            None => taken.is_none(),
        },
{
    match slot {
        Some(shelf) => shelf.remove(key),
        None => None,
    }
}

impl Stuff {
    /// The keys under which the registry holds a value, each as often as
    /// there are value types with a value under it.
    pub closed spec fn keys(&self) -> Multiset<Seq<char>> {
        held_keys(self.stuff)
    }

    /// A registry that holds nothing: no key under any type.
    pub fn new() -> (stuff: Stuff)
        ensures
            stuff.keys() == Multiset::<Seq<char>>::empty(),
    {
        Stuff { stuff: no_shelves() }
    }

    /// The value of type `V` stored under `key`, if there is one: what
    /// [`lookup`] reads from the shelf of `V`, or nothing where no value of
    /// type `V` was ever stored. A key that the registry holds under no type
    /// gives nothing.
    pub fn get<V: 'static>(&self, key: &str) -> (found: Option<&V>)
        ensures
            found.is_some() ==> self.keys().count(key@) >= 1,
    {
        lookup(shelf_ref::<V>(&self.stuff), key)
    }

    /// Offers `val` under `key` among the values of type `V`, as [`deposit`]
    /// does on the shelf of `V`; the first value of a type puts its shelf up.
    /// The first value stored under a key stays: a value that finds its key
    /// occupied comes back, for the caller to report or drop, and the
    /// registry is as it was. A value that does not come back is stored: its
    /// key is held then, and no other key was added. A key that the registry
    /// holds under no type is never occupied.
    pub fn offer<V: 'static>(&mut self, key: String, val: V) -> (rejected: Option<V>)
        ensures
            match rejected {
                Some(back) => {
                    &&& back == val
                    &&& old(self).keys().count(key@) >= 1
                    &&& final(self).keys() == old(self).keys()
                },
                None => {
                    &&& final(self).keys().count(key@) >= 1
                    &&& final(self).keys().subset_of(old(self).keys().insert(key@))
                },
            },
    {
        let slot = shelf_mut::<V>(&mut self.stuff);
        match deposit(slot, key, val) {
            Deposit::Stored => {
                assert(self.keys() =~= old(self).keys().insert(key@));
                None
            },
            Deposit::Rejected(back) => {
                assert(self.keys() =~= old(self).keys());
                Some(back)
            },
            Deposit::Fresh(shelf) => {
                assert(self.keys() == old(self).keys());
                let _ = install(&mut self.stuff, shelf);
                None
            },
        }
    }

    /// Stores `val` under `key` among the values of type `V`, unless a value
    /// of that type is stored there already: then nothing changes and `val`
    /// is dropped. Either way the key is held afterwards, and no other key
    /// was added.
    pub fn insert<V: 'static + core::fmt::Debug>(&mut self, key: String, val: V)
        ensures
            final(self).keys().count(key@) >= 1,
            final(self).keys().subset_of(old(self).keys().insert(key@)),
    {
        let _ = self.offer(key, val);
    }

    /// Takes the value of type `V` stored under `key` out of the registry,
    /// if there is one, as [`withdraw`] does on the shelf of `V`. The shelf
    /// stays, empty or not. With a value the key leaves once; where nothing
    /// is taken, the registry holds the keys that it held.
    pub fn remove<V: 'static>(&mut self, key: &str) -> (taken: Option<V>)
        ensures
            taken.is_some() ==> old(self).keys().count(key@) >= 1,
            final(self).keys() == if taken.is_some() {
                old(self).keys().remove(key@)
            } else {
                old(self).keys()
            },
    {
        let slot = shelf_mut::<V>(&mut self.stuff);
        let taken = withdraw(slot, key);
        assert(self.keys() =~= if taken.is_some() {
            old(self).keys().remove(key@)
        } else {
            old(self).keys()
        });
        taken
    }
}

} // verus!
