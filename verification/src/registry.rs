//! A registry maps keys to handlers. Registering under a key that is taken
//! replaces the handler that stood there, so no key occurs twice. Entries
//! keep the order in which their keys were first registered.
use vstd::prelude::*;

verus! {

/// A value that can key a [`Registry`]. Two keys are the same key when their
/// views are equal.
pub trait Key: View + Sized {
    fn same(&self, other: &Self) -> (b: bool)
        ensures
            b == (self@ == other@),
    ;
}

/// A name.
impl Key for String {
    fn same(&self, other: &Self) -> (b: bool) {
        *self == *other
    }
}

/// An event and a pattern.
impl Key for (String, String) {
    fn same(&self, other: &Self) -> (b: bool) {
        self.0 == other.0 && self.1 == other.1
    }
}

/// No value occurs twice in `keys`.
pub open spec fn distinct<A>(keys: Seq<A>) -> bool {
    forall|i: int, j: int| 0 <= i < j < keys.len() ==> keys[i] != keys[j]
}

/// `key` occurs in `keys` at position `i` and nowhere before it.
pub open spec fn first_at<A>(keys: Seq<A>, key: A, i: int) -> bool {
    &&& 0 <= i < keys.len()
    &&& keys[i] == key
    &&& forall|j: int| 0 <= j < i ==> keys[j] != key
}

/// The first position of `key` in `keys`, or `None` where it does not occur.
pub open spec fn position_of<A>(keys: Seq<A>, key: A) -> Option<int> {
    if exists|i: int| first_at(keys, key, i) {
        Some(choose|i: int| first_at(keys, key, i))
    } else {
        None
    }
}

/// The first position of a key is its position.
pub proof fn lemma_position_found<A>(keys: Seq<A>, key: A, i: int)
    requires
        first_at(keys, key, i),
    ensures
        position_of(keys, key) == Some(i),
{
    let k = choose|k: int| first_at(keys, key, k);
    if k < i {
        assert(keys[k] != key);
    } else if i < k {
        assert(keys[i] != key);
    }
}

/// A key that occurs nowhere has no position.
pub proof fn lemma_position_none<A>(keys: Seq<A>, key: A)
    requires
        forall|j: int| 0 <= j < keys.len() ==> keys[j] != key,
    ensures
        position_of(keys, key) is None,
{
    if exists|i: int| first_at(keys, key, i) {
        let i = choose|i: int| first_at(keys, key, i);
        assert(keys[i] == key);
    }
}

struct Entry<K, H> {
    key: K,
    handler: H,
}

/// Keys in the order of their registration, and the handler of each.
pub struct Registry<K: Key, H> {
    entries: Vec<Entry<K, H>>,
}

impl<K: Key, H> View for Registry<K, H> {
    type V = Seq<(K::V, H)>;

    /// The entries in the order of registration, each a key and its handler.
    closed spec fn view(&self) -> Seq<(K::V, H)> {
        Seq::new(self.entries@.len(), |i: int| (self.entries@[i].key@, self.entries@[i].handler))
    }
}

impl<K: Key, H> Registry<K, H> {
    /// The registered keys, in the order of their first registration.
    pub open spec fn keys(&self) -> Seq<K::V> {
        self@.map_values(|entry: (K::V, H)| entry.0)
    }

    /// The handlers, each at the position of its key.
    pub open spec fn handlers(&self) -> Seq<H> {
        self@.map_values(|entry: (K::V, H)| entry.1)
    }

    /// No key occurs twice. This holds of a new registry, and every function
    /// of a registry keeps it.
    pub open spec fn wf(&self) -> bool {
        distinct(self.keys())
    }

    /// Whether a handler is registered under `key`.
    pub open spec fn contains(&self, key: K::V) -> bool {
        position_of(self.keys(), key) is Some
    }

    /// The handler registered under `key`.
    pub open spec fn handler_of(&self, key: K::V) -> Option<H> {
        match position_of(self.keys(), key) {
            Some(i) => Some(self.handlers()[i]),
            None => None,
        }
    }

    /// The entries after `handler` was registered under `key`: it stands in
    /// the place of the handler that `key` had, or else, with its key, behind
    /// all others.
    pub open spec fn with(&self, key: K::V, handler: H) -> Seq<(K::V, H)> {
        match position_of(self.keys(), key) {
            Some(i) => self@.update(i, (key, handler)),
            None => self@.push((key, handler)),
        }
    }

    /// The keys after a registration under `key`: `key` comes last where it is
    /// new, and nothing changes where it is not.
    pub open spec fn keys_with(&self, key: K::V) -> Seq<K::V> {
        if self.contains(key) {
            self.keys()
        } else {
            self.keys().push(key)
        }
    }

    /// This registry is `before` after `handler` was registered under `key`.
    pub open spec fn is_with(&self, before: Self, key: K::V, handler: H) -> bool {
        self@ == before.with(key, handler)
    }

    /// This registry has the keys of `before`, and its handlers but for the
    /// one at position `i`.
    pub open spec fn differs_at_most_at(&self, before: Self, i: int) -> bool {
        &&& self.keys() == before.keys()
        &&& forall|j: int|
            0 <= j < self.handlers().len() && j != i ==> self.handlers()[j] == before.handlers()[j]
    }

    /// A registry without entries.
    pub fn new() -> (r: Self)
        ensures
            r@ == Seq::<(K::V, H)>::empty(),
            r.wf(),
    {
        Registry { entries: Vec::new() }
    }

    /// The number of registered keys.
    pub fn len(&self) -> (n: usize)
        ensures
            n == self@.len(),
    {
        self.entries.len()
    }

    /// The position at which `key` is registered.
    pub fn position(&self, key: &K) -> (r: Option<usize>)
        ensures
            match r {
                Some(i) => position_of(self.keys(), key@) == Some(i as int),
                None => position_of(self.keys(), key@) is None,
            },
    {
        let mut i: usize = 0;
        while i < self.entries.len()
            invariant
                i <= self.entries@.len(),
                forall|j: int| 0 <= j < i ==> self.keys()[j] != key@,
            decreases self.entries@.len() - i,
        {
            if self.entries[i].key.same(key) {
                proof {
                    lemma_position_found(self.keys(), key@, i as int);
                }
                return Some(i);
            }
            i += 1;
        }
        proof {
            lemma_position_none(self.keys(), key@);
        }
        None
    }

    /// Whether a handler is registered under `key`.
    pub fn contains_key(&self, key: &K) -> (b: bool)
        ensures
            b == self.contains(key@),
    {
        self.position(key).is_some()
    }

    /// Registers `handler` under `key`. A handler already registered under
    /// that key is dropped and `handler` takes its place.
    pub fn insert(&mut self, key: K, handler: H)
        ensures
            final(self).is_with(*old(self), key@, handler),
            old(self).wf() ==> final(self).wf(),
    {
        match self.position(&key) {
            Some(i) => {
                self.entries.set(i, Entry { key, handler });
                assert(self@ =~= old(self).with(key@, handler));
                assert(self.keys() =~= old(self).keys());
            },
            None => {
                self.entries.push(Entry { key, handler });
                assert(self@ =~= old(self).with(key@, handler));
                proof {
                    lemma_push_keeps_distinct(*old(self), *self, key@, handler);
                }
            },
        }
    }

    /// The key at position `i`.
    pub fn key_at(&self, i: usize) -> (k: &K)
        requires
            i < self@.len(),
        ensures
            k@ == self.keys()[i as int],
    {
        &self.entries[i].key
    }

    /// The handler at position `i`.
    pub fn handler_at(&self, i: usize) -> (h: &H)
        requires
            i < self@.len(),
        ensures
            *h == self.handlers()[i as int],
    {
        &self.entries[i].handler
    }

    /// The handler registered under `key`.
    pub fn get(&self, key: &K) -> (r: Option<&H>)
        ensures
            match r {
                Some(h) => self.handler_of(key@) == Some(*h),
                None => self.handler_of(key@) is None,
            },
    {
        match self.position(key) {
            Some(i) => Some(&self.entries[i].handler),
            None => None,
        }
    }

    /// The handler registered under `key`, to be changed in place. The keys
    /// stay as they are, and so does every other handler.
    pub fn get_mut(&mut self, key: &K) -> (r: Option<&mut H>)
        ensures
            match r {
                Some(h) => {
                    &&& position_of(old(self).keys(), key@) matches Some(i)
                    &&& *h == old(self).handlers()[i]
                    &&& final(self)@ == old(self)@.update(i, (key@, *final(h)))
                    &&& final(self).keys() == old(self).keys()
                    &&& final(self).handlers() == old(self).handlers().update(i, *final(h))
                },
                None => {
                    &&& position_of(old(self).keys(), key@) is None
                    &&& *final(self) == *old(self)
                },
            },
    {
        match self.position(key) {
            Some(i) => Some(&mut self.entries[i].handler),
            None => None,
        }
    }
}

/// A new key behind distinct keys leaves them distinct.
proof fn lemma_push_keeps_distinct<K: Key, H>(
    before: Registry<K, H>,
    after: Registry<K, H>,
    key: K::V,
    handler: H,
)
    requires
        position_of(before.keys(), key) is None,
        after@ == before@.push((key, handler)),
    ensures
        before.wf() ==> after.wf(),
{
    assert(after.keys() =~= before.keys().push(key));
    if before.wf() {
        assert forall|i: int, j: int| 0 <= i < j < after.keys().len() implies after.keys()[i]
            != after.keys()[j] by {
            if j == before.keys().len() && before.keys()[i] == key {
                lemma_position_exists(before.keys(), key, i);
            }
        }
    }
}

/// A key that occurs somewhere has a position.
pub proof fn lemma_position_exists<A>(keys: Seq<A>, key: A, i: int)
    requires
        0 <= i < keys.len(),
        keys[i] == key,
    ensures
        position_of(keys, key) matches Some(first) && first <= i && keys[first] == key,
    decreases i,
{
    if exists|j: int| 0 <= j < i && keys[j] == key {
        let j = choose|j: int| 0 <= j < i && keys[j] == key;
        lemma_position_exists(keys, key, j);
    } else {
        lemma_position_found(keys, key, i);
    }
}

/// A registration puts the handler under its key and leaves every other key
/// with the handler it had. A key that was taken keeps its place, so the
/// registry does not grow; a new key goes behind all others. No key occurs
/// twice afterwards if none did before.
pub proof fn lemma_registration<K: Key, H>(
    before: Registry<K, H>,
    after: Registry<K, H>,
    key: K::V,
    handler: H,
)
    requires
        after.is_with(before, key, handler),
    ensures
        after.handler_of(key) == Some(handler),
        forall|other: K::V| other != key ==> after.handler_of(other) == before.handler_of(other),
        after.keys() == before.keys_with(key),
        before.wf() ==> after.wf(),
{
    match position_of(before.keys(), key) {
        Some(i) => {
            assert(after.keys() =~= before.keys());
            lemma_position_found(after.keys(), key, i);
        },
        None => {
            let n = before.keys().len() as int;
            assert(after.keys() =~= before.keys().push(key));
            assert forall|j: int| 0 <= j < n implies after.keys()[j] != key by {
                if before.keys()[j] == key {
                    lemma_position_exists(before.keys(), key, j);
                }
            }
            lemma_position_found(after.keys(), key, n);
            lemma_push_keeps_distinct(before, after, key, handler);
        },
    }
    assert forall|other: K::V| other != key implies after.handler_of(other) == before.handler_of(
        other,
    ) by {
        match position_of(before.keys(), other) {
            Some(j) => {
                lemma_position_found(after.keys(), other, j);
            },
            None => {
                if position_of(after.keys(), other) is Some {
                    let j = position_of(after.keys(), other)->0;
                    if j < before.keys().len() {
                        lemma_position_exists(before.keys(), other, j);
                    }
                }
            },
        }
    }
}

/// The last registration under a key wins: two registrations under one key
/// leave what the second one alone would have left.
pub proof fn lemma_last_write_wins<K: Key, H>(
    start: Registry<K, H>,
    once: Registry<K, H>,
    twice: Registry<K, H>,
    key: K::V,
    first: H,
    second: H,
)
    requires
        once.is_with(start, key, first),
        twice.is_with(once, key, second),
    ensures
        twice.handler_of(key) == Some(second),
        twice.keys() == once.keys(),
        twice.is_with(start, key, second),
{
    lemma_registration(start, once, key, first);
    lemma_registration(once, twice, key, second);
    match position_of(start.keys(), key) {
        Some(i) => {
            lemma_position_found(once.keys(), key, i);
            assert(twice@ =~= start@.update(i, (key, second)));
        },
        None => {
            let n = start.keys().len() as int;
            assert forall|j: int| 0 <= j < n implies once.keys()[j] != key by {
                if start.keys()[j] == key {
                    lemma_position_exists(start.keys(), key, j);
                }
            }
            lemma_position_found(once.keys(), key, n);
            assert(twice@ =~= start@.push((key, second)));
        },
    }
}

} // verus!
