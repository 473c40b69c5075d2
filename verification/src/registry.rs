//! The key registry: the identifiers admitted to the cache, each once, in
//! the order of their first admission.

use vstd::prelude::*;

verus! {

/// How often `key` occurs in `keys`.
pub open spec fn occurrences(keys: Seq<Seq<char>>, key: Seq<char>) -> nat
    decreases keys.len(),
{
    if keys.len() == 0 {
        0
    } else {
        occurrences(keys.drop_last(), key) + if keys.last() == key {
            1nat
        } else {
            0nat
        }
    }
}

/// The records after `key` was admitted: the key is appended unless it is
/// recorded already.
pub open spec fn recorded(keys: Seq<Seq<char>>, key: Seq<char>) -> Seq<Seq<char>> {
    if keys.contains(key) {
        keys
    } else {
        keys.push(key)
    }
}

/// A key occurs in a sequence as often as it is found there: not at all
/// where the sequence does not contain it, and once where the sequence
/// contains it and repeats nothing.
pub proof fn occurrences_of_distinct(keys: Seq<Seq<char>>, key: Seq<char>)
    ensures
        !keys.contains(key) ==> occurrences(keys, key) == 0,
        keys.contains(key) ==> occurrences(keys, key) >= 1,
        keys.contains(key) && keys.no_duplicates() ==> occurrences(keys, key) == 1,
    decreases keys.len(),
{
    if keys.len() > 0 {
        let front = keys.drop_last();
        let last = keys.len() - 1;
        occurrences_of_distinct(front, key);
        if front.contains(key) {
            let i = choose|i: int| 0 <= i < front.len() && front[i] == key;
            assert(keys[i] == key);
            if keys.no_duplicates() {
                assert(keys[last] != keys[i]);
            }
        }
        if keys.last() == key {
            assert(keys[last] == key);
        }
        if keys.contains(key) && keys.last() != key {
            let i = choose|i: int| 0 <= i < keys.len() && keys[i] == key;
            assert(front[i] == key);
        }
        if keys.no_duplicates() {
            assert forall|i: int, j: int|
                0 <= i < front.len() && 0 <= j < front.len() && i != j implies front[i]
                != front[j] by {
                assert(front[i] == keys[i] && front[j] == keys[j]);
            }
        }
    }
}

/// Recording keeps what was recorded, in its order, holds the key
/// afterwards, and repeats nothing where nothing was repeated before.
pub proof fn recorded_once(keys: Seq<Seq<char>>, key: Seq<char>)
    ensures
        recorded(keys, key).contains(key),
        forall|other: Seq<char>| keys.contains(other) ==> recorded(keys, key).contains(other),
        forall|other: Seq<char>|
            recorded(keys, key).contains(other) ==> other == key || keys.contains(other),
        keys.no_duplicates() ==> recorded(keys, key).no_duplicates(),
        recorded(recorded(keys, key), key) == recorded(keys, key),
{
    let after = recorded(keys, key);
    if !keys.contains(key) {
        assert(after[keys.len() as int] == key);
        assert forall|other: Seq<char>| keys.contains(other) implies after.contains(other) by {
            let i = choose|i: int| 0 <= i < keys.len() && keys[i] == other;
            assert(after[i] == other);
        }
        assert forall|other: Seq<char>| after.contains(other) implies other == key
            || keys.contains(other) by {
            let i = choose|i: int| 0 <= i < after.len() && after[i] == other;
            if i < keys.len() {
                assert(keys[i] == other);
            }
        }
        if keys.no_duplicates() {
            assert forall|i: int, j: int|
                0 <= i < after.len() && 0 <= j < after.len() && i != j implies after[i]
                != after[j] by {
                if i < keys.len() {
                    assert(keys.contains(after[i]));
                }
                if j < keys.len() {
                    assert(keys.contains(after[j]));
                }
            }
        }
    }
}

/// The append-only record of the identifiers that were admitted to the
/// cache, in the order of their first admission. An identifier is recorded
/// once, stays after its entry was evicted, and is not recorded again when
/// it is admitted again: a registry that starts empty never holds an
/// identifier twice.
pub struct KeyRegistry {
    keys: Vec<String>,
}

impl View for KeyRegistry {
    type V = Seq<Seq<char>>;

    /// The recorded identifiers, oldest first.
    closed spec fn view(&self) -> Seq<Seq<char>> {
        Seq::new(self.keys@.len(), |i: int| self.keys@[i]@)
    }
}

impl KeyRegistry {
    /// A registry without a record.
    pub fn new() -> (registry: KeyRegistry)
        ensures
            registry@ == Seq::<Seq<char>>::empty(),
    {
        let registry = KeyRegistry { keys: Vec::new() };
        assert(registry@ =~= Seq::<Seq<char>>::empty());
        registry
    }

    /// Whether `key` is recorded.
    pub fn contains(&self, key: &String) -> (found: bool)
        ensures
            found == self@.contains(key@),
    {
        let mut i: usize = 0;
        while i < self.keys.len()
            invariant
                i <= self.keys@.len(),
                forall|j: int| 0 <= j < i ==> self@[j] != key@,
            decreases self.keys@.len() - i,
        {
            if self.keys[i] == *key {
                assert(self@[i as int] == key@);
                return true;
            }
            i += 1;
        }
        false
    }

    /// Records `key` as admitted, unless it is recorded already. The caller
    /// has found the key absent from the cache and has put it there.
    pub fn record_if_new(&mut self, key: String)
        ensures
            final(self)@ == recorded(old(self)@, key@),
    {
        if !self.contains(&key) {
            self.keys.push(key);
            assert(self@ =~= old(self)@.push(key@));
        }
    }

    /// The number of records.
    pub fn len(&self) -> (n: usize)
        ensures
            n == self@.len(),
    {
        self.keys.len()
    }

    /// The recorded identifiers, oldest first.
    pub fn keys(&self) -> (keys: Vec<String>)
        ensures
            keys@.len() == self@.len(),
            forall|i: int| 0 <= i < keys@.len() ==> (#[trigger] keys@[i])@ == self@[i],
    {
        let mut out: Vec<String> = Vec::new();
        let mut i: usize = 0;
        while i < self.keys.len()
            invariant
                i <= self.keys@.len(),
                out@.len() == i,
                forall|j: int| 0 <= j < i ==> (#[trigger] out@[j])@ == self.keys@[j]@,
            decreases self.keys@.len() - i,
        {
            out.push(self.keys[i].clone());
            i += 1;
        }
        out
    }
}

} // verus!
