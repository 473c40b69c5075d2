//! The bounded cache: a `moka` cache of order documents keyed by identifier.

use moka::policy::EvictionPolicy;
use moka::sync::Cache;
use std::collections::hash_map::RandomState;
use vstd::prelude::*;

use crate::data::Order;

verus! {

/// `moka::sync::Cache`, held as an opaque value. This crate builds its caches
/// in `cache_build` alone, without expiry or invalidation, and never clones
/// one, so that a cache changes only through the exclusive reference that
/// the functions below take.
#[verifier::external_type_specification]
#[verifier::external_body]
#[verifier::reject_recursive_types(K)]
#[verifier::reject_recursive_types(V)]
#[verifier::reject_recursive_types(S)]
pub struct ExCache<K, V, S>(Cache<K, V, S>);

/// The entries that a cache holds in its table: identifier to the stamped
/// identifier and payload of the document stored under it.
pub uninterp spec fn cache_entries(c: Cache<String, (String, String), RandomState>) -> Map<
    Seq<char>,
    (Seq<char>, Seq<char>),
>;

/// The maximum capacity that a cache was built with.
pub uninterp spec fn cache_limit(c: Cache<String, (String, String), RandomState>) -> nat;

/// The keys of the table in the order in which the maintenance would take
/// its victims, first victim first, were it to run now: the order of the
/// access queue once the logged reads and then the logged writes have been
/// applied to it.
pub uninterp spec fn cache_order(c: Cache<String, (String, String), RandomState>) -> Seq<
    Seq<char>,
>;

/// Whether the maintenance has applied every write, so that none is logged.
pub uninterp spec fn cache_applied(c: Cache<String, (String, String), RandomState>) -> bool;

/// Calls `moka::sync::Cache::builder`, then `max_capacity`, `eviction_policy`
/// with `EvictionPolicy::lru` and `build`. Claims that the cache starts with
/// no entry, an empty queue and no logged write, and with the given maximum
/// capacity.
#[verifier::external_body]
fn cache_build(max_capacity: u64) -> (c: Cache<String, (String, String), RandomState>)
    ensures
        forall|k: Seq<char>| !cache_entries(c).contains_key(k),
        cache_order(c).len() == 0,
        cache_applied(c),
        cache_limit(c) == max_capacity,
{
    Cache::builder().max_capacity(max_capacity).eviction_policy(EvictionPolicy::lru()).build()
}

/// Calls `moka::sync::Cache::get`. Claims that it returns a copy of the entry
/// that the table held under the key when it was called; that the
/// maintenance it may run afterwards only removes entries, and none from a
/// table that held no more than the capacity; that it logs no write; and
/// that, where no write was logged, a hit moves its key to the back of the
/// queue and a miss leaves the queue as it was. The capacity stays.
#[verifier::external_body]
fn cache_get(c: &mut Cache<String, (String, String), RandomState>, key: &String) -> (r: Option<
    Order,
>)
    ensures
        r.is_some() == cache_entries(*old(c)).contains_key(key@),
        r matches Some(o) ==> o@ == cache_entries(*old(c))[key@],
        cache_entries(*final(c)).submap_of(cache_entries(*old(c))),
        within(cache_entries(*old(c)), cache_limit(*old(c))) ==> cache_entries(*final(c))
            == cache_entries(*old(c)),
        within(cache_entries(*old(c)), cache_limit(*old(c))) && cache_applied(*old(c))
            ==> cache_applied(*final(c)) && cache_order(*final(c)) == order_after_get(
            cache_entries(*old(c)),
            cache_order(*old(c)),
            key@,
        ),
        cache_limit(*final(c)) == cache_limit(*old(c)),
{
    c.get(key).map(|e| Order { order_uid: e.0, payload: e.1 })
}

/// Calls `moka::sync::Cache::insert`. Claims that a cache of capacity zero
/// stays as it was; that any other cache holds the given entry under the key
/// afterwards; that under every other key it holds nothing that it did not
/// hold before, and all that it held where the table held no more than the
/// capacity; that the logged write puts the key at the back of the queue;
/// and that the capacity stays. The maintenance that an insert may run comes
/// before its own write is logged.
#[verifier::external_body]
fn cache_insert(c: &mut Cache<String, (String, String), RandomState>, key: String, value: Order)
    ensures
        cache_limit(*old(c)) == 0 ==> cache_entries(*final(c)) == cache_entries(*old(c))
            && cache_order(*final(c)) == cache_order(*old(c)) && cache_applied(*final(c))
            == cache_applied(*old(c)),
        cache_limit(*old(c)) > 0 ==> cache_entries(*final(c)).contains_pair(key@, value@),
        cache_entries(*final(c)).remove(key@).submap_of(cache_entries(*old(c))),
        cache_limit(*old(c)) > 0 && within(cache_entries(*old(c)), cache_limit(*old(c)))
            ==> cache_entries(*final(c)) == cache_entries(*old(c)).insert(key@, value@)
            && cache_order(*final(c)) == touched(cache_order(*old(c)), key@),
        cache_limit(*final(c)) == cache_limit(*old(c)),
{
    c.insert(key, (value.order_uid, value.payload))
}

/// Calls `moka::sync::Cache::run_pending_tasks`. Claims that the maintenance
/// applies every logged write; that it then evicts from the front of the
/// queue as many entries as the queue holds over the capacity, and no
/// others; and that the capacity stays. So it only removes entries, leaves
/// no more of them in the table than the capacity allows, and removes none
/// from a table that held no more than that. It finishes in one call on a
/// cache without an eviction listener.
#[verifier::external_body]
fn cache_run_pending_tasks(c: &mut Cache<String, (String, String), RandomState>)
    ensures
        cache_entries(*final(c)).submap_of(cache_entries(*old(c))),
        cache_entries(*final(c)).dom().finite(),
        cache_entries(*final(c)).len() <= cache_limit(*old(c)),
        within(cache_entries(*old(c)), cache_limit(*old(c))) ==> cache_entries(*final(c))
            == cache_entries(*old(c)),
        cache_applied(*final(c)),
        cache_order(*final(c)) == kept(cache_order(*old(c)), cache_limit(*old(c))),
        cache_entries(*final(c)) == cache_entries(*old(c)).restrict(
            cache_order(*final(c)).to_set(),
        ),
        cache_limit(*final(c)) == cache_limit(*old(c)),
{
    c.run_pending_tasks()
}

/// Whether a table holds no more entries than `limit`.
pub open spec fn within(entries: Map<Seq<char>, (Seq<char>, Seq<char>)>, limit: nat) -> bool {
    entries.dom().finite() && entries.len() <= limit
}

/// Whether `order` queues the keys of `entries`, each once.
pub open spec fn aligned(
    entries: Map<Seq<char>, (Seq<char>, Seq<char>)>,
    order: Seq<Seq<char>>,
) -> bool {
    &&& order.no_duplicates()
    &&& forall|key: Seq<char>|
        #![trigger order.contains(key)]
        #![trigger entries.dom().contains(key)]
        order.contains(key) <==> entries.dom().contains(key)
}

/// The queue after `key` was used: the key stands at the back, where the
/// most recently used key stands, and the others keep their order.
pub open spec fn touched(order: Seq<Seq<char>>, key: Seq<char>) -> Seq<Seq<char>> {
    if order.contains(key) {
        order.remove(order.index_of(key)).push(key)
    } else {
        order.push(key)
    }
}

/// The queue after an eviction down to `limit` keys: the keys at the front,
/// which were used least recently, are gone.
pub open spec fn kept(order: Seq<Seq<char>>, limit: nat) -> Seq<Seq<char>> {
    if order.len() <= limit {
        order
    } else {
        order.skip(order.len() - limit)
    }
}

/// The queue after a lookup of `key`: a hit uses the key, a miss changes
/// nothing.
pub open spec fn order_after_get(
    entries: Map<Seq<char>, (Seq<char>, Seq<char>)>,
    order: Seq<Seq<char>>,
    key: Seq<char>,
) -> Seq<Seq<char>> {
    if entries.contains_key(key) {
        touched(order, key)
    } else {
        order
    }
}

/// The queue after a put under `key` into a cache of capacity `limit`. A
/// cache of capacity zero stores nothing. A key that the cache holds is
/// used; a new key joins at the back, and where the cache was full the key
/// at the front leaves.
pub open spec fn order_after_put(
    entries: Map<Seq<char>, (Seq<char>, Seq<char>)>,
    order: Seq<Seq<char>>,
    limit: nat,
    key: Seq<char>,
) -> Seq<Seq<char>> {
    if limit == 0 {
        order
    } else if entries.contains_key(key) {
        touched(order, key)
    } else if order.len() < limit {
        order.push(key)
    } else {
        order.skip(1).push(key)
    }
}

/// The entries after `document` was put under `key` into a cache of capacity
/// `limit`. A cache of capacity zero stores nothing. Otherwise the document
/// stands under the key, in place of what stood there; and where a new key
/// came into a full cache, the entry at the front of the queue, which was
/// used least recently, is gone.
pub open spec fn entries_after_put(
    entries: Map<Seq<char>, (Seq<char>, Seq<char>)>,
    order: Seq<Seq<char>>,
    limit: nat,
    key: Seq<char>,
    document: (Seq<char>, Seq<char>),
) -> Map<Seq<char>, (Seq<char>, Seq<char>)> {
    if limit == 0 {
        entries
    } else if entries.contains_key(key) || order.len() < limit {
        entries.insert(key, document)
    } else {
        entries.remove(order[0]).insert(key, document)
    }
}

/// A queue that is aligned with a table is as long as the table is large.
pub proof fn aligned_is_counted(
    entries: Map<Seq<char>, (Seq<char>, Seq<char>)>,
    order: Seq<Seq<char>>,
)
    requires
        aligned(entries, order),
    ensures
        entries.dom().finite(),
        entries.len() == order.len(),
{
    assert(order.to_set() =~= entries.dom());
    vstd::seq_lib::seq_to_set_is_finite(order);
    order.unique_seq_to_set();
}

/// Using a key puts it at the back of the queue, adds it where it was not
/// queued, and keeps the other keys, each once and in their order.
pub proof fn touched_is_ordered(order: Seq<Seq<char>>, key: Seq<char>)
    requires
        order.no_duplicates(),
    ensures
        touched(order, key).no_duplicates(),
        touched(order, key).len() > 0,
        touched(order, key).last() == key,
        touched(order, key).len() == if order.contains(key) {
            order.len()
        } else {
            order.len() + 1
        },
        forall|other: Seq<char>|
            #![trigger touched(order, key).contains(other)]
            #![trigger order.contains(other)]
            touched(order, key).contains(other) <==> other == key || order.contains(other),
        !order.contains(key) ==> touched(order, key) == order.push(key),
        order.len() > 0 && order.last() == key ==> touched(order, key) == order,
        order.len() > 0 && order[0] != key ==> touched(order, key)[0] == order[0],
{
    let after = touched(order, key);
    if order.contains(key) {
        let i = order.index_of(key);
        let rest = order.remove(i);
        assert(0 <= i < order.len() && order[i] == key);
        assert(rest.len() == order.len() - 1);
        assert forall|j: int| 0 <= j < rest.len() implies #[trigger] rest[j] == order[if j < i {
            j
        } else {
            j + 1
        }] by {}
        assert forall|j: int| 0 <= j < rest.len() implies #[trigger] rest[j] != key by {
            let source = if j < i {
                j
            } else {
                j + 1
            };
            assert(rest[j] == order[source]);
            assert(source != i);
        }
        assert forall|a: int, b: int|
            0 <= a < after.len() && 0 <= b < after.len() && a != b implies after[a]
            != after[b] by {
            let source_a = if a < i {
                a
            } else {
                a + 1
            };
            let source_b = if b < i {
                b
            } else {
                b + 1
            };
            if a < rest.len() && b < rest.len() {
                assert(rest[a] == order[source_a] && rest[b] == order[source_b]);
                assert(source_a != source_b);
            } else if a < rest.len() {
                assert(rest[a] != key);
            } else {
                assert(rest[b] != key);
            }
        }
        assert forall|other: Seq<char>| after.contains(other) implies other == key
            || order.contains(other) by {
            let j = choose|j: int| 0 <= j < after.len() && after[j] == other;
            if j < rest.len() {
                let source = if j < i {
                    j
                } else {
                    j + 1
                };
                assert(rest[j] == order[source]);
            }
        }
        assert forall|other: Seq<char>| other == key || order.contains(other) implies after.contains(
            other,
        ) by {
            if other == key {
                assert(after[after.len() - 1] == key);
            } else {
                let j = choose|j: int| 0 <= j < order.len() && order[j] == other;
                assert(j != i);
                let target = if j < i {
                    j
                } else {
                    j - 1
                };
                assert(rest[target] == order[j]);
                assert(after[target] == other);
            }
        }
        if order.last() == key {
            assert(order[order.len() - 1] == order[i]);
            assert(i == order.len() - 1);
            assert(after =~= order);
        }
        if order[0] != key {
            assert(i != 0);
            assert(rest[0] == order[0]);
        }
    } else {
        assert(after[after.len() - 1] == key);
        assert forall|a: int, b: int|
            0 <= a < after.len() && 0 <= b < after.len() && a != b implies after[a]
            != after[b] by {
            if a < order.len() {
                assert(order.contains(after[a]));
            }
            if b < order.len() {
                assert(order.contains(after[b]));
            }
        }
        assert forall|other: Seq<char>| after.contains(other) implies other == key
            || order.contains(other) by {
            let j = choose|j: int| 0 <= j < after.len() && after[j] == other;
            if j < order.len() {
                assert(order[j] == other);
            }
        }
        assert forall|other: Seq<char>| other == key || order.contains(other) implies after.contains(
            other,
        ) by {
            if other == key {
                assert(after[after.len() - 1] == key);
            } else {
                let j = choose|j: int| 0 <= j < order.len() && order[j] == other;
                assert(after[j] == other);
            }
        }
        if order.len() > 0 {
            assert(order.contains(order[order.len() - 1]));
            assert(after[0] == order[0]);
        }
    }
}

/// An eviction keeps the keys at the back of the queue, as many as the
/// capacity allows, each once and in their order, and takes the others.
pub proof fn kept_is_suffix(order: Seq<Seq<char>>, limit: nat)
    requires
        order.no_duplicates(),
    ensures
        kept(order, limit).no_duplicates(),
        kept(order, limit).len() == if order.len() <= limit {
            order.len()
        } else {
            limit
        },
        forall|key: Seq<char>| #[trigger]
            kept(order, limit).contains(key) ==> order.contains(key),
        forall|i: int|
            0 <= i < order.len() ==> (kept(order, limit).contains(#[trigger] order[i]) <==> i
                >= order.len() - limit),
{
    let after = kept(order, limit);
    let gone = order.len() - after.len();
    assert forall|j: int| 0 <= j < after.len() implies #[trigger] after[j] == order[j + gone] by {}
    assert forall|key: Seq<char>| after.contains(key) implies order.contains(key) by {
        let j = choose|j: int| 0 <= j < after.len() && after[j] == key;
        assert(order[j + gone] == key);
    }
    assert forall|i: int| 0 <= i < order.len() implies (after.contains(#[trigger] order[i]) <==> i
        >= order.len() - limit) by {
        if i >= gone {
            assert(after[i - gone] == order[i]);
        }
        if after.contains(order[i]) {
            let j = choose|j: int| 0 <= j < after.len() && after[j] == order[i];
            assert(order[j + gone] == order[i]);
            assert(j + gone == i);
        }
    }
}

/// A put into a cache whose queue is aligned with its table and within the
/// capacity leaves them so: writing the key, using it, and evicting from the
/// front of the queue down to the capacity gives the entries and the queue
/// that `entries_after_put` and `order_after_put` name.
pub proof fn put_is_exact(
    entries: Map<Seq<char>, (Seq<char>, Seq<char>)>,
    order: Seq<Seq<char>>,
    limit: nat,
    key: Seq<char>,
    document: (Seq<char>, Seq<char>),
)
    requires
        aligned(entries, order),
        order.len() <= limit,
    ensures
        aligned(
            entries_after_put(entries, order, limit, key, document),
            order_after_put(entries, order, limit, key),
        ),
        order_after_put(entries, order, limit, key).len() <= limit,
        order_after_put(entries, order, limit, key).len() == if limit == 0
            || entries.contains_key(key) {
            order.len()
        } else if order.len() < limit {
            order.len() + 1
        } else {
            limit
        },
        entries_after_put(entries, order, limit, key, document).remove(key).submap_of(entries),
        limit > 0 ==> kept(touched(order, key), limit) == order_after_put(
            entries,
            order,
            limit,
            key,
        ),
        limit > 0 ==> entries.insert(key, document).restrict(
            kept(touched(order, key), limit).to_set(),
        ) == entries_after_put(entries, order, limit, key, document),
        limit > 0 && !entries.contains_key(key) && order.len() == limit ==> entries.contains_key(
            order[0],
        ) && order[0] != key,
{
    if limit > 0 {
        let used = touched(order, key);
        let after = kept(used, limit);
        let stored = entries.insert(key, document);
        let left = stored.restrict(after.to_set());
        touched_is_ordered(order, key);
        kept_is_suffix(used, limit);
        assert(used.contains(key));
        assert(used[used.len() - 1] == key);
        assert(after.contains(used[used.len() - 1]));
        assert(after.contains(key));
        assert forall|other: Seq<char>| stored.dom().contains(other) implies used.contains(
            other,
        ) by {
            if other != key {
                assert(entries.dom().contains(other));
                assert(order.contains(other));
            }
        }
        assert forall|other: Seq<char>| used.contains(other) implies stored.dom().contains(
            other,
        ) by {
            if other != key {
                assert(order.contains(other));
                assert(entries.dom().contains(other));
            }
        }
        assert forall|other: Seq<char>|
            #![trigger after.contains(other)]
            #![trigger left.dom().contains(other)]
            after.contains(other) <==> left.dom().contains(other) by {
            if after.contains(other) {
                assert(used.contains(other));
                assert(after.to_set().contains(other));
            }
            if left.dom().contains(other) {
                assert(after.to_set().contains(other));
            }
        }
        assert(left.remove(key).submap_of(entries));
        if entries.contains_key(key) || order.len() < limit {
            if entries.contains_key(key) {
                assert(entries.dom().contains(key));
                assert(order.contains(key));
            } else {
                assert(!entries.dom().contains(key));
                assert(!order.contains(key));
            }
            assert(after == used);
            assert forall|other: Seq<char>| stored.dom().contains(other) implies after.to_set().contains(
                other,
            ) by {
                assert(used.contains(other));
            }
            assert(left =~= stored);
        } else {
            assert(!entries.dom().contains(key));
            assert(!order.contains(key));
            assert(used == order.push(key));
            assert(after =~= order.skip(1).push(key));
            assert(order.contains(order[0]));
            assert(entries.dom().contains(order[0]));
            let goal = entries.remove(order[0]).insert(key, document);
            assert forall|other: Seq<char>| left.dom().contains(other) implies goal.dom().contains(
                other,
            ) by {
                assert(after.to_set().contains(other));
                if other != key {
                    let j = choose|j: int| 0 <= j < after.len() && after[j] == other;
                    assert(j < order.len() - 1);
                    assert(order.skip(1)[j] == order[j + 1]);
                    assert(other == order[j + 1]);
                    assert(order.contains(other));
                }
            }
            assert forall|other: Seq<char>| goal.dom().contains(other) implies left.dom().contains(
                other,
            ) by {
                if other != key {
                    assert(entries.dom().contains(other));
                    assert(order.contains(other));
                    let i = choose|i: int| 0 <= i < order.len() && order[i] == other;
                    assert(i >= 1);
                    assert(after[i - 1] == order[i]);
                    assert(after.to_set().contains(other));
                }
            }
            assert(left =~= goal);
        }
    }
}

/// What a cache may hold after its own maintenance has run on `pre`: nothing
/// new and nothing changed, though entries may have been evicted.
pub open spec fn shrunk(
    pre: Map<Seq<char>, (Seq<char>, Seq<char>)>,
    post: Map<Seq<char>, (Seq<char>, Seq<char>)>,
) -> bool {
    post.submap_of(pre)
}

/// What a cache of capacity `limit` holds after the maintenance that it had
/// put off has run on `pre`: the entries of `pre`, unchanged, less those
/// that were evicted to bring their number down to the capacity. Where
/// `pre` was within the capacity, nothing was evicted.
pub open spec fn settled(
    pre: Map<Seq<char>, (Seq<char>, Seq<char>)>,
    limit: nat,
    post: Map<Seq<char>, (Seq<char>, Seq<char>)>,
) -> bool {
    &&& shrunk(pre, post)
    &&& within(post, limit)
    &&& within(pre, limit) ==> post == pre
}

/// A capacity-bounded mapping from order identifier to order document. A put
/// that brings the cache over its capacity evicts the entry that was used
/// least recently, where a use is a put or a lookup that found the entry.
pub struct BoundedCache {
    inner: Cache<String, (String, String), RandomState>,
}

impl View for BoundedCache {
    type V = Map<Seq<char>, (Seq<char>, Seq<char>)>;

    /// The entries that can be retrieved: identifier to document.
    closed spec fn view(&self) -> Map<Seq<char>, (Seq<char>, Seq<char>)> {
        cache_entries(self.inner)
    }
}

impl BoundedCache {
    /// The capacity fixed at construction.
    pub closed spec fn capacity(&self) -> nat {
        cache_limit(self.inner)
    }

    /// The keys of the entries in the order of their last use: the least
    /// recently used first, which is the next to be evicted.
    pub closed spec fn order(&self) -> Seq<Seq<char>> {
        cache_order(self.inner)
    }

    /// Whether the cache is at rest: its queue holds the keys of its entries,
    /// each once, they are no more than the capacity, and no write waits to
    /// be applied. A new cache is at rest, and every call leaves it so.
    pub closed spec fn wf(&self) -> bool {
        &&& aligned(self@, self.order())
        &&& self.order().len() <= self.capacity()
        &&& cache_applied(self.inner)
    }

    /// A cache at rest holds no more entries than its capacity, one for each
    /// key of its queue.
    pub proof fn wf_is_within(self)
        requires
            self.wf(),
        ensures
            aligned(self@, self.order()),
            self.order().len() <= self.capacity(),
            self@.len() == self.order().len(),
            within(self@, self.capacity()),
    {
        aligned_is_counted(self@, self.order());
    }

    /// An empty cache that is bounded to `max_capacity` entries.
    pub fn new(max_capacity: u64) -> (cache: BoundedCache)
        ensures
            cache@.dom() == Set::<Seq<char>>::empty(),
            cache@.len() == 0,
            cache.order() == Seq::<Seq<char>>::empty(),
            cache.capacity() == max_capacity,
            cache.wf(),
    {
        let cache = BoundedCache { inner: cache_build(max_capacity) };
        assert(cache@.dom() =~= Set::<Seq<char>>::empty());
        assert(cache.order() =~= Seq::<Seq<char>>::empty());
        cache
    }

    /// The document stored under `key`, if there is one. The lookup counts as
    /// a use of the entry, and changes no entry of a cache at rest.
    pub fn get(&mut self, key: &String) -> (found: Option<Order>)
        ensures
            found.is_some() == old(self)@.contains_key(key@),
            found matches Some(document) ==> document@ == old(self)@[key@],
            shrunk(old(self)@, final(self)@),
            final(self).capacity() == old(self).capacity(),
            old(self).wf() ==> final(self).wf() && final(self)@ == old(self)@,
            old(self).wf() ==> final(self).order() == order_after_get(
                old(self)@,
                old(self).order(),
                key@,
            ),
            old(self).wf() ==> final(self).order().len() == old(self).order().len(),
    {
        proof {
            if self.wf() {
                self.wf_is_within();
                touched_is_ordered(self.order(), key@);
                if self@.contains_key(key@) {
                    assert(self.order().contains(key@));
                }
            }
        }
        cache_get(&mut self.inner, key)
    }

    /// Stores `document` under `key`, in place of what was stored there, and
    /// evicts the least recently used entry if the cache then holds more
    /// than its capacity.
    pub fn put(&mut self, key: String, document: Order)
        ensures
            final(self)@.remove(key@).submap_of(old(self)@),
            within(final(self)@, old(self).capacity()),
            final(self).capacity() == old(self).capacity(),
            old(self).wf() ==> final(self).wf() && final(self)@ == entries_after_put(
                old(self)@,
                old(self).order(),
                old(self).capacity(),
                key@,
                document@,
            ) && final(self).order() == order_after_put(
                old(self)@,
                old(self).order(),
                old(self).capacity(),
                key@,
            ),
            old(self).wf() ==> final(self)@.len() == final(self).order().len(),
    {
        proof {
            if self.wf() {
                self.wf_is_within();
                put_is_exact(self@, self.order(), self.capacity(), key@, document@);
            }
        }
        cache_insert(&mut self.inner, key, document);
        let ghost stored = self@;
        cache_run_pending_tasks(&mut self.inner);
        proof {
            vstd::map_lib::lemma_submap_of_trans(
                self@.remove(key@),
                stored.remove(key@),
                old(self)@,
            );
            if old(self).wf() {
                if self.capacity() == 0 {
                    assert(self.order() =~= old(self).order());
                    assert(self@ =~= old(self)@);
                }
                aligned_is_counted(self@, self.order());
            }
        }
    }

    /// Runs the maintenance that the cache has put off, so that entries over
    /// the capacity are evicted. Afterwards the cache holds no more entries
    /// than its capacity. A cache at rest has put nothing off, and stays as
    /// it is.
    pub fn run_pending_tasks(&mut self)
        ensures
            settled(old(self)@, old(self).capacity(), final(self)@),
            final(self).capacity() == old(self).capacity(),
            old(self).wf() ==> final(self).wf() && final(self)@ == old(self)@ && final(self).order()
                == old(self).order(),
    {
        proof {
            if self.wf() {
                self.wf_is_within();
            }
        }
        cache_run_pending_tasks(&mut self.inner)
    }
}

} // verus!
