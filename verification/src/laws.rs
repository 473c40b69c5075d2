//! What holds of reads, writes and populations taken together. Each law is
//! stated over the relations that the contracts of the functions use, so it
//! holds of every run of those functions on a well-formed state.

use vstd::prelude::*;

use crate::cache::{aligned_is_counted, kept, kept_is_suffix, put_is_exact, touched_is_ordered};
use crate::data::{Order, OrderRequest};
use crate::db::{OrderRow, StorageFailure};
use crate::errors::OrderApiError;
use crate::handlers::{
    consistent, created, fetched, looked_up, populated, populated_is_consistent, ReadStep,
    StateView,
};
use crate::registry::{occurrences, occurrences_of_distinct, recorded, recorded_once};
use crate::responses::OrderApiResponse;

verus! {

/// A read of a key that the cache holds is answered from the cache and does
/// not ask for the store. The document that it answers with carries the key
/// that was asked for as its identifier, whatever identifier the cached
/// document was stamped with, and the cached payload. The read changes no
/// entry and no record.
pub proof fn hit_is_answered_from_cache(
    pre: StateView,
    order_request: OrderRequest,
    step: ReadStep,
    post: StateView,
)
    requires
        pre.cache.contains_key(order_request.order_uid@),
        looked_up(pre, order_request, step, post),
    ensures
        !(step is Fetch),
        step matches ReadStep::Respond(OrderApiResponse::DataFromCache(order))
            && order.order_uid@ == order_request.order_uid@ && order.payload@
            == pre.cache[order_request.order_uid@].1,
        post.cache == pre.cache,
        post.keys == pre.keys,
{
}

/// In a cache that stores anything at all, a read that missed and was then
/// given the row of its key fills the cache: the next read of the key is
/// answered from the cache with the row's document, and the registry holds
/// the key exactly once.
pub proof fn miss_fills_cache_once(
    before: StateView,
    order_request: OrderRequest,
    first: ReadStep,
    missed: StateView,
    row: OrderRow,
    answer: Result<OrderApiResponse, OrderApiError>,
    filled: StateView,
    second: ReadStep,
    after: StateView,
)
    requires
        consistent(before),
        before.capacity > 0,
        !before.cache.contains_key(order_request.order_uid@),
        looked_up(before, order_request, first, missed),
        row.order_uid@ == order_request.order_uid@,
        row.body is Ok,
        fetched(missed, Ok(Some(row)), answer, filled),
        looked_up(filled, order_request, second, after),
    ensures
        first == ReadStep::Fetch(order_request),
        missed == before,
        answer matches Ok(OrderApiResponse::Data(document)) && document@ == (
            order_request.order_uid@,
            row.body->Ok_0.payload@,
        ),
        second matches ReadStep::Respond(OrderApiResponse::DataFromCache(order)) && order@ == (
            order_request.order_uid@,
            row.body->Ok_0.payload@,
        ),
        after.cache == filled.cache,
        occurrences(after.keys, order_request.order_uid@) == 1,
{
    let key = order_request.order_uid@;
    let document = (key, row.body->Ok_0.payload@);
    recorded_once(before.keys, key);
    put_is_exact(before.cache, before.order, before.capacity, key, document);
    occurrences_of_distinct(after.keys, key);
}

/// A read that missed and was then told that the store has no row for its
/// key fails as not found, and leaves the state as it was: no entry is
/// added, replaced or evicted, and nothing is recorded.
pub proof fn not_found_changes_nothing(
    before: StateView,
    order_request: OrderRequest,
    first: ReadStep,
    missed: StateView,
    answer: Result<OrderApiResponse, OrderApiError>,
    after: StateView,
)
    requires
        !before.cache.contains_key(order_request.order_uid@),
        looked_up(before, order_request, first, missed),
        fetched(missed, Ok(None), answer, after),
    ensures
        first == ReadStep::Fetch(order_request),
        answer == Err::<OrderApiResponse, OrderApiError>(OrderApiError::NotFound),
        after == before,
{
}

/// A read that missed and whose lookup in the store failed fails as an
/// internal failure, and leaves the state as it was.
pub proof fn failed_fetch_changes_nothing(
    before: StateView,
    order_request: OrderRequest,
    first: ReadStep,
    missed: StateView,
    failure: StorageFailure,
    answer: Result<OrderApiResponse, OrderApiError>,
    after: StateView,
)
    requires
        !before.cache.contains_key(order_request.order_uid@),
        looked_up(before, order_request, first, missed),
        fetched(missed, Err(failure), answer, after),
    ensures
        first == ReadStep::Fetch(order_request),
        answer == Err::<OrderApiResponse, OrderApiError>(OrderApiError::InternalServerError),
        after == before,
{
}

/// A write whose insert into the store failed fails as an internal failure,
/// and leaves the state as it was.
pub proof fn failed_insert_changes_nothing(
    before: StateView,
    order: Order,
    failure: StorageFailure,
    answer: Result<OrderApiResponse, OrderApiError>,
    after: StateView,
)
    requires
        created(before, order, Err(failure), answer, after),
    ensures
        answer == Err::<OrderApiResponse, OrderApiError>(OrderApiError::InternalServerError),
        after == before,
{
}

/// In a cache that stores anything at all, a write of an order whose key
/// the cache did not hold is followed by a hit: the next read of the key is
/// answered from the cache with the order that was written, and the registry
/// holds the key exactly once.
pub proof fn write_then_read(
    before: StateView,
    order: Order,
    stored_uid: String,
    answer: Result<OrderApiResponse, OrderApiError>,
    written: StateView,
    order_request: OrderRequest,
    step: ReadStep,
    after: StateView,
)
    requires
        consistent(before),
        before.capacity > 0,
        !before.cache.contains_key(order.order_uid@),
        created(before, order, Ok(stored_uid), answer, written),
        order_request.order_uid@ == order.order_uid@,
        looked_up(written, order_request, step, after),
    ensures
        answer == Ok::<OrderApiResponse, OrderApiError>(OrderApiResponse::Created(stored_uid)),
        written.cache.contains_pair(order.order_uid@, order@),
        step matches ReadStep::Respond(OrderApiResponse::DataFromCache(document)) && document@
            == order@,
        occurrences(after.keys, order.order_uid@) == 1,
{
    recorded_once(before.keys, order.order_uid@);
    put_is_exact(before.cache, before.order, before.capacity, order.order_uid@, order@);
    occurrences_of_distinct(after.keys, order.order_uid@);
}

/// Populating under a key that the cache holds stores, evicts and records
/// nothing: the document that was there stays, and so does every other.
pub proof fn populate_keeps_a_resident_entry(
    pre: StateView,
    key: Seq<char>,
    document: (Seq<char>, Seq<char>),
    post: StateView,
)
    requires
        pre.cache.contains_key(key),
        populated(pre, key, document, post),
    ensures
        post.cache == pre.cache,
        post.keys == pre.keys,
        post.capacity == pre.capacity,
{
}

/// Populating under a new key into a cache with room for it adds the
/// document and changes nothing else: every other entry is as it was, the
/// cache holds one entry more, and the key is recorded unless it was
/// recorded before.
pub proof fn populate_with_room_adds_one(
    pre: StateView,
    key: Seq<char>,
    document: (Seq<char>, Seq<char>),
    post: StateView,
)
    requires
        consistent(pre),
        !pre.cache.contains_key(key),
        pre.cache.len() < pre.capacity,
        populated(pre, key, document, post),
    ensures
        post.cache == pre.cache.insert(key, document),
        post.cache.len() == pre.cache.len() + 1,
        post.order == pre.order.push(key),
        post.keys == recorded(pre.keys, key),
        !pre.keys.contains(key) ==> post.keys == pre.keys.push(key),
        consistent(post),
{
    aligned_is_counted(pre.cache, pre.order);
    put_is_exact(pre.cache, pre.order, pre.capacity, key, document);
    touched_is_ordered(pre.order, key);
    populated_is_consistent(pre, key, document, post);
    aligned_is_counted(post.cache, post.order);
}

/// Populating under a new key into a full cache evicts exactly one entry,
/// the one that was used least recently: it can no longer be retrieved, the
/// new document can, every other entry is as it was, and the cache is full
/// as before.
pub proof fn populate_into_full_cache_evicts_one(
    pre: StateView,
    key: Seq<char>,
    document: (Seq<char>, Seq<char>),
    post: StateView,
)
    requires
        consistent(pre),
        pre.capacity > 0,
        !pre.cache.contains_key(key),
        pre.cache.len() == pre.capacity,
        populated(pre, key, document, post),
    ensures
        pre.order.len() > 0 && pre.cache.contains_key(pre.order[0]),
        post.cache == pre.cache.remove(pre.order[0]).insert(key, document),
        !post.cache.contains_key(pre.order[0]),
        post.cache.contains_pair(key, document),
        forall|other: Seq<char>|
            pre.cache.contains_key(other) && other != pre.order[0] ==> post.cache.contains_pair(
                other,
                pre.cache[other],
            ),
        post.cache.len() == pre.capacity,
        post.order == pre.order.skip(1).push(key),
        consistent(post),
{
    aligned_is_counted(pre.cache, pre.order);
    put_is_exact(pre.cache, pre.order, pre.capacity, key, document);
    populated_is_consistent(pre, key, document, post);
    aligned_is_counted(post.cache, post.order);
    touched_is_ordered(pre.order, key);
    kept_is_suffix(pre.order.push(key), pre.capacity);
    assert(post.order.len() == pre.capacity);
}

/// Populating twice with the same key and document stores and records once.
/// The second population changes no entry and no record, and the key is
/// recorded exactly once. In a cache that stores anything at all the key can
/// be retrieved afterwards, with the document of the first population where
/// the cache did not hold the key before; a cache that was empty then holds
/// that one entry.
pub proof fn populate_is_idempotent(
    before: StateView,
    key: Seq<char>,
    document: (Seq<char>, Seq<char>),
    once: StateView,
    twice: StateView,
)
    requires
        consistent(before),
        populated(before, key, document, once),
        populated(once, key, document, twice),
    ensures
        twice.cache == once.cache,
        twice.keys == once.keys,
        occurrences(twice.keys, key) == 1,
        consistent(twice),
        before.capacity > 0 ==> twice.cache.contains_key(key),
        before.capacity > 0 && !before.cache.contains_key(key) ==> twice.cache.contains_pair(
            key,
            document,
        ),
        before.capacity > 0 && before.cache.len() == 0 ==> twice.cache == Map::<
            Seq<char>,
            (Seq<char>, Seq<char>),
        >::empty().insert(key, document),
{
    recorded_once(before.keys, key);
    populated_is_consistent(before, key, document, once);
    recorded_once(once.keys, key);
    populated_is_consistent(once, key, document, twice);
    occurrences_of_distinct(twice.keys, key);
    aligned_is_counted(before.cache, before.order);
    put_is_exact(before.cache, before.order, before.capacity, key, document);
    put_is_exact(once.cache, once.order, once.capacity, key, document);
    if before.capacity == 0 {
        assert(before.order.len() == 0);
    }
    if before.capacity > 0 && before.cache.len() == 0 {
        assert(before.cache.dom().len() == 0);
        assert(before.cache =~= Map::<Seq<char>, (Seq<char>, Seq<char>)>::empty());
    }
}

/// Two populations under distinct new keys, into a cache with room for
/// both, give the same entries in either order: what the cache held before,
/// and the two documents.
pub proof fn populations_with_room_commute(
    pre: StateView,
    first_key: Seq<char>,
    first_document: (Seq<char>, Seq<char>),
    second_key: Seq<char>,
    second_document: (Seq<char>, Seq<char>),
    one: StateView,
    one_then_other: StateView,
    other: StateView,
    other_then_one: StateView,
)
    requires
        consistent(pre),
        first_key != second_key,
        !pre.cache.contains_key(first_key),
        !pre.cache.contains_key(second_key),
        pre.cache.len() + 2 <= pre.capacity,
        populated(pre, first_key, first_document, one),
        populated(one, second_key, second_document, one_then_other),
        populated(pre, second_key, second_document, other),
        populated(other, first_key, first_document, other_then_one),
    ensures
        one_then_other.cache == pre.cache.insert(first_key, first_document).insert(
            second_key,
            second_document,
        ),
        other_then_one.cache == one_then_other.cache,
        one_then_other.cache.len() == pre.cache.len() + 2,
{
    populate_with_room_adds_one(pre, first_key, first_document, one);
    populate_with_room_adds_one(one, second_key, second_document, one_then_other);
    populate_with_room_adds_one(pre, second_key, second_document, other);
    populate_with_room_adds_one(other, first_key, first_document, other_then_one);
    assert(other_then_one.cache =~= one_then_other.cache);
}

/// The states that a run of populations may pass through: `states[i + 1]` is
/// what `states[i]` becomes when `documents[i]` is populated under
/// `keys[i]`.
pub open spec fn populate_run(
    states: Seq<StateView>,
    keys: Seq<Seq<char>>,
    documents: Seq<(Seq<char>, Seq<char>)>,
) -> bool {
    &&& states.len() == keys.len() + 1
    &&& documents.len() == keys.len()
    &&& forall|i: int|
        0 <= i < keys.len() ==> populated(
            #[trigger] states[i],
            keys[i],
            documents[i],
            states[i + 1],
        )
}

/// After the first `n` populations of a run of distinct keys that were never
/// admitted before, the registry holds what it held, followed by the first
/// `n` keys in their order.
proof fn populate_run_records_prefix(
    states: Seq<StateView>,
    keys: Seq<Seq<char>>,
    documents: Seq<(Seq<char>, Seq<char>)>,
    n: int,
)
    requires
        populate_run(states, keys, documents),
        consistent(states[0]),
        keys.no_duplicates(),
        forall|i: int| 0 <= i < keys.len() ==> !states[0].keys.contains(#[trigger] keys[i]),
        0 <= n <= keys.len(),
    ensures
        consistent(states[n]),
        states[n].keys == states[0].keys + keys.subrange(0, n),
    decreases n,
{
    if n == 0 {
        assert(states[0].keys + keys.subrange(0, 0) =~= states[0].keys);
    } else {
        populate_run_records_prefix(states, keys, documents, n - 1);
        let pre = states[n - 1];
        let post = states[n];
        let key = keys[n - 1];
        assert(populated(pre, key, documents[n - 1], post));
        populated_is_consistent(pre, key, documents[n - 1], post);
        if pre.keys.contains(key) {
            let i = choose|i: int| 0 <= i < pre.keys.len() && pre.keys[i] == key;
            if i < states[0].keys.len() {
                assert(states[0].keys[i] == key);
            } else {
                let j = i - states[0].keys.len();
                assert(keys.subrange(0, n - 1)[j] == keys[j]);
                assert(keys[j] == keys[n - 1]);
            }
        }
        assert(!pre.cache.contains_key(key));
        assert(keys.subrange(0, n) =~= keys.subrange(0, n - 1).push(key));
        assert(post.keys =~= states[0].keys + keys.subrange(0, n));
    }
}

/// Populating under distinct keys that were never admitted before records
/// them in the order of the populations, after what was recorded already,
/// whatever the cache has evicted meanwhile.
pub proof fn populations_are_recorded_in_order(
    states: Seq<StateView>,
    keys: Seq<Seq<char>>,
    documents: Seq<(Seq<char>, Seq<char>)>,
)
    requires
        populate_run(states, keys, documents),
        consistent(states[0]),
        keys.no_duplicates(),
        forall|i: int| 0 <= i < keys.len() ==> !states[0].keys.contains(#[trigger] keys[i]),
    ensures
        consistent(states.last()),
        states.last().keys == states[0].keys + keys,
{
    populate_run_records_prefix(states, keys, documents, keys.len() as int);
    assert(keys.subrange(0, keys.len() as int) =~= keys);
}

/// Evicting down to the capacity after each key of a run has joined the
/// queue leaves what one eviction at the end of the run leaves.
proof fn kept_of_kept(order: Seq<Seq<char>>, limit: nat, key: Seq<char>)
    requires
        limit > 0,
    ensures
        kept(kept(order, limit).push(key), limit) == kept(order.push(key), limit),
{
    assert(kept(kept(order, limit).push(key), limit) =~= kept(order.push(key), limit));
}

/// After the first `n` populations of a run of distinct keys into an empty
/// cache, the cache holds the keys that were populated last, as many as its
/// capacity allows, each with its own document.
proof fn populate_run_keeps_latest_prefix(
    states: Seq<StateView>,
    keys: Seq<Seq<char>>,
    documents: Seq<(Seq<char>, Seq<char>)>,
    n: int,
)
    requires
        populate_run(states, keys, documents),
        consistent(states[0]),
        states[0].order.len() == 0,
        states[0].capacity > 0,
        keys.no_duplicates(),
        0 <= n <= keys.len(),
    ensures
        consistent(states[n]),
        states[n].capacity == states[0].capacity,
        states[n].order == kept(keys.subrange(0, n), states[0].capacity),
        forall|i: int|
            0 <= i < n && states[n].cache.contains_key(#[trigger] keys[i])
                ==> states[n].cache[keys[i]] == documents[i],
    decreases n,
{
    let limit = states[0].capacity;
    if n == 0 {
        assert(keys.subrange(0, 0) =~= Seq::<Seq<char>>::empty());
        assert(states[0].order =~= kept(keys.subrange(0, 0), limit));
    } else {
        populate_run_keeps_latest_prefix(states, keys, documents, n - 1);
        let pre = states[n - 1];
        let post = states[n];
        let key = keys[n - 1];
        let document = documents[n - 1];
        let earlier = keys.subrange(0, n - 1);
        assert(populated(pre, key, document, post));
        populated_is_consistent(pre, key, document, post);
        assert(earlier.no_duplicates());
        kept_is_suffix(earlier, limit);
        if pre.order.contains(key) {
            assert(earlier.contains(key));
            let j = choose|j: int| 0 <= j < earlier.len() && earlier[j] == key;
            assert(keys[j] == keys[n - 1]);
        }
        assert(!pre.cache.dom().contains(key));
        assert(!pre.cache.contains_key(key));
        put_is_exact(pre.cache, pre.order, pre.capacity, key, document);
        touched_is_ordered(pre.order, key);
        assert(keys.subrange(0, n) =~= earlier.push(key));
        kept_of_kept(earlier, limit, key);
        assert(post.order == kept(keys.subrange(0, n), limit));
        assert forall|i: int| 0 <= i < n && post.cache.contains_key(#[trigger] keys[i]) implies post.cache[keys[i]]
            == documents[i] by {
            if i < n - 1 {
                assert(keys[i] != key);
                assert(post.cache.remove(key).dom().contains(keys[i]));
                assert(pre.cache.dom().contains(keys[i]));
                assert(pre.cache.contains_key(keys[i]));
                assert(post.cache.remove(key)[keys[i]] == pre.cache[keys[i]]);
            }
        }
    }
}

/// Populating under distinct keys into an empty cache, however many more
/// than its capacity: the cache then holds exactly the keys that were
/// populated last, as many as its capacity allows, each with its own
/// document. The keys populated before those were evicted, the earliest
/// first, and can no longer be retrieved.
pub proof fn pressure_evicts_the_earliest(
    states: Seq<StateView>,
    keys: Seq<Seq<char>>,
    documents: Seq<(Seq<char>, Seq<char>)>,
)
    requires
        populate_run(states, keys, documents),
        consistent(states[0]),
        states[0].order.len() == 0,
        states[0].capacity > 0,
        keys.no_duplicates(),
    ensures
        consistent(states.last()),
        states.last().order == kept(keys, states[0].capacity),
        forall|i: int|
            0 <= i < keys.len() ==> (states.last().cache.contains_key(#[trigger] keys[i]) <==> i
                >= keys.len() - states[0].capacity),
        forall|i: int|
            0 <= i < keys.len() && i >= keys.len() - states[0].capacity
                ==> states.last().cache.contains_pair(#[trigger] keys[i], documents[i]),
        forall|key: Seq<char>| states.last().cache.contains_key(key) ==> keys.contains(key),
        states.last().cache.len() == if keys.len() <= states[0].capacity {
            keys.len()
        } else {
            states[0].capacity
        },
{
    let n = keys.len() as int;
    let limit = states[0].capacity;
    let last = states.last();
    populate_run_keeps_latest_prefix(states, keys, documents, n);
    assert(keys.subrange(0, n) =~= keys);
    kept_is_suffix(keys, limit);
    aligned_is_counted(last.cache, last.order);
    assert forall|i: int| 0 <= i < keys.len() implies (last.cache.contains_key(#[trigger] keys[i])
        <==> i >= keys.len() - limit) by {
        assert(last.order.contains(keys[i]) <==> last.cache.dom().contains(keys[i]));
    }
    assert forall|key: Seq<char>| last.cache.contains_key(key) implies keys.contains(key) by {
        assert(last.cache.dom().contains(key));
        assert(last.order.contains(key));
    }
}

} // verus!
