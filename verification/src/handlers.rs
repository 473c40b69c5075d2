//! The cache-aside orchestration: what a read and a write do to the cache
//! and the key registry, and what they answer.
//!
//! A read is made in two steps, with the lookup in the store between them:
//! `get_order` consults the cache, and `complete_get_order` takes in what the
//! store replied. A write is made in one, `create_order`, after the store has
//! replied to the insert. The caller holds the state exclusively during each
//! step and not between the steps.

use vstd::prelude::*;

use crate::cache::{
    aligned, entries_after_put, order_after_get, order_after_put, put_is_exact, settled, shrunk,
    touched_is_ordered, BoundedCache,
};
use crate::data::{Order, OrderRequest};
use crate::db::{insert_outcome, lookup_outcome, OrderRow, StorageFailure};
use crate::errors::OrderApiError;
use crate::registry::{recorded, recorded_once, KeyRegistry};
use crate::responses::OrderApiResponse;

verus! {

/// The state shared by all requests: the bounded cache and the registry of
/// the keys admitted to it. A state starts out well formed, and every step
/// keeps it so.
pub struct AppState {
    cache: BoundedCache,
    keys: KeyRegistry,
}

/// The state as the contracts see it.
pub struct StateView {
    /// The documents that can be retrieved from the cache, by identifier.
    pub cache: Map<Seq<char>, (Seq<char>, Seq<char>)>,
    /// The identifiers of the cached documents in the order of their last
    /// use, the least recently used first.
    pub order: Seq<Seq<char>>,
    /// The capacity of the cache.
    pub capacity: nat,
    /// The identifiers recorded in the registry, oldest first.
    pub keys: Seq<Seq<char>>,
}

/// The view of a cache and a registry taken together.
pub open spec fn snapshot(cache: BoundedCache, keys: KeyRegistry) -> StateView {
    StateView { cache: cache@, order: cache.order(), capacity: cache.capacity(), keys: keys@ }
}

impl View for AppState {
    type V = StateView;

    /// What the cache holds, in which order it was used, its capacity, and
    /// what the registry records.
    closed spec fn view(&self) -> StateView {
        snapshot(self.cache, self.keys)
    }
}

/// Whether the cache and the registry agree and the cache is within its
/// bounds: the registry records no key twice, it records every key that the
/// cache holds, and the cache holds no more entries than its capacity, each
/// queued once in the order of use.
pub open spec fn consistent(state: StateView) -> bool {
    &&& state.keys.no_duplicates()
    &&& forall|key: Seq<char>| state.cache.contains_key(key) ==> state.keys.contains(key)
    &&& aligned(state.cache, state.order)
    &&& state.order.len() <= state.capacity
}

impl AppState {
    /// Whether the state is consistent and its cache is at rest. A new state
    /// is well formed, and every step keeps it so.
    pub closed spec fn wf(&self) -> bool {
        &&& consistent(self@)
        &&& self.cache.wf()
    }

    /// A well-formed state is consistent.
    pub proof fn wf_is_consistent(self)
        requires
            self.wf(),
        ensures
            consistent(self@),
    {
    }

    /// A state with an empty cache of the given capacity and an empty
    /// registry.
    pub fn new(max_capacity: u64) -> (state: AppState)
        ensures
            state@.cache.dom() == Set::<Seq<char>>::empty(),
            state@.order == Seq::<Seq<char>>::empty(),
            state@.capacity == max_capacity,
            state@.keys == Seq::<Seq<char>>::empty(),
            consistent(state@),
            state.wf(),
    {
        let cache = BoundedCache::new(max_capacity);
        let keys = KeyRegistry::new();
        assert forall|key: Seq<char>| !cache@.dom().contains(key) by {}
        AppState { cache, keys }
    }

    /// The identifiers that the registry records, oldest first.
    pub fn keys(&self) -> (keys: Vec<String>)
        ensures
            keys@.len() == self@.keys.len(),
            forall|i: int| 0 <= i < keys@.len() ==> (#[trigger] keys@[i])@ == self@.keys[i],
    {
        self.keys.keys()
    }

    /// Runs the maintenance that the cache has put off, so that entries over
    /// the capacity are evicted. Afterwards the cache holds no more entries
    /// than its capacity, and the registry is as it was. A well-formed state
    /// has put nothing off, and stays as it is.
    pub fn run_pending_tasks(&mut self)
        ensures
            final(self)@.keys == old(self)@.keys,
            final(self)@.capacity == old(self)@.capacity,
            settled(old(self)@.cache, old(self)@.capacity, final(self)@.cache),
            old(self).wf() ==> final(self).wf() && final(self)@ == old(self)@,
    {
        proof {
            if self.wf() {
                self.cache.wf_is_within();
            }
        }
        self.cache.run_pending_tasks();
    }
}

/// What a read does after it has consulted the cache.
#[derive(Debug, PartialEq, Eq)]
pub enum ReadStep {
    /// The cache held the document: answer with it, and leave the store
    /// alone.
    Respond(OrderApiResponse),
    /// The cache did not hold the document: look the request up in the
    /// store, and hand the reply to `complete_get_order`.
    Fetch(OrderRequest),
}

/// The document that a cache serves for `order_uid`: the one stored under
/// that key, with its identifier set to the key, whatever it was stamped
/// with when it was stored.
pub open spec fn cached_document(
    cache: Map<Seq<char>, (Seq<char>, Seq<char>)>,
    order_uid: Seq<char>,
) -> Option<(Seq<char>, Seq<char>)> {
    if cache.contains_key(order_uid) {
        Some((order_uid, cache[order_uid].1))
    } else {
        None
    }
}

/// The state after a lookup of `key`: a hit counts as a use of the entry,
/// and nothing else changes.
pub open spec fn after_lookup(pre: StateView, key: Seq<char>) -> StateView {
    StateView {
        cache: pre.cache,
        order: order_after_get(pre.cache, pre.order, key),
        capacity: pre.capacity,
        keys: pre.keys,
    }
}

/// The state after `document` was populated under `key`. Where the cache
/// holds the key already, nothing is stored and nothing is recorded; the
/// lookup counts as a use of the entry. Otherwise the document is put under
/// the key, the least recently used entry leaves if the cache was full, and
/// the key is recorded at the end of the registry unless an earlier
/// admission has recorded it.
pub open spec fn after_populate(
    pre: StateView,
    key: Seq<char>,
    document: (Seq<char>, Seq<char>),
) -> StateView {
    if pre.cache.contains_key(key) {
        after_lookup(pre, key)
    } else {
        StateView {
            cache: entries_after_put(pre.cache, pre.order, pre.capacity, key, document),
            order: order_after_put(pre.cache, pre.order, pre.capacity, key),
            capacity: pre.capacity,
            keys: recorded(pre.keys, key),
        }
    }
}

/// The effect of populating the cache with `document` under `key`.
pub open spec fn populated(
    pre: StateView,
    key: Seq<char>,
    document: (Seq<char>, Seq<char>),
    post: StateView,
) -> bool {
    post == after_populate(pre, key, document)
}

/// The step that follows the lookup of a request in `cache`. A hit is
/// answered from the cache, with the document stamped with the key that was
/// asked for; a miss asks for the lookup of the same request in the store.
pub open spec fn step_for(
    cache: Map<Seq<char>, (Seq<char>, Seq<char>)>,
    order_request: OrderRequest,
    step: ReadStep,
) -> bool {
    match cached_document(cache, order_request.order_uid@) {
        Some(document) => step matches ReadStep::Respond(OrderApiResponse::DataFromCache(order))
            && order@ == document,
        None => step == ReadStep::Fetch(order_request),
    }
}

/// The effect of the first step of a read, and the step that follows it.
/// Neither a hit nor a miss stores, evicts or records anything.
pub open spec fn looked_up(
    pre: StateView,
    order_request: OrderRequest,
    step: ReadStep,
    post: StateView,
) -> bool {
    &&& post == after_lookup(pre, order_request.order_uid@)
    &&& step_for(pre.cache, order_request, step)
}

/// The answer of the second step of a read, given the store's reply.
/// Without a row the read fails as not found; a body that did not decode
/// fails the read with the decoder's complaint; any other failure of the
/// store is an internal failure. With a row, the answer is the document
/// stamped with the row's identifier.
pub open spec fn read_answer(reply: Result<Option<OrderRow>, StorageFailure>) -> Result<
    OrderApiResponse,
    OrderApiError,
> {
    match lookup_outcome(reply) {
        Ok(order) => Ok(OrderApiResponse::Data(order)),
        Err(OrderApiError::NotFound) => Err(OrderApiError::NotFound),
        Err(OrderApiError::SerDeError(complaint)) => Err(OrderApiError::SerDeError(complaint)),
        Err(_) => Err(OrderApiError::InternalServerError),
    }
}

/// The effect and the answer of the second step of a read, given the
/// store's reply. A read that fails leaves the state as it was. With a row,
/// the document stamped with the row's identifier is populated under that
/// identifier.
pub open spec fn fetched(
    pre: StateView,
    reply: Result<Option<OrderRow>, StorageFailure>,
    answer: Result<OrderApiResponse, OrderApiError>,
    post: StateView,
) -> bool {
    &&& answer == read_answer(reply)
    &&& match lookup_outcome(reply) {
        Ok(order) => populated(pre, order.order_uid@, order@, post),
        Err(_) => post == pre,
    }
}

/// The answer of a write, given the store's reply to the insert: the
/// identifier that the store returned, or an internal failure where the
/// store failed.
pub open spec fn write_answer(reply: Result<String, StorageFailure>) -> Result<
    OrderApiResponse,
    OrderApiError,
> {
    match insert_outcome(reply) {
        Ok(stored_uid) => Ok(OrderApiResponse::Created(stored_uid)),
        Err(_) => Err(OrderApiError::InternalServerError),
    }
}

/// The effect and the answer of a write of `order`, given the store's reply
/// to the insert. A failure of the store leaves the state as it was.
/// Otherwise the order is populated under its identifier.
pub open spec fn created(
    pre: StateView,
    order: Order,
    reply: Result<String, StorageFailure>,
    answer: Result<OrderApiResponse, OrderApiError>,
    post: StateView,
) -> bool {
    &&& answer == write_answer(reply)
    &&& match insert_outcome(reply) {
        Ok(_) => populated(pre, order.order_uid@, order@, post),
        Err(_) => post == pre,
    }
}

/// A lookup keeps a consistent state consistent.
pub proof fn looked_up_is_consistent(pre: StateView, key: Seq<char>)
    requires
        consistent(pre),
    ensures
        consistent(after_lookup(pre, key)),
{
    touched_is_ordered(pre.order, key);
    if pre.cache.contains_key(key) {
        assert(pre.cache.dom().contains(key));
        assert(pre.order.contains(key));
    }
}

/// A population keeps a consistent state consistent.
pub proof fn populated_is_consistent(
    pre: StateView,
    key: Seq<char>,
    document: (Seq<char>, Seq<char>),
    post: StateView,
)
    requires
        consistent(pre),
        populated(pre, key, document, post),
    ensures
        consistent(post),
{
    if pre.cache.contains_key(key) {
        looked_up_is_consistent(pre, key);
    } else {
        recorded_once(pre.keys, key);
        put_is_exact(pre.cache, pre.order, pre.capacity, key, document);
        assert forall|other: Seq<char>| post.cache.contains_key(other) implies post.keys.contains(
            other,
        ) by {
            if other != key {
                assert(post.cache.remove(key).dom().contains(other));
                assert(pre.cache.dom().contains(other));
                assert(pre.cache.contains_key(other));
                assert(pre.keys.contains(other));
            }
        }
    }
}

/// The answer to a request that no route serves.
pub fn not_found() -> (error: OrderApiError)
    ensures
        error == OrderApiError::NotFound,
{
    OrderApiError::NotFound
}

/// Reads an order from the cache. The document that is returned carries
/// `order_uid` as its identifier. The read counts as a use of the entry,
/// and changes no entry of a cache at rest.
pub fn read_from_cache(cache: &mut BoundedCache, order_uid: String) -> (found: Option<Order>)
    ensures
        match found {
            Some(order) => cached_document(old(cache)@, order_uid@) == Some(order@),
            None => cached_document(old(cache)@, order_uid@).is_none(),
        },
        shrunk(old(cache)@, final(cache)@),
        final(cache).capacity() == old(cache).capacity(),
        old(cache).wf() ==> final(cache).wf() && final(cache)@ == old(cache)@,
        old(cache).wf() ==> final(cache).order() == order_after_get(
            old(cache)@,
            old(cache).order(),
            order_uid@,
        ),
{
    match cache.get(&order_uid) {
        Some(order) => Some(order.stamped(order_uid)),
        None => None,
    }
}

/// Populates the cache with `body` under `order_uid`, and records the key,
/// unless the cache holds the key already.
pub fn save_in_cache(
    cache: &mut BoundedCache,
    keys: &mut KeyRegistry,
    order_uid: String,
    body: Order,
)
    ensures
        final(cache).capacity() == old(cache).capacity(),
        old(cache)@.contains_key(order_uid@) ==> final(keys)@ == old(keys)@ && shrunk(
            old(cache)@,
            final(cache)@,
        ),
        !old(cache)@.contains_key(order_uid@) ==> final(keys)@ == recorded(
            old(keys)@,
            order_uid@,
        ),
        old(cache).wf() ==> final(cache).wf() && populated(
            snapshot(*old(cache), *old(keys)),
            order_uid@,
            body@,
            snapshot(*final(cache), *final(keys)),
        ),
{
    if cache.get(&order_uid).is_none() {
        cache.put(order_uid.clone(), body);
        keys.record_if_new(order_uid);
    }
}

/// The first step of a read: consults the cache.
pub fn get_order(state: &mut AppState, order_request: OrderRequest) -> (step: ReadStep)
    ensures
        step_for(old(state)@.cache, order_request, step),
        final(state)@.keys == old(state)@.keys,
        old(state).wf() ==> final(state).wf() && looked_up(
            old(state)@,
            order_request,
            step,
            final(state)@,
        ),
{
    proof {
        if state.wf() {
            looked_up_is_consistent(state@, order_request.order_uid@);
        }
    }
    match read_from_cache(&mut state.cache, order_request.order_uid.clone()) {
        Some(order) => ReadStep::Respond(OrderApiResponse::DataFromCache(order)),
        None => ReadStep::Fetch(order_request),
    }
}

/// The second step of a read that missed the cache: takes in the store's
/// reply to the lookup.
pub fn complete_get_order(
    state: &mut AppState,
    reply: Result<Option<OrderRow>, StorageFailure>,
) -> (answer: Result<OrderApiResponse, OrderApiError>)
    ensures
        answer == read_answer(reply),
        answer is Err ==> final(state)@ == old(state)@,
        old(state).wf() ==> final(state).wf() && fetched(
            old(state)@,
            reply,
            answer,
            final(state)@,
        ),
{
    match crate::db::get_order(reply) {
        Ok(order) => {
            let order_uid = order.order_uid.clone();
            let body = order.clone();
            save_in_cache(&mut state.cache, &mut state.keys, order_uid, body);
            proof {
                if old(state).wf() {
                    populated_is_consistent(old(state)@, order.order_uid@, order@, state@);
                }
            }
            Ok(OrderApiResponse::Data(order))
        },
        Err(OrderApiError::NotFound) => Err(OrderApiError::NotFound),
        Err(OrderApiError::SerDeError(complaint)) => Err(OrderApiError::SerDeError(complaint)),
        Err(_) => Err(OrderApiError::InternalServerError),
    }
}

/// A write, once the store has replied to the insert of `order`.
pub fn create_order(
    state: &mut AppState,
    order: Order,
    reply: Result<String, StorageFailure>,
) -> (answer: Result<OrderApiResponse, OrderApiError>)
    ensures
        answer == write_answer(reply),
        answer is Err ==> final(state)@ == old(state)@,
        old(state).wf() ==> final(state).wf() && created(
            old(state)@,
            order,
            reply,
            answer,
            final(state)@,
        ),
{
    match crate::db::create_order(reply) {
        Ok(stored_uid) => {
            let order_uid = order.order_uid.clone();
            save_in_cache(&mut state.cache, &mut state.keys, order_uid, order);
            proof {
                if old(state).wf() {
                    populated_is_consistent(old(state)@, order.order_uid@, order@, state@);
                }
            }
            Ok(OrderApiResponse::Created(stored_uid))
        },
        Err(_) => Err(OrderApiError::InternalServerError),
    }
}

} // verus!
