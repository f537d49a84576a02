//! Client-side decisions: which server to talk to, and when a request is
//! redirected, retried or finished.

use lru::LruCache;
use rand::seq::SliceRandom;
use std::num::NonZeroUsize;
use vstd::prelude::*;
use vstd::arithmetic::power2::{lemma2_to64, lemma_pow2_strictly_increases, lemma_pow2_unfold, pow2};

use crate::protocol::{ClientError, RequestError, ResponseError};
use crate::text::same_text;

verus! {

/// How long a client waits for a server, in milliseconds, unless told otherwise.
pub const DEFAULT_TIMEOUT_MILLIS: u64 = 500;

/// Struct to help implementing pooling: what each pooled client is built from.
pub struct ClientConnectionManager<S> {
    pub(crate) members_storage: S,
    pub(crate) timeout_millis: u64,
}

impl<S> ClientConnectionManager<S> {
    /// The storage the manager was made with.
    pub closed spec fn storage(&self) -> S {
        self.members_storage
    }

    /// The timeout the manager was made with.
    pub closed spec fn timeout(&self) -> u64 {
        self.timeout_millis
    }

    pub fn new(members_storage: S) -> (r: Self)
        ensures
            r.storage() == members_storage,
            r.timeout() == DEFAULT_TIMEOUT_MILLIS,
    {
        ClientConnectionManager { members_storage, timeout_millis: DEFAULT_TIMEOUT_MILLIS }
    }

    /// The storage each pooled client discovers servers with.
    pub fn members_storage(&self) -> (r: &S)
        ensures
            *r == self.storage(),
    {
        &self.members_storage
    }

    /// The timeout each pooled client uses.
    pub fn timeout_millis(&self) -> (r: u64)
        ensures
            r == self.timeout(),
    {
        self.timeout_millis
    }
}

/// The list of active servers is fetched when none is known yet, or when it
/// was marked stale.
pub fn needs_refresh(servers_known: bool, ts_active_servers_refresh: u64) -> (r: bool)
    ensures
        r == !(servers_known && ts_active_servers_refresh > 0),
{
    !(servers_known && ts_active_servers_refresh > 0)
}

/// Whether `address` is one of `servers`.
pub fn is_listed(servers: &Vec<String>, address: &str) -> (r: bool)
    ensures
        r == exists|i: int| 0 <= i < servers@.len() && (#[trigger] servers@[i])@ == address@,
{
    let n = servers.len();
    let mut i: usize = 0;
    while i < n
        invariant
            n == servers@.len(),
            i <= n,
            forall|t: int| 0 <= t < i ==> (#[trigger] servers@[t])@ != address@,
        decreases n - i,
    {
        if same_text(servers[i].as_str(), address) {
            return true;
        }
        i = i + 1;
    }
    false
}

/// First look at the active servers before using `address`: with no known
/// or no active server there is nothing to connect to; otherwise it tells
/// whether `address` is listed (if not, the list is fetched again).
pub fn first_server_check(active_servers: &Option<Vec<String>>, address: &str) -> (r: Result<bool, ClientError>)
    ensures
        match active_servers {
            None => r == Err::<bool, ClientError>(ClientError::NoServersAvailable),
            Some(s) => if s@.len() == 0 {
                r == Err::<bool, ClientError>(ClientError::NoServersAvailable)
            } else {
                r == Ok::<bool, ClientError>(exists|i: int| 0 <= i < s@.len() && (#[trigger] s@[i])@ == address@)
            },
        },
{
    match active_servers {
        None => Err(ClientError::NoServersAvailable),
        Some(servers) => {
            if servers.len() == 0 {
                Err(ClientError::NoServersAvailable)
            } else {
                Ok(is_listed(servers, address))
            }
        },
    }
}

/// Last look at the active servers: `address` must be listed by now.
pub fn second_server_check(active_servers: &Option<Vec<String>>, address: &str) -> (r: Result<(), ClientError>)
    ensures
        match active_servers {
            None => r == Err::<(), ClientError>(ClientError::NoServersAvailable),
            Some(s) => if exists|i: int| 0 <= i < s@.len() && (#[trigger] s@[i])@ == address@ {
                r is Ok
            } else {
                r matches Err(ClientError::ServerNotAvailable(a)) && a@ == address@
            },
        },
{
    match active_servers {
        None => Err(ClientError::NoServersAvailable),
        Some(servers) => {
            if is_listed(servers, address) {
                Ok(())
            } else {
                Err(ClientError::ServerNotAvailable(address.to_owned()))
            }
        },
    }
}

/// `SliceRandom::choose` with the thread's random generator: one of the
/// servers, `None` when there is none. Which one is not stated.
#[verifier::external_body]
fn choose_server(servers: &Vec<String>) -> (r: Option<String>)
    ensures
        (r is Some) == (servers@.len() > 0),
        r matches Some(s) ==> exists|i: int| 0 <= i < servers@.len() && servers@[i] == s,
{
    servers.choose(&mut rand::thread_rng()).cloned()
}

/// The server a service object's requests go to: the cached placement if
/// there is one, else a random active server.
pub fn service_object_address(cached: Option<String>, active_servers: &Option<Vec<String>>) -> (r: Result<String, ClientError>)
    ensures
        match cached {
            Some(a) => r == Ok::<String, ClientError>(a),
            None => match active_servers {
                None => r == Err::<String, ClientError>(ClientError::NoServersAvailable),
                Some(s) => if s@.len() == 0 {
                    r == Err::<String, ClientError>(ClientError::NoServersAvailable)
                } else {
                    r matches Ok(a) && exists|i: int| 0 <= i < s@.len() && s@[i] == a
                },
            },
        },
{
    match cached {
        Some(address) => Ok(address),
        None => match active_servers {
            None => Err(ClientError::NoServersAvailable),
            Some(servers) => match choose_server(servers) {
                Some(s) => Ok(s),
                None => Err(ClientError::NoServersAvailable),
            },
        },
    }
}

/// `lru::LruCache`, an opaque type here: what a cache of placements holds
/// is named by `lru_contents`, and its capacity by `lru_capacity`.
#[verifier::external_type_specification]
#[verifier::external_body]
#[verifier::reject_recursive_types(K)]
#[verifier::reject_recursive_types(V)]
#[verifier::reject_recursive_types(S)]
pub struct ExLruCache<K, V, S>(LruCache<K, V, S>);

/// `lru::DefaultHasher`, the hasher an `LruCache` is made with by default;
/// opaque here.
#[verifier::external_type_specification]
#[verifier::external_body]
pub struct ExLruHasher(lru::DefaultHasher);

/// Placements as a map: `(type, id)` to server address.
pub type PlacementMap = Map<(Seq<char>, Seq<char>), Seq<char>>;

/// What an LRU cache of placements holds: `(type, id)` to server address.
pub uninterp spec fn lru_contents(c: LruCache<(String, String), String>) -> PlacementMap;

/// How many entries an LRU cache of placements may hold (the capacity it
/// was made with).
pub uninterp spec fn lru_capacity(c: LruCache<(String, String), String>) -> nat;

/// The keys of an LRU cache of placements, the most recently used first.
pub uninterp spec fn lru_order(c: LruCache<(String, String), String>) -> Seq<(Seq<char>, Seq<char>)>;

/// A recency order without the key `k`.
pub open spec fn without_key(order: Seq<(Seq<char>, Seq<char>)>, k: (Seq<char>, Seq<char>)) -> Seq<(Seq<char>, Seq<char>)> {
    order.filter(|x: (Seq<char>, Seq<char>)| x != k)
}

/// A recency order lists each key of the contents once, and nothing else.
pub open spec fn orders(order: Seq<(Seq<char>, Seq<char>)>, contents: PlacementMap) -> bool {
    &&& order.no_duplicates()
    &&& forall|k: (Seq<char>, Seq<char>)| #[trigger] order.contains(k) <==> contents.contains_key(k)
}

/// The key of a placement as the cache's contents name it.
pub open spec fn placement_key_view(key: &(String, String)) -> (Seq<char>, Seq<char>) {
    (key.0@, key.1@)
}

/// `LruCache::new`: an empty cache that holds at most `cap` entries.
#[verifier::external_body]
fn lru_new(cap: usize) -> (r: LruCache<(String, String), String>)
    requires
        cap > 0,
    ensures
        lru_contents(r) == PlacementMap::empty(),
        lru_capacity(r) == cap,
        lru_contents(r).dom().finite(),
        lru_order(r) == Seq::<(Seq<char>, Seq<char>)>::empty(),
{
    LruCache::new(NonZeroUsize::new(cap).unwrap())
}

/// `LruCache::get`: the value cached for the key. The entries do not change;
/// a cached key becomes the most recently used. A cache never holds more
/// entries than its capacity, and its order lists each key once.
#[verifier::external_body]
fn lru_get(c: &mut LruCache<(String, String), String>, key: &(String, String)) -> (r: Option<String>)
    ensures
        lru_contents(*final(c)) == lru_contents(*old(c)),
        lru_capacity(*final(c)) == lru_capacity(*old(c)),
        lru_contents(*final(c)).dom().finite(),
        lru_contents(*final(c)).len() <= lru_capacity(*final(c)),
        orders(lru_order(*final(c)), lru_contents(*final(c))),
        lru_order(*final(c)) == if lru_contents(*old(c)).contains_key(placement_key_view(key)) {
            seq![placement_key_view(key)] + without_key(lru_order(*old(c)), placement_key_view(key))
        } else {
            lru_order(*old(c))
        },
        match r {
            Some(v) => lru_contents(*old(c)).contains_key(placement_key_view(key))
                && v@ == lru_contents(*old(c))[placement_key_view(key)],
            None => !lru_contents(*old(c)).contains_key(placement_key_view(key)),
        },
{
    c.get(key).cloned()
}

/// `LruCache::put`: caches the value for the key, which becomes the most
/// recently used. When the key is new and the cache is full, exactly one
/// other entry, the least recently used, makes room; every other entry
/// stays. A cache never holds more entries than its capacity, and its order
/// lists each key once.
#[verifier::external_body]
fn lru_put(c: &mut LruCache<(String, String), String>, key: (String, String), value: String)
    ensures
        lru_capacity(*final(c)) == lru_capacity(*old(c)),
        lru_contents(*final(c)).dom().finite(),
        lru_contents(*final(c)).len() <= lru_capacity(*final(c)),
        !lru_contents(*old(c)).contains_key(placement_key_view(&key)) && lru_contents(*old(c)).len() >= lru_capacity(*old(c))
            ==> lru_contents(*final(c)).len() == lru_contents(*old(c)).len(),
        orders(lru_order(*final(c)), lru_contents(*final(c))),
        lru_contents(*old(c)).contains_key(placement_key_view(&key)) ==> lru_order(*final(c)) == seq![placement_key_view(&key)]
            + without_key(lru_order(*old(c)), placement_key_view(&key)),
        !lru_contents(*old(c)).contains_key(placement_key_view(&key)) && lru_contents(*old(c)).len() < lru_capacity(*old(c))
            ==> lru_order(*final(c)) == seq![placement_key_view(&key)] + lru_order(*old(c)),
        !lru_contents(*old(c)).contains_key(placement_key_view(&key)) && lru_contents(*old(c)).len() >= lru_capacity(*old(c)) ==> {
            &&& lru_order(*final(c)) == seq![placement_key_view(&key)] + lru_order(*old(c)).drop_last()
            &&& lru_contents(*final(c)) == lru_contents(*old(c)).remove(lru_order(*old(c)).last()).insert(
                placement_key_view(&key),
                value@,
            )
        },
        lru_contents(*final(c)).contains_key(placement_key_view(&key)),
        lru_contents(*final(c))[placement_key_view(&key)] == value@,
        forall|k: (Seq<char>, Seq<char>)| #[trigger] lru_contents(*final(c)).contains_key(k) && k != placement_key_view(&key)
            ==> lru_contents(*old(c)).contains_key(k) && lru_contents(*final(c))[k] == lru_contents(*old(c))[k],
        (lru_contents(*old(c)).contains_key(placement_key_view(&key)) || lru_contents(*old(c)).len() < lru_capacity(*old(c)))
            ==> lru_contents(*final(c)) == lru_contents(*old(c)).insert(placement_key_view(&key), value@),
{
    c.put(key, value);
}

/// `LruCache::pop`: removes the key's entry. A cache never holds more
/// entries than its capacity, and its order lists each key once.
#[verifier::external_body]
fn lru_pop(c: &mut LruCache<(String, String), String>, key: &(String, String))
    ensures
        lru_capacity(*final(c)) == lru_capacity(*old(c)),
        lru_contents(*final(c)).dom().finite(),
        lru_contents(*final(c)).len() <= lru_capacity(*final(c)),
        lru_contents(*final(c)) == lru_contents(*old(c)).remove(placement_key_view(key)),
        orders(lru_order(*final(c)), lru_contents(*final(c))),
        lru_order(*final(c)) == without_key(lru_order(*old(c)), placement_key_view(key)),
{
    c.pop(key);
}

/// How many placements a client remembers.
pub const PLACEMENT_CACHE_SIZE: usize = 1000;

/// Where a client last found each service object: `(type, id)` to server
/// address, forgetting the least recently used when full.
pub struct PlacementCache {
    cache: LruCache<(String, String), String>,
}

impl View for PlacementCache {
    type V = PlacementMap;

    closed spec fn view(&self) -> PlacementMap {
        lru_contents(self.cache)
    }
}

impl PlacementCache {
    /// How many placements the cache holds at most.
    pub closed spec fn capacity(&self) -> nat {
        lru_capacity(self.cache)
    }

    /// The cached objects, the most recently used first.
    pub closed spec fn recency(&self) -> Seq<(Seq<char>, Seq<char>)> {
        lru_order(self.cache)
    }

    /// An empty cache of `PLACEMENT_CACHE_SIZE` placements.
    pub fn new() -> (r: PlacementCache)
        ensures
            r@ == PlacementMap::empty(),
            r.capacity() == PLACEMENT_CACHE_SIZE,
            r@.dom().finite(),
            r.recency() == Seq::<(Seq<char>, Seq<char>)>::empty(),
    {
        PlacementCache { cache: lru_new(PLACEMENT_CACHE_SIZE) }
    }

    /// The address cached for an object, which becomes the most recently used.
    pub fn cached(&mut self, handler_type: &str, handler_id: &str) -> (r: Option<String>)
        ensures
            final(self)@ == old(self)@,
            final(self).capacity() == old(self).capacity(),
            final(self)@.dom().finite(),
            final(self)@.len() <= final(self).capacity(),
            orders(final(self).recency(), final(self)@),
            final(self).recency() == if old(self)@.contains_key((handler_type@, handler_id@)) {
                seq![(handler_type@, handler_id@)] + without_key(old(self).recency(), (handler_type@, handler_id@))
            } else {
                old(self).recency()
            },
            match r {
                Some(a) => old(self)@.contains_key((handler_type@, handler_id@)) && a@ == old(self)@[(handler_type@, handler_id@)],
                None => !old(self)@.contains_key((handler_type@, handler_id@)),
            },
    {
        let key = (handler_type.to_owned(), handler_id.to_owned());
        lru_get(&mut self.cache, &key)
    }

    /// Remembers that an object lives at `address`; it becomes the most
    /// recently used. Every other placement stays, except exactly one, the
    /// least recently used (last in `recency`), when the cache is full and the
    /// object is new to it.
    pub fn remember(&mut self, handler_type: &str, handler_id: &str, address: String)
        ensures
            final(self).capacity() == old(self).capacity(),
            final(self)@.dom().finite(),
            final(self)@.len() <= final(self).capacity(),
            !old(self)@.contains_key((handler_type@, handler_id@)) && old(self)@.len() >= old(self).capacity()
                ==> final(self)@.len() == old(self)@.len(),
            orders(final(self).recency(), final(self)@),
            old(self)@.contains_key((handler_type@, handler_id@)) ==> final(self).recency() == seq![(handler_type@, handler_id@)]
                + without_key(old(self).recency(), (handler_type@, handler_id@)),
            !old(self)@.contains_key((handler_type@, handler_id@)) && old(self)@.len() < old(self).capacity()
                ==> final(self).recency() == seq![(handler_type@, handler_id@)] + old(self).recency(),
            !old(self)@.contains_key((handler_type@, handler_id@)) && old(self)@.len() >= old(self).capacity() ==> {
                &&& final(self).recency() == seq![(handler_type@, handler_id@)] + old(self).recency().drop_last()
                &&& final(self)@ == old(self)@.remove(old(self).recency().last()).insert((handler_type@, handler_id@), address@)
            },
            final(self)@.contains_key((handler_type@, handler_id@)),
            final(self)@[(handler_type@, handler_id@)] == address@,
            forall|k: (Seq<char>, Seq<char>)| #[trigger] final(self)@.contains_key(k) && k != (handler_type@, handler_id@)
                ==> old(self)@.contains_key(k) && final(self)@[k] == old(self)@[k],
            (old(self)@.contains_key((handler_type@, handler_id@)) || old(self)@.len() < old(self).capacity())
                ==> final(self)@ == old(self)@.insert((handler_type@, handler_id@), address@),
    {
        let key = (handler_type.to_owned(), handler_id.to_owned());
        lru_put(&mut self.cache, key, address);
    }

    /// Forgets where an object lives.
    pub fn forget(&mut self, handler_type: &str, handler_id: &str)
        ensures
            final(self).capacity() == old(self).capacity(),
            final(self)@.dom().finite(),
            final(self)@.len() <= final(self).capacity(),
            final(self)@ == old(self)@.remove((handler_type@, handler_id@)),
            orders(final(self).recency(), final(self)@),
            final(self).recency() == without_key(old(self).recency(), (handler_type@, handler_id@)),
    {
        let key = (handler_type.to_owned(), handler_id.to_owned());
        lru_pop(&mut self.cache, &key);
    }
}

/// The server an object's requests go to: the cached placement if there
/// is one, else a random active server. The cache does not change.
pub fn object_address(
    cache: &mut PlacementCache,
    handler_type: &str,
    handler_id: &str,
    active_servers: &Option<Vec<String>>,
) -> (r: Result<String, ClientError>)
    ensures
        final(cache)@ == old(cache)@,
        final(cache).capacity() == old(cache).capacity(),
        old(cache)@.contains_key((handler_type@, handler_id@)) ==> (r matches Ok(a) && a@ == old(cache)@[(handler_type@, handler_id@)]),
        !old(cache)@.contains_key((handler_type@, handler_id@)) ==> match active_servers {
            None => r == Err::<String, ClientError>(ClientError::NoServersAvailable),
            Some(s) => if s@.len() == 0 {
                r == Err::<String, ClientError>(ClientError::NoServersAvailable)
            } else {
                r matches Ok(a) && exists|i: int| 0 <= i < s@.len() && s@[i] == a
            },
        },
{
    let cached = cache.cached(handler_type, handler_id);
    service_object_address(cached, active_servers)
}

/// What a subscriber does with one item of its stream.
#[derive(Debug)]
pub enum SubscriptionStep<T> {
    /// The object lives on another server: subscribe again there.
    Reconnect(String),
    /// Hand this item to the subscriber.
    Deliver(Result<T, ClientError>),
}

/// A redirect makes the subscriber reconnect to the server it names; any
/// other item is delivered, an error as a client error.
pub fn subscription_step<T>(item: Result<T, ResponseError>) -> (r: SubscriptionStep<T>)
    ensures
        match item {
            Err(ResponseError::Redirect(to)) => r == SubscriptionStep::<T>::Reconnect(to),
            Err(e) => r == SubscriptionStep::<T>::Deliver(Err(ClientError::ResponseError(e))),
            Ok(v) => r == SubscriptionStep::<T>::Deliver(Ok(v)),
        },
{
    match item {
        Err(ResponseError::Redirect(to)) => SubscriptionStep::Reconnect(to),
        Err(e) => SubscriptionStep::Deliver(Err(ClientError::ResponseError(e))),
        Ok(v) => SubscriptionStep::Deliver(Ok(v)),
    }
}

/// Shortest wait before a retry, in nanoseconds.
pub const RETRY_MIN_NANOS: u64 = 1_000;

/// Longest wait before a retry, in nanoseconds.
pub const RETRY_MAX_NANOS: u64 = 2_000_000_000;

/// Retries allowed before the error is returned.
pub const MAX_RETRIES: u64 = 20;

/// Where a redirected request stands: how often it was retried and how long
/// the next wait is.
#[derive(Clone, Copy, Debug, PartialEq, Eq, Structural)]
pub struct RetryState {
    pub retry_count: u64,
    pub retry_nanos: u64,
}

impl RetryState {
    /// No retry yet; the first wait is the shortest.
    pub fn new() -> (r: RetryState)
        ensures
            r == (RetryState { retry_count: 0, retry_nanos: RETRY_MIN_NANOS }),
    {
        RetryState { retry_count: 0, retry_nanos: RETRY_MIN_NANOS }
    }
}

/// What the request loop does after one attempt.
#[derive(Debug)]
pub enum RedirectStep<E> {
    /// The request is done: this is its result.
    Finish(Result<Vec<u8>, RequestError<E>>),
    /// The object lives on this server: remember it and try again at once.
    Redirect(String),
    /// The server is gone: forget the placement, refresh the servers, wait
    /// this many nanoseconds and try again.
    Retry(u64),
}

/// Errors after which the server tried is taken as gone.
pub open spec fn is_server_gone<E>(e: RequestError<E>) -> bool {
    match e {
        RequestError::ResponseError(ResponseError::DeallocateServiceObject) => true,
        RequestError::ClientError(ClientError::Disconnect) => true,
        RequestError::ClientError(ClientError::ServerNotAvailable(_)) => true,
        RequestError::ClientError(ClientError::IoError(_)) => true,
        _ => false,
    }
}

/// The next wait: twice the last, kept between the shortest and the longest.
pub open spec fn next_wait(nanos: u64) -> u64 {
    let d = 2 * nanos;
    if d < RETRY_MIN_NANOS {
        RETRY_MIN_NANOS
    } else if d > RETRY_MAX_NANOS {
        RETRY_MAX_NANOS
    } else {
        d as u64
    }
}

/// What follows one attempt of a request: a redirect is followed at once; an
/// error after which the server is taken as gone is retried (after the
/// current wait, with the count up by one and the next wait doubled) while
/// the count has not passed `MAX_RETRIES`; everything else finishes the
/// request with that response.
pub open spec fn redirect_outcome<E>(state: RetryState, response: Result<Vec<u8>, RequestError<E>>) -> (RetryState, RedirectStep<E>) {
    match response {
        Err(RequestError::ResponseError(ResponseError::Redirect(to))) => (state, RedirectStep::Redirect(to)),
        Err(e) => if is_server_gone(e) && state.retry_count <= MAX_RETRIES {
            (
                RetryState { retry_count: (state.retry_count + 1) as u64, retry_nanos: next_wait(state.retry_nanos) },
                RedirectStep::Retry(state.retry_nanos),
            )
        } else {
            (state, RedirectStep::Finish(Err(e)))
        },
        Ok(v) => (state, RedirectStep::Finish(Ok(v))),
    }
}

/// Decides what follows one attempt of a request.
pub fn redirect_step<E>(state: RetryState, response: Result<Vec<u8>, RequestError<E>>) -> (r: (RetryState, RedirectStep<E>))
    requires
        RETRY_MIN_NANOS <= state.retry_nanos <= RETRY_MAX_NANOS,
    ensures
        RETRY_MIN_NANOS <= r.0.retry_nanos <= RETRY_MAX_NANOS,
        r == redirect_outcome(state, response),
{
    match response {
        Err(RequestError::ResponseError(ResponseError::Redirect(to))) => (state, RedirectStep::Redirect(to)),
        Err(e) => {
            let gone = match &e {
                RequestError::ResponseError(ResponseError::DeallocateServiceObject) => true,
                RequestError::ClientError(ClientError::Disconnect) => true,
                RequestError::ClientError(ClientError::ServerNotAvailable(_)) => true,
                RequestError::ClientError(ClientError::IoError(_)) => true,
                _ => false,
            };
            if gone && state.retry_count <= MAX_RETRIES {
                let doubled = state.retry_nanos * 2;
                let next = if doubled < RETRY_MIN_NANOS {
                    RETRY_MIN_NANOS
                } else if doubled > RETRY_MAX_NANOS {
                    RETRY_MAX_NANOS
                } else {
                    doubled
                };
                (RetryState { retry_count: state.retry_count + 1, retry_nanos: next }, RedirectStep::Retry(state.retry_nanos))
            } else {
                (state, RedirectStep::Finish(Err(e)))
            }
        },
        Ok(v) => (state, RedirectStep::Finish(Ok(v))),
    }
}

/// What the cache learns from a step of the request loop: a redirect tells
/// where the object lives; a server that is gone loses the object's
/// placement; a finished request teaches nothing.
pub fn note_step<E>(cache: &mut PlacementCache, handler_type: &str, handler_id: &str, step: &RedirectStep<E>)
    ensures
        final(cache).capacity() == old(cache).capacity(),
        match step {
            RedirectStep::Redirect(to) => final(cache)@.contains_key((handler_type@, handler_id@))
                && final(cache)@[(handler_type@, handler_id@)] == to@
                && final(cache)@.len() <= final(cache).capacity()
                && (!old(cache)@.contains_key((handler_type@, handler_id@)) && old(cache)@.len() >= old(cache).capacity()
                    ==> final(cache)@ == old(cache)@.remove(old(cache).recency().last()).insert((handler_type@, handler_id@), to@))
                && forall|k: (Seq<char>, Seq<char>)| #[trigger] final(cache)@.contains_key(k) && k != (handler_type@, handler_id@)
                    ==> old(cache)@.contains_key(k) && final(cache)@[k] == old(cache)@[k],
            RedirectStep::Retry(_) => final(cache)@ == old(cache)@.remove((handler_type@, handler_id@)),
            RedirectStep::Finish(_) => final(cache)@ == old(cache)@,
        },
{
    match step {
        RedirectStep::Redirect(to) => cache.remember(handler_type, handler_id, to.clone()),
        RedirectStep::Retry(_) => cache.forget(handler_type, handler_id),
        RedirectStep::Finish(_) => {},
    }
}

/// A request whose server keeps being gone is retried while the retry count
/// has not passed `MAX_RETRIES`, each retry adding one to the count, and is
/// finished with the error after that; so a request that starts with
/// `RetryState::new()` is retried at most `MAX_RETRIES + 1` times. The waits
/// never leave the allowed range, never shrink, and double while that stays
/// in range.
pub proof fn law_retries_are_bounded<E>(state: RetryState, e: RequestError<E>)
    requires
        RETRY_MIN_NANOS <= state.retry_nanos <= RETRY_MAX_NANOS,
        is_server_gone(e),
    ensures
        state.retry_count <= MAX_RETRIES ==> redirect_outcome(state, Err(e)).1 is Retry
            && redirect_outcome(state, Err(e)).0.retry_count == state.retry_count + 1,
        state.retry_count > MAX_RETRIES ==> redirect_outcome(state, Err(e)).1 == RedirectStep::<E>::Finish(Err(e)),
        RETRY_MIN_NANOS <= redirect_outcome(state, Err(e)).0.retry_nanos <= RETRY_MAX_NANOS,
        redirect_outcome(state, Err(e)).0.retry_nanos >= state.retry_nanos,
        state.retry_count <= MAX_RETRIES && state.retry_nanos <= RETRY_MAX_NANOS / 2
            ==> redirect_outcome(state, Err(e)).0.retry_nanos == 2 * state.retry_nanos,
{
}


/// The retries of a request loop in which every attempt answers `response`,
/// from `state` on: the wait before each retry, in order, and the state in
/// which the loop stops retrying. (A redirect is followed without a retry,
/// so for a redirect answer this stops at once.)
pub open spec fn retry_run<E>(state: RetryState, response: Result<Vec<u8>, RequestError<E>>) -> (Seq<u64>, RetryState)
    decreases MAX_RETRIES + 1 - state.retry_count,
{
    match redirect_outcome(state, response) {
        (next, RedirectStep::Retry(w)) => {
            let rest = retry_run(next, response);
            (seq![w] + rest.0, rest.1)
        },
        _ => (Seq::empty(), state),
    }
}

/// The state of a request loop after `j` retries on a server that is gone.
spec fn state_after_retries(j: nat) -> RetryState {
    RetryState {
        retry_count: j as u64,
        retry_nanos: if j <= MAX_RETRIES {
            (RETRY_MIN_NANOS * pow2(j)) as u64
        } else {
            RETRY_MAX_NANOS
        },
    }
}

/// The retries left after `j` retries on a server that is gone.
proof fn lemma_gone_server_run<E>(j: nat, response: Result<Vec<u8>, RequestError<E>>)
    requires
        j <= MAX_RETRIES + 1,
        response matches Err(e) && is_server_gone(e),
    ensures
        retry_run(state_after_retries(j), response).0.len() == MAX_RETRIES + 1 - j,
        forall|i: int| 0 <= i < retry_run(state_after_retries(j), response).0.len()
            ==> #[trigger] retry_run(state_after_retries(j), response).0[i] == RETRY_MIN_NANOS * pow2((j + i) as nat),
        retry_run(state_after_retries(j), response).1 == state_after_retries((MAX_RETRIES + 1) as nat),
    decreases MAX_RETRIES + 1 - j,
{
    let st = state_after_retries(j);
    if j <= MAX_RETRIES {
        lemma2_to64();
        if j < MAX_RETRIES {
            lemma_pow2_strictly_increases(j, MAX_RETRIES as nat);
        }
        lemma_pow2_unfold(j + 1);
        assert(pow2((j + 1) as nat) == 2 * pow2(j));
        let next = redirect_outcome(st, response).0;
        assert(next == state_after_retries(j + 1));
        lemma_gone_server_run(j + 1, response);
        let rest = retry_run(next, response);
        let run = retry_run(st, response);
        assert(run.0 == seq![st.retry_nanos] + rest.0);
        assert forall|i: int| 0 <= i < run.0.len() implies #[trigger] run.0[i] == RETRY_MIN_NANOS * pow2((j + i) as nat) by {
            if i > 0 {
                assert(run.0[i] == rest.0[i - 1]);
                assert((j + 1 + (i - 1)) as nat == (j + i) as nat);
            }
        }
    }
}

/// A request every attempt of which answers an error after which the server
/// is taken as gone is, from `RetryState::new()`, retried `MAX_RETRIES + 1`
/// times and then finished with that error: `MAX_RETRIES + 2` attempts in
/// all. The waits before the retries are `RETRY_MIN_NANOS` times 1, 2, 4, ...
/// in turn (they stay below `RETRY_MAX_NANOS`). An answer that is neither
/// such an error nor a redirect finishes the request at once, whatever the
/// state.
pub proof fn law_request_loop<E>(state: RetryState, response: Result<Vec<u8>, RequestError<E>>)
    ensures
        (response matches Err(e) && is_server_gone(e)) ==> {
            let run = retry_run(RetryState { retry_count: 0, retry_nanos: RETRY_MIN_NANOS }, response);
            &&& run.0.len() == MAX_RETRIES + 1
            &&& forall|k: int| 0 <= k < run.0.len() ==> #[trigger] run.0[k] == RETRY_MIN_NANOS * pow2(k as nat)
            &&& forall|k: int| 0 <= k < run.0.len() ==> #[trigger] run.0[k] < RETRY_MAX_NANOS
            &&& redirect_outcome(run.1, response).1 == RedirectStep::<E>::Finish(response)
        },
        !(response matches Err(e) && is_server_gone(e)) && !(response matches Err(
            RequestError::ResponseError(ResponseError::Redirect(_)),
        )) ==> redirect_outcome(state, response) == (state, RedirectStep::<E>::Finish(response)),
{
    if response matches Err(e) && is_server_gone(e) {
        lemma2_to64();
        assert(state_after_retries(0) == (RetryState { retry_count: 0, retry_nanos: RETRY_MIN_NANOS }));
        lemma_gone_server_run(0, response);
        let run = retry_run(state_after_retries(0), response);
        assert forall|k: int| 0 <= k < run.0.len() implies #[trigger] run.0[k] < RETRY_MAX_NANOS by {
            assert(run.0[k] == RETRY_MIN_NANOS * pow2((0 + k) as nat));
            if k < MAX_RETRIES {
                lemma_pow2_strictly_increases(k as nat, MAX_RETRIES as nat);
            }
        }
    }
}


/// The answers after which the server tried is taken as gone (the object
/// had to be deallocated there, the connection dropped, the server is not
/// available, or an I/O error) are retried while the retry count has not
/// passed `MAX_RETRIES`: the step waits the current wait, the count goes up
/// by one and the next wait is the doubled one; past `MAX_RETRIES` they
/// finish the request with that error. A redirect is followed, a success
/// finishes the request with it, and every other error finishes the request
/// with that error at once.
pub proof fn law_gone_server_answers_are_retried<E>(state: RetryState, reason: String, other: RequestError<E>, v: Vec<u8>)
    requires
        RETRY_MIN_NANOS <= state.retry_nanos <= RETRY_MAX_NANOS,
    ensures
        ({
            let next = RetryState { retry_count: (state.retry_count + 1) as u64, retry_nanos: next_wait(state.retry_nanos) };
            let gone = seq![
                RequestError::<E>::ResponseError(ResponseError::DeallocateServiceObject),
                RequestError::<E>::ClientError(ClientError::Disconnect),
                RequestError::<E>::ClientError(ClientError::ServerNotAvailable(reason)),
                RequestError::<E>::ClientError(ClientError::IoError(reason)),
            ];
            &&& forall|i: int| 0 <= i < gone.len() && state.retry_count <= MAX_RETRIES
                ==> redirect_outcome(state, Err(#[trigger] gone[i])) == (next, RedirectStep::<E>::Retry(state.retry_nanos))
            &&& forall|i: int| 0 <= i < gone.len() && state.retry_count > MAX_RETRIES
                ==> redirect_outcome(state, Err(#[trigger] gone[i])) == (state, RedirectStep::<E>::Finish(Err(gone[i])))
        }),
        redirect_outcome(state, Err(RequestError::<E>::ResponseError(ResponseError::Redirect(reason))))
            == (state, RedirectStep::<E>::Redirect(reason)),
        redirect_outcome(state, Ok::<Vec<u8>, RequestError<E>>(v)) == (state, RedirectStep::<E>::Finish(Ok(v))),
        !(other matches RequestError::ResponseError(ResponseError::DeallocateServiceObject))
            && !(other matches RequestError::ResponseError(ResponseError::Redirect(_)))
            && !(other matches RequestError::ClientError(ClientError::Disconnect))
            && !(other matches RequestError::ClientError(ClientError::ServerNotAvailable(_)))
            && !(other matches RequestError::ClientError(ClientError::IoError(_)))
            ==> redirect_outcome(state, Err(other)) == (state, RedirectStep::<E>::Finish(Err(other))),
{
}

} // verus!
