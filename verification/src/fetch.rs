//! The lookup-or-fetch sequence: a read of the cache, and on a miss what to
//! ask upstream and what to do with the answer. The caller makes the upstream
//! call between the two steps, with the cache held for the whole sequence.

use crate::classify::{classified, classify, surfaced, Body, Decoded, GatewayError};
use crate::lru::{touch_keeps_wf, written_key_is_in_front, CacheModel, LRU};
use crate::query::{key_of, Query};
use vstd::prelude::*;
use vstd::string::*;

verus! {

/// A lookup that missed the cache: what to ask upstream, and the key under
/// which a good answer is to be cached.
#[derive(Debug, Clone, PartialEq, Eq)]
pub struct Pending {
    /// The key of the lookup.
    pub cache_key: String,
    /// The path to ask upstream for.
    pub upstream_path: String,
}

/// The first step of a lookup.
#[derive(Debug, Clone, PartialEq, Eq)]
pub enum Lookup {
    /// The cache holds a value for the lookup: it is to be read as the
    /// expected shape, and nothing is asked upstream.
    Hit(String),
    /// The cache holds nothing for the lookup: upstream is to be asked.
    Miss(Pending),
}

/// What came of the upstream call.
#[derive(Debug, Clone, PartialEq, Eq)]
pub enum Upstream<R> {
    /// The call failed before any answer came.
    Unreachable,
    /// An answer came, with this status; its body was read as `body`.
    Responded { status: u16, body: Body<R> },
}

/// The upstream path of a lookup of `path`.
pub open spec fn upstream_path_of(path: Seq<char>) -> Seq<char> {
    "/v2"@ + path
}

/// What a lookup comes to, given what came of the upstream call.
pub open spec fn outcome<R>(upstream: Upstream<R>) -> Result<Decoded<R>, GatewayError> {
    match upstream {
        Upstream::Unreachable => Err(GatewayError::UpstreamUnreachable),
        Upstream::Responded { status, body } => surfaced(classified(status, body)),
    }
}

/// The text that goes into the cache: that of a success which could be
/// written back as text, and nothing else.
pub open spec fn cacheable<R>(upstream: Upstream<R>) -> Option<Seq<char>> {
    match outcome(upstream) {
        Ok(decoded) => match decoded.canonical {
            Some(text) => Some(text@),
            None => None,
        },
        Err(_) => None,
    }
}

/// The cache after the upstream call of a lookup with key `key`.
pub open spec fn settled<R>(cache: CacheModel, key: Seq<char>, upstream: Upstream<R>) -> CacheModel {
    match cacheable(upstream) {
        Some(text) => cache.insert(key, text),
        None => cache,
    }
}

/// The path to ask upstream for, given the path of a lookup.
pub fn upstream_path(path: &str) -> (upstream: String)
    ensures
        upstream@ == upstream_path_of(path@),
{
    String::from_str("/v2").concat(path)
}

/// Starts a lookup of `path` with the parameters `query`: reads the cache
/// under the lookup's key. A hit hands out the cached text and makes the key
/// the most recently used one; a miss leaves the cache as it was and says
/// what to ask upstream.
pub fn lookup(cache: &mut LRU, query: &Query, path: &str) -> (step: Lookup)
    ensures
        final(cache)@.wf(),
        final(cache)@ == old(cache)@.touch(key_of(path@, query@)),
        match step {
            Lookup::Hit(value) => old(cache)@.lookup(key_of(path@, query@)) == Some(value@),
            Lookup::Miss(pending) => {
                &&& old(cache)@.lookup(key_of(path@, query@)).is_none()
                &&& final(cache)@ == old(cache)@
                &&& pending.cache_key@ == key_of(path@, query@)
                &&& pending.upstream_path@ == upstream_path_of(path@)
            },
        },
{
    let cache_key = query.cache_key(path);
    match cache.get(cache_key.clone()) {
        Some(value) => Lookup::Hit(value),
        None => Lookup::Miss(Pending { cache_key, upstream_path: upstream_path(path) }),
    }
}

/// The result of a hit, given what the cached text was read as: the value,
/// or a failure to deserialize where the text did not have the expected
/// shape. Such an entry is reported, not fetched again.
pub fn cached_result<R>(decoded: Option<R>) -> (result: Result<R, GatewayError>)
    ensures
        result == match decoded {
            Some(value) => Ok::<R, GatewayError>(value),
            None => Err(GatewayError::DeserializationFailed),
        },
{
    match decoded {
        Some(value) => Ok(value),
        None => Err(GatewayError::DeserializationFailed),
    }
}

/// Ends a lookup that missed, given what came of the upstream call. A 200
/// whose body had the expected shape is the result, and its text goes into
/// the cache under the lookup's key; every other outcome is an error, and
/// the cache stays as it was.
pub fn settle<R>(cache: &mut LRU, pending: Pending, upstream: Upstream<R>) -> (result: Result<
    R,
    GatewayError,
>)
    ensures
        final(cache)@.wf(),
        final(cache)@ == settled(old(cache)@, pending.cache_key@, upstream),
        result == match outcome(upstream) {
            Ok(decoded) => Ok::<R, GatewayError>(decoded.value),
            Err(error) => Err(error),
        },
{
    // The count is not used: the call states that the cache is well formed.
    let _ = cache.len();
    match upstream {
        Upstream::Unreachable => Err(GatewayError::UpstreamUnreachable),
        Upstream::Responded { status, body } => match classify(status, body).surface() {
            Ok(decoded) => {
                match decoded.canonical {
                    Some(text) => cache.insert(pending.cache_key, text),
                    None => {},
                }
                Ok(decoded.value)
            },
            Err(error) => Err(error),
        },
    }
}

/// After a lookup that missed and a good answer, a lookup with the same
/// parameters under the same path is a hit with the text that was cached: the
/// upstream service is asked once.
pub proof fn repeated_lookup_hits(
    cache: CacheModel,
    path: Seq<char>,
    first: Map<Seq<char>, Option<Seq<char>>>,
    second: Map<Seq<char>, Option<Seq<char>>>,
    text: Seq<char>,
)
    requires
        cache.wf(),
        first =~= second,
    ensures
        key_of(path, first) == key_of(path, second),
        cache.touch(key_of(path, first)).insert(key_of(path, first), text).lookup(
            key_of(path, second),
        ) == Some(text),
{
    let key = key_of(path, first);
    touch_keeps_wf(cache, key);
    written_key_is_in_front(cache.touch(key), key, text);
}

/// Nothing but a good answer is cached: where a lookup fails, for whatever
/// reason, the cache is what it was, so that the next lookup asks upstream
/// again.
pub proof fn failures_are_not_cached<R>(cache: CacheModel, key: Seq<char>, upstream: Upstream<R>)
    requires
        outcome(upstream) is Err,
    ensures
        settled(cache, key, upstream) == cache,
{
}

/// What is cached comes from a 200 whose body had the expected shape.
pub proof fn cached_text_comes_from_success<R>(upstream: Upstream<R>)
    requires
        cacheable(upstream) is Some,
    ensures
        upstream matches Upstream::Responded { status, body } && status == 200 && body is Data,
{
}

} // verus!
