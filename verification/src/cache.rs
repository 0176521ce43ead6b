//! The last response of each request, kept per (document URI, anchor line)
//! so that "Show" can display it again without sending the request again.

use std::sync::Arc;
use vstd::prelude::*;
use crate::dash::{
    cache_entries, cache_map_get, cache_map_insert, cache_map_new, now_millis, CacheMap,
};
use crate::exchange::Exchange;

verus! {

/// A cached response.
#[derive(Debug, Clone)]
pub struct Cached {
    pub exchange: Arc<Exchange>,
    /// When the response was stored, in milliseconds since the Unix epoch.
    pub at: i64,
    /// Path to the temp file we last wrote this response into, if any.
    pub temp_path: Option<String>,
}

/// The last response of each request.
#[derive(Debug)]
pub struct ResponseCache {
    inner: CacheMap,
}

/// The cached response for the request at `line` of the document `uri`.
pub open spec fn cached_at(m: Map<(Seq<char>, u32), Cached>, uri: Seq<char>, line: u32) -> Option<
    Cached,
> {
    if m.contains_key((uri, line)) {
        Some(m[(uri, line)])
    } else {
        None
    }
}

/// `m` with the temp-file path of the entry for (`uri`, `line`) set to
/// `path`, if there is such an entry.
pub open spec fn with_temp_path(
    m: Map<(Seq<char>, u32), Cached>,
    uri: Seq<char>,
    line: u32,
    path: String,
) -> Map<(Seq<char>, u32), Cached> {
    if m.contains_key((uri, line)) {
        m.insert((uri, line), Cached { temp_path: Some(path), ..m[(uri, line)] })
    } else {
        m
    }
}

impl View for ResponseCache {
    type V = Map<(Seq<char>, u32), Cached>;

    closed spec fn view(&self) -> Map<(Seq<char>, u32), Cached> {
        cache_entries(self.inner)
    }
}

impl ResponseCache {
    /// An empty cache.
    pub fn new() -> (c: Self)
        ensures
            c@ == Map::<(Seq<char>, u32), Cached>::empty(),
    {
        ResponseCache { inner: cache_map_new() }
    }

    /// Stores `exchange` as the last response of the request at `line` of
    /// `uri`, stamped with the current time and with no temp file yet, and
    /// returns the entry.
    pub fn insert(&mut self, uri: String, line: u32, exchange: Exchange) -> (c: Cached)
        ensures
            *c.exchange == exchange,
            c.temp_path is None,
            final(self)@ == old(self)@.insert((uri@, line), c),
    {
        let at = now_millis();
        self.insert_at(uri, line, exchange, at)
    }

    /// Stores `exchange` as the last response of the request at `line` of
    /// `uri`, stamped with `at` (milliseconds since the Unix epoch) and with
    /// no temp file yet, and returns the entry.
    pub fn insert_at(&mut self, uri: String, line: u32, exchange: Exchange, at: i64) -> (c: Cached)
        ensures
            *c.exchange == exchange,
            c.at == at,
            c.temp_path is None,
            final(self)@ == old(self)@.insert((uri@, line), c),
    {
        let cached = Cached { exchange: Arc::new(exchange), at, temp_path: None };
        let key = (uri, line);
        let probe = (key.0.clone(), line);
        cache_map_insert(&mut self.inner, key, cached);
        // hand back a clone of the stored entry, as the map hands entries out
        let stored = cache_map_get(&self.inner, &probe);
        stored.unwrap()
    }

    /// Records the temp file that the response of the request at `line` of
    /// `uri` was last written into; does nothing if no response is cached.
    pub fn attach_temp_path(&mut self, uri: &String, line: u32, path: String)
        ensures
            final(self)@ == with_temp_path(old(self)@, uri@, line, path),
    {
        let key = (uri.clone(), line);
        // the entry is updated by storing a copy with the new path
        match cache_map_get(&self.inner, &key) {
            Some(entry) => {
                let updated = Cached { temp_path: Some(path), ..entry };
                cache_map_insert(&mut self.inner, key, updated);
            },
            None => {},
        }
    }

    /// The cached response of the request at `line` of `uri`, if any.
    pub fn get(&self, uri: &String, line: u32) -> (r: Option<Cached>)
        ensures
            r == cached_at(self@, uri@, line),
    {
        let key = (uri.clone(), line);
        cache_map_get(&self.inner, &key)
    }
}

/// A read after a write gives back what was written: after storing `c` for
/// (`uri`, `line`), that request's cached response is `c`, and every other
/// request's is as before.
pub proof fn lemma_cache_read_after_write(
    m: Map<(Seq<char>, u32), Cached>,
    uri: Seq<char>,
    line: u32,
    c: Cached,
    other_uri: Seq<char>,
    other_line: u32,
)
    ensures
        cached_at(m.insert((uri, line), c), uri, line) == Some(c),
        (other_uri, other_line) != (uri, line) ==> cached_at(
            m.insert((uri, line), c),
            other_uri,
            other_line,
        ) == cached_at(m, other_uri, other_line),
{
}

/// Attaching a temp file keeps the cached response and only sets its path;
/// it caches nothing new and touches no other request.
pub proof fn lemma_attach_keeps_response(
    m: Map<(Seq<char>, u32), Cached>,
    uri: Seq<char>,
    line: u32,
    path: String,
    other_uri: Seq<char>,
    other_line: u32,
)
    ensures
        cached_at(with_temp_path(m, uri, line, path), uri, line) == match cached_at(m, uri, line) {
            Some(c) => Some(Cached { temp_path: Some(path), ..c }),
            None => None,
        },
        (other_uri, other_line) != (uri, line) ==> cached_at(
            with_temp_path(m, uri, line, path),
            other_uri,
            other_line,
        ) == cached_at(m, other_uri, other_line),
        with_temp_path(m, uri, line, path).dom() == m.dom(),
{
    if m.contains_key((uri, line)) {
        assert(with_temp_path(m, uri, line, path).dom() =~= m.dom());
    }
}

} // verus!
