//! The `dashmap` maps that hold the editor's documents, their requests and
//! the last responses, and the clock.
//!
//! Each map is named by what it holds, as a mathematical map from keys to
//! values (keys and texts taken by their character sequences; `String`'s
//! `Eq` and `Hash` agree with that view). The methods are wrapped with
//! `&mut` access: `DashMap` mutates through `&self`, and the library's
//! callers hold the map exclusively while they call.

use vstd::prelude::*;
use dashmap::DashMap;
use crate::cache::Cached;
use crate::request_index::{request_views, Request, RequestView};

verus! {

#[verifier::external_type_specification]
#[verifier::external_body]
#[verifier::reject_recursive_types(K)]
#[verifier::reject_recursive_types(V)]
#[verifier::reject_recursive_types(S)]
pub struct ExDashMap<K, V, S>(DashMap<K, V, S>);

/// The response cache: (document URI, anchor line) to the last response.
pub type CacheMap = DashMap<(String, u32), Cached>;

/// The open documents: URI to text.
pub type TextMap = DashMap<String, String>;

/// The requests of each open document: URI to requests.
pub type RequestMap = DashMap<String, Vec<Request>>;

/// The current time as milliseconds since the Unix epoch
/// (`chrono::Local::now().timestamp_millis()`). Nothing is promised of the
/// value: it is the clock's.
#[verifier::external_body]
pub(crate) fn now_millis() -> i64 {
    chrono::Local::now().timestamp_millis()
}

// ---- the response cache: (document URI, anchor line) -> last response ----

/// What a response-cache map holds.
pub uninterp spec fn cache_entries(m: CacheMap) -> Map<(Seq<char>, u32), Cached>;

/// `DashMap::new`: an empty map.
#[verifier::external_body]
pub(crate) fn cache_map_new() -> (m: CacheMap)
    ensures
        cache_entries(m) =~= Map::empty(),
{
    DashMap::new()
}

/// `DashMap::insert`: afterwards the key maps to `value`; every other entry
/// stays as it was.
#[verifier::external_body]
pub(crate) fn cache_map_insert(m: &mut CacheMap, key: (String, u32), value: Cached)
    ensures
        cache_entries(*final(m)) == cache_entries(*old(m)).insert((key.0@, key.1), value),
{
    m.insert(key, value);
}

/// `DashMap::get`, with the entry's value cloned (the clone shares the
/// exchange and copies the time and the path): the value the key maps to,
/// if any.
#[verifier::external_body]
pub(crate) fn cache_map_get(m: &CacheMap, key: &(String, u32)) -> (r: Option<
    Cached,
>)
    ensures
        r == (if cache_entries(*m).contains_key((key.0@, key.1)) {
            Some(cache_entries(*m)[(key.0@, key.1)])
        } else {
            None
        }),
{
    m.get(key).as_deref().cloned()
}

// ---- the documents: URI -> text ----

/// What a document-text map holds.
pub uninterp spec fn text_entries(m: TextMap) -> Map<Seq<char>, Seq<char>>;

/// `DashMap::new`: an empty map.
#[verifier::external_body]
pub(crate) fn text_map_new() -> (m: TextMap)
    ensures
        text_entries(m) =~= Map::empty(),
{
    DashMap::new()
}

/// `DashMap::insert`: afterwards the key maps to `value`; every other entry
/// stays as it was.
#[verifier::external_body]
pub(crate) fn text_map_insert(m: &mut TextMap, key: String, value: String)
    ensures
        text_entries(*final(m)) == text_entries(*old(m)).insert(key@, value@),
{
    m.insert(key, value);
}

/// `DashMap::get`, with the text cloned: the text the key maps to, if any.
#[verifier::external_body]
pub(crate) fn text_map_get(m: &TextMap, key: &String) -> (r: Option<String>)
    ensures
        match r {
            Some(t) => text_entries(*m).contains_key(key@) && t@ == text_entries(*m)[key@],
            None => !text_entries(*m).contains_key(key@),
        },
{
    m.get(key).as_deref().cloned()
}

/// `DashMap::remove`: afterwards the key maps to nothing; every other entry
/// stays as it was.
#[verifier::external_body]
pub(crate) fn text_map_remove(m: &mut TextMap, key: &String)
    ensures
        text_entries(*final(m)) == text_entries(*old(m)).remove(key@),
{
    m.remove(key);
}

// ---- the requests of each document: URI -> requests ----

/// What a request map holds.
pub uninterp spec fn request_entries(m: RequestMap) -> Map<
    Seq<char>,
    Seq<(u32, Seq<char>, Seq<char>)>,
>;

/// `DashMap::new`: an empty map.
#[verifier::external_body]
pub(crate) fn request_map_new() -> (m: RequestMap)
    ensures
        request_entries(m) =~= Map::empty(),
{
    DashMap::new()
}

/// `DashMap::insert`: afterwards the key maps to `value`; every other entry
/// stays as it was.
#[verifier::external_body]
pub(crate) fn request_map_insert(m: &mut RequestMap, key: String, value: Vec<Request>)
    ensures
        request_entries(*final(m)) == request_entries(*old(m)).insert(
            key@,
            request_views(value@),
        ),
{
    m.insert(key, value);
}

/// `DashMap::get`, with the requests cloned (field by field): the requests
/// the key maps to, if any.
#[verifier::external_body]
pub(crate) fn request_map_get(m: &RequestMap, key: &String) -> (r: Option<Vec<Request>>)
    ensures
        match r {
            Some(v) => request_entries(*m).contains_key(key@) && request_views(v@)
                == request_entries(*m)[key@],
            None => !request_entries(*m).contains_key(key@),
        },
{
    m.get(key).as_deref().cloned()
}

/// `DashMap::remove`: afterwards the key maps to nothing; every other entry
/// stays as it was.
#[verifier::external_body]
pub(crate) fn request_map_remove(m: &mut RequestMap, key: &String)
    ensures
        request_entries(*final(m)) == request_entries(*old(m)).remove(key@),
{
    m.remove(key);
}

} // verus!
