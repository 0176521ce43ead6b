use zed_http::cache::ResponseCache;
use zed_http::documents::DocumentStore;
use zed_http::exchange::{Exchange, Summary};

fn ex(n: u32) -> Exchange {
    Exchange {
        requests: vec![],
        summary: Summary { total_requests: n, failed_requests: 0, errored_requests: 0 },
    }
}

#[test]
fn cache_read_after_write() {
    let mut cache = ResponseCache::new();
    let uri = "file:///a.http".to_string();
    assert!(cache.get(&uri, 3).is_none());
    let c = cache.insert(uri.clone(), 3, ex(1));
    assert!(c.temp_path.is_none());
    assert_eq!(c.exchange.summary.total_requests, 1);
    let got = cache.get(&uri, 3).unwrap();
    assert_eq!(got.exchange.summary.total_requests, 1);
    assert_eq!(got.at, c.at);
    assert!(cache.get(&uri, 4).is_none());
    assert!(cache.get(&"file:///b.http".to_string(), 3).is_none());
    cache.insert(uri.clone(), 3, ex(2));
    assert_eq!(cache.get(&uri, 3).unwrap().exchange.summary.total_requests, 2);
}

#[test]
fn attach_temp_path_sets_path_of_cached_entry_only() {
    let mut cache = ResponseCache::new();
    let uri = "file:///a.http".to_string();
    cache.attach_temp_path(&uri, 1, "/tmp/x".into());
    assert!(cache.get(&uri, 1).is_none());
    cache.insert(uri.clone(), 1, ex(7));
    cache.attach_temp_path(&uri, 1, "/tmp/y".into());
    let got = cache.get(&uri, 1).unwrap();
    assert_eq!(got.temp_path.as_deref(), Some("/tmp/y"));
    assert_eq!(got.exchange.summary.total_requests, 7);
}

#[test]
fn store_reindexes_on_open_change_close() {
    let mut store = DocumentStore::new();
    let uri = "file:///r.http".to_string();
    assert!(store.requests_of(&uri).is_none());
    store.open(uri.clone(), "GET /a\n\n###\nPOST /b\nbody\n".into());
    let reqs = store.requests_of(&uri).unwrap();
    assert_eq!(reqs.len(), 2);
    assert_eq!(reqs[1].line, 3);
    let (r, total) = store.enclosing_request(&uri, 4).unwrap();
    assert_eq!((r.line, r.method.as_str(), total), (3, "POST", 5));
    assert!(store.enclosing_request(&uri, 5).is_none());
    store.change(uri.clone(), None);
    assert_eq!(store.requests_of(&uri).unwrap().len(), 2);
    store.change(uri.clone(), Some("DELETE /c\n".into()));
    let reqs = store.requests_of(&uri).unwrap();
    assert_eq!(reqs.len(), 1);
    assert_eq!(reqs[0].method, "DELETE");
    store.close(&uri);
    assert!(store.requests_of(&uri).is_none());
    assert!(store.enclosing_request(&uri, 0).is_none());
}

#[test]
fn final_line_ending_adds_no_line() {
    let mut store = DocumentStore::new();
    let a = "file:///a.http".to_string();
    let b = "file:///b.http".to_string();
    let c = "file:///c.http".to_string();
    store.open(a.clone(), "GET /x\n#c".into());
    store.open(b.clone(), "GET /x\n#c\n".into());
    store.open(c.clone(), "GET /x\n#c\r\n".into());
    assert_eq!(store.enclosing_request(&a, 0).unwrap().1, 2);
    assert_eq!(store.enclosing_request(&b, 0).unwrap().1, 2);
    assert_eq!(store.enclosing_request(&c, 0).unwrap().1, 2);
    assert!(store.enclosing_request(&b, 2).is_none());
}

#[test]
fn anchor_line_gives_its_request() {
    let mut store = DocumentStore::new();
    let uri = "file:///k.http".to_string();
    store.open(uri.clone(), "# intro\nGET /a\nX: 1\n###\n\nPUT /b\n###\nPATCH /c\n".into());
    for r in store.requests_of(&uri).unwrap() {
        let (found, _) = store.enclosing_request(&uri, r.line).unwrap();
        assert_eq!((found.line, found.method.clone(), found.url.clone()), (r.line, r.method, r.url));
    }
    assert!(store.enclosing_request(&uri, 0).is_none());
}

#[test]
fn insert_at_keeps_the_given_stamp() {
    let mut c = ResponseCache::new();
    let stored = c.insert_at("file:///a.http".to_string(), 2, ex(1), 1_700_000_000_000);
    assert_eq!(stored.at, 1_700_000_000_000);
    assert!(stored.temp_path.is_none());
    let again = c.get(&"file:///a.http".to_string(), 2).unwrap();
    assert_eq!(again.at, 1_700_000_000_000);
    let later = c.insert_at("file:///a.http".to_string(), 2, ex(2), -5);
    assert_eq!(later.at, -5);
    assert_eq!(c.get(&"file:///a.http".to_string(), 2).unwrap().at, -5);
}
