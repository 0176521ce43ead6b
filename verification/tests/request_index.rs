use zed_http::request_index::{request_at_line, scan, Request};

#[test]
fn finds_basic_requests() {
    let src = "\
@host = http://localhost
### one
GET http://example.com/a

### two
POST http://example.com/b
Content-Type: application/json

{\"k\":1}
";
    let reqs = scan(src);
    assert_eq!(reqs.len(), 2);
    assert_eq!(reqs[0].method, "GET");
    assert_eq!(reqs[0].line, 2);
    assert_eq!(reqs[1].method, "POST");
    assert_eq!(reqs[1].line, 5);
}

#[test]
fn skips_method_words_in_bodies() {
    let src = "\
### one
POST http://example.com/x
Content-Type: text/plain

GET-like text that is the body
DELETE this line is also body

### two
GET http://example.com/y
";
    let reqs = scan(src);
    assert_eq!(reqs.len(), 2);
    assert_eq!(reqs[0].method, "POST");
    assert_eq!(reqs[1].method, "GET");
}

#[test]
fn request_at_line_picks_enclosing_request() {
    let reqs = vec![
        Request { line: 2, method: "GET".into(), url: "/a".into() },
        Request { line: 7, method: "POST".into(), url: "/b".into() },
    ];
    assert!(request_at_line(&reqs, 0, 20).is_none(), "before any request");
    assert_eq!(request_at_line(&reqs, 2, 20).unwrap().line, 2);
    assert_eq!(request_at_line(&reqs, 5, 20).unwrap().line, 2);
    assert_eq!(request_at_line(&reqs, 7, 20).unwrap().line, 7);
    assert_eq!(request_at_line(&reqs, 19, 20).unwrap().line, 7);
}

#[test]
fn request_at_line_outside_document_is_none() {
    let reqs = vec![Request { line: 2, method: "GET".into(), url: "/a".into() }];
    assert!(request_at_line(&reqs, 20, 20).is_none());
    assert!(request_at_line(&[], 3, 20).is_none());
}

#[test]
fn scan_uppercases_method_and_keeps_first_url_token() {
    let reqs = scan("  get   http://x/y  HTTP/1.1\r\n");
    assert_eq!(reqs.len(), 1);
    assert_eq!(reqs[0].method, "GET");
    assert_eq!(reqs[0].url, "http://x/y");
    assert_eq!(reqs[0].line, 0);
}

#[test]
fn scan_needs_a_url_after_the_method() {
    assert!(scan("GET\nPOST   \n").is_empty());
    assert!(scan("FETCH http://x\n").is_empty());
}

#[test]
fn scan_accepts_webdav_and_other_protocols() {
    let reqs = scan("PROPFIND /a\n###\nversion-control /b\n###\nWS ws://h\n");
    let methods: Vec<&str> = reqs.iter().map(|r| r.method.as_str()).collect();
    assert_eq!(methods, vec!["PROPFIND", "VERSION-CONTROL", "WS"]);
    let lines: Vec<u32> = reqs.iter().map(|r| r.line).collect();
    assert_eq!(lines, vec![0, 2, 4]);
}

#[test]
fn separator_with_leading_whitespace_ends_a_body() {
    let reqs = scan("GET /a\n   ### next\nPOST /b\n");
    assert_eq!(reqs.len(), 2);
    assert_eq!(reqs[1].line, 2);
    // without the separator the second line is body
    assert_eq!(scan("GET /a\nPOST /b\n").len(), 1);
}

#[test]
fn unicode_whitespace_separates_method_and_url() {
    let reqs = scan("GET\u{00A0}http://x\n");
    assert_eq!(reqs.len(), 1);
    assert_eq!(reqs[0].url, "http://x");
}

#[test]
fn empty_document_has_no_requests() {
    assert!(scan("").is_empty());
}

#[test]
fn scan_of_texts_joined_at_separator() {
    let a = "GET /a\nbody\n";
    let b = "POST /b\n###\nPUT /c\n";
    let joined = format!("{a}###\n{b}");
    let whole = scan(&joined);
    let first = scan(a);
    let second = scan(b);
    let n = a.lines().count() as u32 + 1;
    assert_eq!(whole.len(), first.len() + second.len());
    for (w, f) in whole.iter().zip(first.iter()) {
        assert_eq!((w.line, &w.method, &w.url), (f.line, &f.method, &f.url));
    }
    for (w, s) in whole[first.len()..].iter().zip(second.iter()) {
        assert_eq!((w.line, &w.method, &w.url), (s.line + n, &s.method, &s.url));
    }
    assert_eq!(whole.iter().map(|r| r.line).collect::<Vec<_>>(), vec![0, 3, 5]);
}
