use zed_http::exchange::{Exchange, Header, Meta, RequestResult, Response, Summary, Timings};
use zed_http::response_format::View;

fn summary() -> Summary {
    Summary { total_requests: 1, failed_requests: 0, errored_requests: 0 }
}

fn response(body: &str) -> Response {
    Response {
        status_code: 200,
        status_message: Some("OK".into()),
        protocol: None,
        headers: vec![
            Header { name: "x-b".into(), value: "2".into() },
            Header { name: "Content-Type".into(), value: "text/plain".into() },
            Header { name: "a".into(), value: "1".into() },
        ],
        body: body.into(),
        timings: Some(Timings { total: Some("12".into()) }),
        meta: Some(Meta { size: Some("5 B".into()) }),
    }
}

fn exchange(req: RequestResult) -> Exchange {
    Exchange { requests: vec![req], summary: summary() }
}

#[test]
fn empty_exchange_says_nothing_was_executed() {
    let ex = Exchange { requests: vec![], summary: summary() };
    assert_eq!(zed_http::response_format::format(&ex, View::Full), "(no request executed)\n");
}

#[test]
fn request_without_response() {
    let ex = exchange(RequestResult { name: None, title: Some("t".into()), line: Some(3), response: None });
    assert_eq!(zed_http::response_format::format(&ex, View::Full), "# t\n\n(no response)\n");
}

#[test]
fn full_view_sorts_headers_and_closes_body() {
    let ex = exchange(RequestResult {
        name: Some("login".into()),
        title: Some("ignored".into()),
        line: None,
        response: Some(response("hello")),
    });
    assert_eq!(
        zed_http::response_format::format(&ex, View::Full),
        "# login\n\nHTTP/1.1 200 OK\n# 12 ms · 5 B\n\nContent-Type: text/plain\na: 1\nx-b: 2\n\nhello\n"
    );
}

#[test]
fn headers_only_view_leaves_body_off() {
    let ex = exchange(RequestResult { name: None, title: None, line: None, response: Some(response("hello\n")) });
    let headers = zed_http::response_format::format(&ex, View::HeadersOnly);
    let full = zed_http::response_format::format(&ex, View::Full);
    assert_eq!(headers, "HTTP/1.1 200 OK\n# 12 ms · 5 B\n\nContent-Type: text/plain\na: 1\nx-b: 2\n");
    assert!(full.starts_with(&headers));
    assert_eq!(full, format!("{headers}\nhello\n"));
}

#[test]
fn protocol_missing_message_and_no_size() {
    let mut resp = response("");
    resp.protocol = Some("HTTP/2".into());
    resp.status_code = 404;
    resp.status_message = None;
    resp.meta = Some(Meta { size: Some(String::new()) });
    resp.headers = vec![];
    let ex = exchange(RequestResult { name: None, title: None, line: None, response: Some(resp) });
    assert_eq!(zed_http::response_format::format(&ex, View::Full), "HTTP/2 404 \n# 12 ms\n\n");
}

#[test]
fn no_timing_line_without_total() {
    let mut resp = response("x");
    resp.timings = Some(Timings { total: None });
    resp.headers = vec![];
    let ex = exchange(RequestResult { name: None, title: None, line: None, response: Some(resp) });
    assert_eq!(zed_http::response_format::format(&ex, View::Full), "HTTP/1.1 200 OK\n\n\nx\n");
}

#[test]
fn header_order_is_by_code_point_with_prefixes_first() {
    let mut resp = response("");
    resp.timings = None;
    resp.headers = vec![
        Header { name: "ab".into(), value: "3".into() },
        Header { name: "a".into(), value: "2".into() },
        Header { name: "B".into(), value: "1".into() },
        Header { name: "é".into(), value: "4".into() },
    ];
    let ex = exchange(RequestResult { name: None, title: None, line: None, response: Some(resp) });
    assert_eq!(zed_http::response_format::format(&ex, View::Full), "HTTP/1.1 200 OK\n\nB: 1\na: 2\nab: 3\né: 4\n");
}
