use zed_http::backend::{
    all_commands, code_actions, command_kind, hover_markdown, inlay_hints, label_parts,
    parse_args, response_file_name, CommandKind, Config,
};
use zed_http::cache::ResponseCache;
use zed_http::exchange::{Exchange, RequestResult, Response, Summary, Timings};
use zed_http::request_index::Request;

fn req() -> Request {
    Request { line: 4, method: "GET".into(), url: "http://x/a".into() }
}

#[test]
fn config_binary_defaults_to_httpyac() {
    assert_eq!(Config::default().binary(), "httpyac");
    let c = Config { httpyac_path: Some("/opt/httpyac".into()) };
    assert_eq!(c.binary(), "/opt/httpyac");
}

#[test]
fn commands_are_announced_and_recognized() {
    assert_eq!(all_commands(), vec!["zed-http.send", "zed-http.show", "zed-http.save", "zed-http.headers"]);
    assert_eq!(command_kind("zed-http.send"), Some(CommandKind::Send));
    assert_eq!(command_kind("zed-http.show"), Some(CommandKind::Show));
    assert_eq!(command_kind("zed-http.headers"), Some(CommandKind::Headers));
    assert_eq!(command_kind("zed-http.save"), Some(CommandKind::Save));
    assert_eq!(command_kind("zed-http.other"), None);
}

#[test]
fn label_parts_offer_show_only_when_cached() {
    let uri = "file:///a.http".to_string();
    let plain = label_parts(&uri, 2, false);
    let values: Vec<&str> = plain.iter().map(|p| p.value.as_str()).collect();
    assert_eq!(values, vec![" ", "▶ Send", " ", "💾 Save"]);
    let cmd = plain[1].command.as_ref().unwrap();
    assert_eq!((cmd.command.as_str(), cmd.uri.as_str(), cmd.line), ("zed-http.send", "file:///a.http", 2));
    assert_eq!(plain[1].tooltip.as_deref(), Some("Send this HTTP request via httpyac"));
    assert!(plain[0].tooltip.is_none() && plain[0].command.is_none());
    let cached = label_parts(&uri, 2, true);
    let values: Vec<&str> = cached.iter().map(|p| p.value.as_str()).collect();
    assert_eq!(values, vec![" ", "▶ Send", " ", "👁 Show", " ", "◉ Headers", " ", "💾 Save"]);
    assert_eq!(cached[5].command.as_ref().unwrap().command, "zed-http.headers");
}

#[test]
fn code_actions_follow_cache() {
    let uri = "file:///a.http".to_string();
    let titles: Vec<String> = code_actions(&uri, 1, false).into_iter().map(|a| a.title).collect();
    assert_eq!(titles, vec!["▶ Send Request", "💾 Save Response"]);
    let actions = code_actions(&uri, 1, true);
    let titles: Vec<&str> = actions.iter().map(|a| a.title.as_str()).collect();
    assert_eq!(titles, vec!["▶ Send Request", "👁 Show Response", "◉ Show Headers", "💾 Save Response"]);
    assert!(actions.iter().all(|a| a.kind == "zed-http" && a.command.line == 1));
    assert_eq!(actions[2].command.command, "zed-http.headers");
}

#[test]
fn inlay_hints_one_per_request() {
    let uri = "file:///a.http".to_string();
    let mut cache = ResponseCache::new();
    let reqs = vec![req(), Request { line: 9, method: "POST".into(), url: "/b".into() }];
    cache.insert(uri.clone(), 9, Exchange { requests: vec![], summary: Summary { total_requests: 0, failed_requests: 0, errored_requests: 0 } });
    let hints = inlay_hints(&uri, &reqs, &cache);
    assert_eq!(hints.len(), 2);
    assert_eq!((hints[0].line, hints[0].character), (4, u32::MAX));
    assert_eq!(hints[0].tooltip, "GET http://x/a");
    assert_eq!(hints[0].label.len(), 4);
    assert_eq!(hints[1].label.len(), 8);
    assert!(hints[1].padding_left);
}

#[test]
fn hover_texts() {
    assert_eq!(
        hover_markdown(&req(), None, "10:00:00"),
        "**GET** `http://x/a`\n\n_No response cached. Trigger ‘Send Request’ from a code action._\n"
    );
    let ex = Exchange {
        requests: vec![RequestResult {
            name: None,
            title: None,
            line: None,
            response: Some(Response {
                status_code: 201,
                status_message: Some("Created".into()),
                protocol: None,
                headers: vec![],
                body: String::new(),
                timings: Some(Timings { total: Some("35".into()) }),
                meta: None,
            }),
        }],
        summary: Summary { total_requests: 1, failed_requests: 0, errored_requests: 0 },
    };
    assert_eq!(
        hover_markdown(&req(), Some(&ex), "12:34:56"),
        "**GET** `http://x/a`\n\nLast response: **201 Created** · 35 ms at 12:34:56\n"
    );
    let empty = Exchange { requests: vec![], summary: ex.summary.clone() };
    assert_eq!(hover_markdown(&req(), Some(&empty), "x"), "**GET** `http://x/a`\n");
}

#[test]
fn response_file_names() {
    assert_eq!(response_file_name(Some("api".into()), 7, "20240101-120000", "http-resp"), "api-line7-20240101-120000.http-resp");
    assert_eq!(response_file_name(None, 0, "ts", "resp"), "response-line0-ts.resp");
}

#[test]
fn parse_args_needs_uri_and_line() {
    assert_eq!(parse_args(Some("file:///a.http"), Some(3)), Some(("file:///a.http".to_string(), 3)));
    assert_eq!(parse_args(Some("file:///a.http"), Some(u64::from(u32::MAX) + 6)), Some(("file:///a.http".to_string(), 5)));
    assert_eq!(parse_args(Some("not a url"), Some(1)), None);
    assert_eq!(parse_args(None, Some(1)), None);
    assert_eq!(parse_args(Some("file:///a.http"), None), None);
    assert_eq!(parse_args(Some("HTTP://Example.COM"), Some(0)), Some(("http://example.com/".to_string(), 0)));
}
