use zed_http::error::{exit_error, spawn_error, Error};
use zed_http::extension::{fallback_candidates, fallback_path, HttpExtension};
use zed_http::send::{invocation_from, SendOptions};

#[test]
fn invocation_runs_send_in_file_directory() {
    let opts = SendOptions { binary: "httpyac", file: "/work/api/requests.http", line: 4 };
    let inv = opts.invocation().unwrap().ok().unwrap();
    assert_eq!(inv.program, "httpyac");
    assert_eq!(inv.cwd, "/work/api");
    assert_eq!(
        inv.args,
        vec!["send", "requests.http", "--line", "5", "--json", "--output", "exchange", "--no-color"]
    );
}

#[test]
fn invocation_without_parent_fails() {
    let opts = SendOptions { binary: "httpyac", file: "/", line: 0 };
    match opts.invocation() {
        Some(Err(Error::NoParent(p))) => assert_eq!(p, "/"),
        _ => panic!("expected NoParent"),
    }
}

#[test]
fn error_messages() {
    assert_eq!(
        Error::NotFound { binary: "hy".into() }.message(),
        "httpyac binary not found at `hy` — install httpyac or point at an explicit path"
    );
    assert_eq!(Error::NonZero { status: -1, stderr: "boom".into() }.message(), "httpyac exited with status -1: boom");
    assert_eq!(Error::NonZero { status: 2, stderr: String::new() }.message(), "httpyac exited with status 2: ");
    assert_eq!(
        Error::NonZero { status: i32::MIN, stderr: "x".into() }.message(),
        "httpyac exited with status -2147483648: x"
    );
    assert_eq!(Error::BadJson("eof".into()).message(), "httpyac output is not valid JSON: eof");
    assert_eq!(Error::Io("denied".into()).message(), "denied");
    assert_eq!(Error::NoParent("/".into()).message(), "file path has no parent directory: /");
}

#[test]
fn server_binary_prefers_configured_then_path_then_fallback() {
    let s = |v: &str| Some(v.to_string());
    assert_eq!(HttpExtension::server_binary(s("/c"), s("/p"), s("/f")), Ok("/c".to_string()));
    assert_eq!(HttpExtension::server_binary(None, s("/p"), s("/f")), Ok("/p".to_string()));
    assert_eq!(HttpExtension::server_binary(None, None, s("/f")), Ok("/f".to_string()));
    let err = HttpExtension::server_binary(None, None, None).unwrap_err();
    assert!(err.starts_with("could not find `zed-http-lsp` on PATH."));
    assert!(err.ends_with("in your Zed settings."));
}

#[test]
fn fallback_locations() {
    assert_eq!(
        fallback_candidates(Some("/home/u".into())),
        vec!["/home/u/.cargo/bin/zed-http-lsp", "/home/u/.local/bin/zed-http-lsp", "/usr/local/bin/zed-http-lsp"]
    );
    assert_eq!(fallback_candidates(None), vec!["/usr/local/bin/zed-http-lsp"]);
    let c = fallback_candidates(Some("/h".into()));
    assert_eq!(fallback_path(&c, &vec![false, true, true]), Some("/h/.local/bin/zed-http-lsp".to_string()));
    assert_eq!(fallback_path(&c, &vec![false, false, false]), None);
}

#[test]
fn invocation_from_uses_given_parent_and_name() {
    let inv = invocation_from("hy", "/w/a.http", 0, Some("/w".into()), Some("a.http".into()))
        .ok()
        .unwrap();
    assert_eq!((inv.program.as_str(), inv.cwd.as_str()), ("hy", "/w"));
    assert_eq!(inv.args, vec!["send", "a.http", "--line", "1", "--json", "--output", "exchange", "--no-color"]);
    match invocation_from("hy", "/", 3, None, Some("x".into())) {
        Err(Error::NoParent(p)) => assert_eq!(p, "/"),
        _ => panic!("expected NoParent"),
    }
    match invocation_from("hy", "/a/..", 3, Some("/a".into()), None) {
        Err(Error::NoParent(p)) => assert_eq!(p, "/a/.."),
        _ => panic!("expected NoParent"),
    }
}

#[test]
fn invocation_of_dot_dot_path_fails() {
    let opts = SendOptions { binary: "httpyac", file: "/a/..", line: 0 };
    assert!(matches!(opts.invocation(), Some(Err(Error::NoParent(_)))));
}

#[test]
fn invocation_without_parent_fails_on_every_line() {
    let opts = SendOptions { binary: "httpyac", file: "/", line: u32::MAX };
    match opts.invocation() {
        Some(Err(Error::NoParent(p))) => assert_eq!(p, "/"),
        _ => panic!("expected NoParent"),
    }
    match invocation_from("hy", "/", u32::MAX, None, Some("x".into())) {
        Err(Error::NoParent(p)) => assert_eq!(p, "/"),
        _ => panic!("expected NoParent"),
    }
}

#[test]
fn invocation_at_last_line_has_no_flag_value() {
    let opts = SendOptions { binary: "httpyac", file: "/w/a.http", line: u32::MAX };
    assert!(opts.invocation().is_none());
    let opts = SendOptions { binary: "httpyac", file: "/w/a.http", line: u32::MAX - 1 };
    let inv = opts.invocation().unwrap().ok().unwrap();
    assert_eq!(inv.args[3], "4294967295");
}

#[test]
fn spawn_and_exit_errors() {
    match spawn_error(true, "hy", "No such file".to_string()) {
        Error::NotFound { binary } => assert_eq!(binary, "hy"),
        _ => panic!("expected NotFound"),
    }
    match spawn_error(false, "hy", "permission denied".to_string()) {
        Error::Io(m) => assert_eq!(m, "permission denied"),
        _ => panic!("expected Io"),
    }
    match exit_error(Some(3), "bad".to_string()) {
        Error::NonZero { status, stderr } => assert_eq!((status, stderr.as_str()), (3, "bad")),
        _ => panic!("expected NonZero"),
    }
    match exit_error(None, String::new()) {
        Error::NonZero { status, stderr } => assert_eq!((status, stderr.as_str()), (-1, "")),
        _ => panic!("expected NonZero"),
    }
}
