use zed_http::cli::oauth2::{Oauth2Args, Oauth2OutputFormat};
use zed_http::cli::send::{OutputFormat, RepeatMode, SendArgs};
use zed_http::cli::Command;

fn bare(files: &[&str]) -> SendArgs {
    SendArgs {
        file_name: files.iter().map(|s| s.to_string()).collect(),
        all: false,
        bail: false,
        env: vec![],
        filter: None,
        insecure: false,
        interactive: false,
        json: false,
        junit: false,
        line: None,
        name: None,
        no_color: false,
        output: None,
        output_failed: None,
        raw: false,
        quiet: false,
        repeat: None,
        repeat_mode: None,
        parallel: None,
        silent: false,
        tag: vec![],
        timeout: None,
        var: vec![],
        verbose: false,
    }
}

#[test]
fn bare_send_forwards_only_files() {
    assert_eq!(bare(&["a.http", "b.http"]).to_argv(), vec!["a.http", "b.http"]);
}

#[test]
fn every_send_flag_is_forwarded_in_order() {
    let args = SendArgs {
        file_name: vec!["x.http".into()],
        all: true,
        bail: true,
        env: vec!["local".into(), "staging".into()],
        filter: Some("only-failed".into()),
        insecure: true,
        interactive: true,
        json: true,
        junit: true,
        line: Some(12),
        name: Some("login".into()),
        no_color: true,
        output: Some(OutputFormat::Exchange),
        output_failed: Some(OutputFormat::Silent),
        raw: true,
        quiet: true,
        repeat: Some(3),
        repeat_mode: Some(RepeatMode::Parallel),
        parallel: Some(4),
        silent: true,
        tag: vec!["smoke".into()],
        timeout: Some(1500),
        var: vec!["foo=1".into(), "bar=2".into()],
        verbose: true,
    };
    let expected: Vec<String> = [
        "x.http", "--all", "--bail", "--env", "local", "--env", "staging", "--filter",
        "only-failed", "--insecure", "--interactive", "--json", "--junit", "--line", "12",
        "--name", "login", "--no-color", "--output", "exchange", "--output-failed", "none",
        "--raw", "--quiet", "--repeat", "3", "--repeat-mode", "parallel", "--parallel", "4",
        "--silent", "--tag", "smoke", "--timeout", "1500", "--var", "foo=1", "--var", "bar=2",
        "--verbose",
    ]
    .iter()
    .map(|s| s.to_string())
    .collect();
    assert_eq!(args.to_argv(), expected);
}

#[test]
fn line_zero_and_max_render_in_decimal() {
    let mut a = bare(&["f"]);
    a.line = Some(0);
    a.timeout = Some(u32::MAX);
    assert_eq!(a.to_argv(), vec!["f", "--line", "0", "--timeout", "4294967295"]);
}

#[test]
fn output_format_names() {
    assert_eq!(OutputFormat::Short.as_cli_str(), "short");
    assert_eq!(OutputFormat::Body.as_cli_str(), "body");
    assert_eq!(OutputFormat::Headers.as_cli_str(), "headers");
    assert_eq!(OutputFormat::Response.as_cli_str(), "response");
    assert_eq!(OutputFormat::Exchange.as_cli_str(), "exchange");
    assert_eq!(OutputFormat::Silent.as_cli_str(), "none");
    assert_eq!(RepeatMode::Sequential.as_cli_str(), "sequential");
    assert_eq!(RepeatMode::Parallel.as_cli_str(), "parallel");
}

#[test]
fn oauth2_forwards_flow_output_and_lists() {
    let args = Oauth2Args {
        flow: "client_credentials".into(),
        prefix: Some("oauth".into()),
        env: vec!["dev".into()],
        output: Oauth2OutputFormat::RefreshToken,
        var: vec!["a=b".into()],
    };
    assert_eq!(
        args.to_argv(),
        vec!["--flow", "client_credentials", "--prefix", "oauth", "--env", "dev", "--output", "refresh_token", "--var", "a=b"]
    );
    assert_eq!(Oauth2OutputFormat::AccessToken.as_cli_str(), "access_token");
    assert_eq!(Oauth2OutputFormat::Response.as_cli_str(), "response");
}

#[test]
fn oauth2_minimal() {
    let args = Oauth2Args {
        flow: "password".into(),
        prefix: None,
        env: vec![],
        output: Oauth2OutputFormat::AccessToken,
        var: vec![],
    };
    assert_eq!(args.to_argv(), vec!["--flow", "password", "--output", "access_token"]);
}

#[test]
fn proxy_argv_starts_with_subcommand() {
    let cmd = Command::Send(bare(&["x.http"]));
    assert_eq!(cmd.proxy_argv(), vec!["send", "x.http"]);
    let cmd = Command::Oauth2(Oauth2Args {
        flow: "implicit".into(),
        prefix: None,
        env: vec![],
        output: Oauth2OutputFormat::Response,
        var: vec![],
    });
    assert_eq!(cmd.proxy_argv(), vec!["oauth2", "--flow", "implicit", "--output", "response"]);
}
