//! `oauth2`: the flags of `httpyac oauth2`, and the command line that
//! forwards them to it.

use vstd::prelude::*;
use crate::cli::argv::{each, lemma_each_len, opt_text, push_each, push_opt_text, push_str, push_string, string_views};

verus! {

/// The arguments of `oauth2`.
#[derive(Debug)]
pub struct Oauth2Args {
    /// OAuth2 flow to use.
    pub flow: String,
    /// Variable prefix used for OAuth2 variables in the env file.
    pub prefix: Option<String>,
    /// One or more environments to apply.
    pub env: Vec<String>,
    /// Output format for the OAuth2 token response.
    pub output: Oauth2OutputFormat,
    /// Define one or more variables, e.g. `--var foo=bar baz=qux`.
    pub var: Vec<String>,
}

/// What `oauth2` prints.
#[derive(Debug, Clone, Copy)]
pub enum Oauth2OutputFormat {
    AccessToken,
    RefreshToken,
    Response,
}

/// The name of an OAuth2 output format on httpyac's command line.
pub open spec fn oauth2_output_name(f: Oauth2OutputFormat) -> Seq<char> {
    match f {
        Oauth2OutputFormat::AccessToken => "access_token"@,
        Oauth2OutputFormat::RefreshToken => "refresh_token"@,
        Oauth2OutputFormat::Response => "response"@,
    }
}

impl Oauth2OutputFormat {
    pub fn as_cli_str(self) -> (s: &'static str)
        ensures
            s@ == oauth2_output_name(self),
    {
        match self {
            Oauth2OutputFormat::AccessToken => "access_token",
            Oauth2OutputFormat::RefreshToken => "refresh_token",
            Oauth2OutputFormat::Response => "response",
        }
    }
}

/// The arguments of `httpyac oauth2` for `a`: the flow, the prefix if any,
/// each environment, the output format, and each variable.
pub open spec fn oauth2_argv(a: Oauth2Args) -> Seq<Seq<char>> {
    seq!["--flow"@, a.flow@] + opt_text("--prefix"@, a.prefix) + each("--env"@, a.env@) + seq![
        "--output"@,
        oauth2_output_name(a.output),
    ] + each("--var"@, a.var@)
}

impl Oauth2Args {
    /// Re-serializes the parsed arguments into the argv form `httpyac oauth2`
    /// expects.
    pub fn to_argv(&self) -> (argv: Vec<String>)
        ensures
            string_views(argv@) == oauth2_argv(*self),
    {
        let mut argv: Vec<String> = Vec::new();
        push_str(&mut argv, "--flow");
        push_string(&mut argv, &self.flow);
        proof {
            assert(string_views(argv@) =~= seq!["--flow"@, self.flow@]);
        }
        push_opt_text(&mut argv, "--prefix", &self.prefix);
        push_each(&mut argv, "--env", &self.env);
        push_str(&mut argv, "--output");
        push_str(&mut argv, self.output.as_cli_str());
        push_each(&mut argv, "--var", &self.var);
        proof {
            assert(string_views(argv@) =~= oauth2_argv(*self));
        }
        argv
    }
}

/// Distinct OAuth2 output formats have distinct names on httpyac's command
/// line.
pub proof fn lemma_oauth2_names_distinct(f: Oauth2OutputFormat, g: Oauth2OutputFormat)
    ensures
        f != g ==> oauth2_output_name(f) != oauth2_output_name(g),
{
    reveal_strlit("access_token");
    reveal_strlit("refresh_token");
    reveal_strlit("response");
    if f != g {
        let a = oauth2_output_name(f);
        let b = oauth2_output_name(g);
        if a.len() == b.len() {
            assert(a[0] != b[0]);
        }
    }
}

/// Forwarding drops and invents nothing: the flow and the output format are
/// always passed, and there are two entries per other value given.
pub proof fn lemma_oauth2_argv_forwards_everything(a: Oauth2Args)
    ensures
        oauth2_argv(a).len() == 4 + (if a.prefix is Some { 2nat } else { 0 }) + 2 * (a.env.len()
            + a.var.len()),
        oauth2_argv(a)[0] == "--flow"@,
        oauth2_argv(a)[1] == a.flow@,
{
    reveal(opt_text);
    lemma_each_len("--env"@, a.env@);
    lemma_each_len("--var"@, a.var@);
}

} // verus!
