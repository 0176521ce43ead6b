//! `send`: the flags of `httpyac send`, and the command line that forwards
//! them to it.

use vstd::prelude::*;
use crate::cli::argv::{
    each, lemma_each_len, opt_number, opt_text, push_each, push_opt_number, push_opt_text, push_str,
    push_string, push_switch, string_views, switch,
};

verus! {

/// The arguments of `send`.
#[derive(Debug)]
pub struct SendArgs {
    /// Path(s) or glob pattern(s) to .http file(s) to execute.
    pub file_name: Vec<String>,
    /// Execute all HTTP requests in the file.
    pub all: bool,
    /// Stop when a test case fails.
    pub bail: bool,
    /// One or more environments to apply (httpyac env files).
    pub env: Vec<String>,
    /// Filter the response output (e.g. `only-failed`).
    pub filter: Option<String>,
    /// Allow insecure server connections (skip TLS verification).
    pub insecure: bool,
    /// Stay in interactive selection mode after each request.
    pub interactive: bool,
    /// Emit JSON output (machine-readable).
    pub json: bool,
    /// Emit JUnit XML output.
    pub junit: bool,
    /// Execute the request at the given line number (1-indexed).
    pub line: Option<u32>,
    /// Execute the request with the given `@name`.
    pub name: Option<String>,
    /// Disable color in stdout.
    pub no_color: bool,
    /// Output format for successful responses.
    pub output: Option<OutputFormat>,
    /// Output format for failed responses.
    pub output_failed: Option<OutputFormat>,
    /// Disable body formatting (return raw bytes).
    pub raw: bool,
    /// Suppress non-essential output.
    pub quiet: bool,
    /// Repeat each request N times.
    pub repeat: Option<u32>,
    /// How repeats are scheduled.
    pub repeat_mode: Option<RepeatMode>,
    /// Send N requests in parallel.
    pub parallel: Option<u32>,
    /// Log only the request line, not the response.
    pub silent: bool,
    /// Execute only requests tagged with the given tag(s).
    pub tag: Vec<String>,
    /// Maximum connection time in milliseconds.
    pub timeout: Option<u32>,
    /// Define one or more variables, e.g. `--var foo=bar baz=qux`.
    pub var: Vec<String>,
    /// Verbose output.
    pub verbose: bool,
}

/// Output format of a response.
#[derive(Debug, Clone, Copy)]
pub enum OutputFormat {
    Short,
    Body,
    Headers,
    Response,
    Exchange,
    /// Print nothing (httpyac's `none`).
    Silent,
}

/// The name of an output format on httpyac's command line.
pub open spec fn output_format_name(f: OutputFormat) -> Seq<char> {
    match f {
        OutputFormat::Short => "short"@,
        OutputFormat::Body => "body"@,
        OutputFormat::Headers => "headers"@,
        OutputFormat::Response => "response"@,
        OutputFormat::Exchange => "exchange"@,
        OutputFormat::Silent => "none"@,
    }
}

impl OutputFormat {
    pub fn as_cli_str(self) -> (s: &'static str)
        ensures
            s@ == output_format_name(self),
    {
        match self {
            OutputFormat::Short => "short",
            OutputFormat::Body => "body",
            OutputFormat::Headers => "headers",
            OutputFormat::Response => "response",
            OutputFormat::Exchange => "exchange",
            OutputFormat::Silent => "none",
        }
    }
}

/// How repeated requests are scheduled.
#[derive(Debug, Clone, Copy)]
pub enum RepeatMode {
    Sequential,
    Parallel,
}

/// The name of a repeat mode on httpyac's command line.
pub open spec fn repeat_mode_name(m: RepeatMode) -> Seq<char> {
    match m {
        RepeatMode::Sequential => "sequential"@,
        RepeatMode::Parallel => "parallel"@,
    }
}

impl RepeatMode {
    pub fn as_cli_str(self) -> (s: &'static str)
        ensures
            s@ == repeat_mode_name(self),
    {
        match self {
            RepeatMode::Sequential => "sequential",
            RepeatMode::Parallel => "parallel",
        }
    }
}

/// `name FORMAT` when an output format is given, nothing otherwise.
#[verifier::opaque]
pub open spec fn opt_format(name: Seq<char>, value: Option<OutputFormat>) -> Seq<Seq<char>> {
    match value {
        Some(f) => seq![name, output_format_name(f)],
        None => Seq::empty(),
    }
}

/// `name MODE` when a repeat mode is given, nothing otherwise.
#[verifier::opaque]
pub open spec fn opt_mode(name: Seq<char>, value: Option<RepeatMode>) -> Seq<Seq<char>> {
    match value {
        Some(m) => seq![name, repeat_mode_name(m)],
        None => Seq::empty(),
    }
}

/// The arguments of `httpyac send` for `a`: the file names, then each flag
/// that is set, in a fixed order.
pub open spec fn send_argv(a: SendArgs) -> Seq<Seq<char>> {
    string_views(a.file_name@) + switch(a.all, "--all"@) + switch(a.bail, "--bail"@) + each(
        "--env"@,
        a.env@,
    ) + opt_text("--filter"@, a.filter) + switch(a.insecure, "--insecure"@) + switch(
        a.interactive,
        "--interactive"@,
    ) + switch(a.json, "--json"@) + switch(a.junit, "--junit"@) + opt_number(
        "--line"@,
        a.line,
    ) + opt_text("--name"@, a.name) + switch(a.no_color, "--no-color"@) + opt_format(
        "--output"@,
        a.output,
    ) + opt_format("--output-failed"@, a.output_failed) + switch(a.raw, "--raw"@) + switch(
        a.quiet,
        "--quiet"@,
    ) + opt_number("--repeat"@, a.repeat) + opt_mode("--repeat-mode"@, a.repeat_mode)
        + opt_number("--parallel"@, a.parallel) + switch(a.silent, "--silent"@) + each(
        "--tag"@,
        a.tag@,
    ) + opt_number("--timeout"@, a.timeout) + each("--var"@, a.var@) + switch(
        a.verbose,
        "--verbose"@,
    )
}

fn push_opt_format(argv: &mut Vec<String>, name: &str, value: Option<OutputFormat>)
    ensures
        string_views(final(argv)@) == string_views(old(argv)@) + opt_format(name@, value),
{
    reveal(opt_format);
    match value {
        Some(f) => {
            push_str(argv, name);
            push_str(argv, f.as_cli_str());
        },
        None => {},
    }
    proof {
        assert(string_views(argv@) =~= string_views(old(argv)@) + opt_format(name@, value));
    }
}

fn push_opt_mode(argv: &mut Vec<String>, name: &str, value: Option<RepeatMode>)
    ensures
        string_views(final(argv)@) == string_views(old(argv)@) + opt_mode(name@, value),
{
    reveal(opt_mode);
    match value {
        Some(m) => {
            push_str(argv, name);
            push_str(argv, m.as_cli_str());
        },
        None => {},
    }
    proof {
        assert(string_views(argv@) =~= string_views(old(argv)@) + opt_mode(name@, value));
    }
}

impl SendArgs {
    /// Re-serializes the parsed arguments into the argv form `httpyac send`
    /// expects, in a stable order.
    pub fn to_argv(&self) -> (argv: Vec<String>)
        ensures
            string_views(argv@) == send_argv(*self),
    {
        let mut argv: Vec<String> = Vec::new();
        let mut i: usize = 0;
        while i < self.file_name.len()
            invariant
                i <= self.file_name.len(),
                string_views(argv@) == string_views(self.file_name@.take(i as int)),
            decreases self.file_name.len() - i,
        {
            push_string(&mut argv, &self.file_name[i]);
            proof {
                assert(string_views(argv@) =~= string_views(self.file_name@.take(i + 1)));
            }
            i += 1;
        }
        proof {
            assert(self.file_name@.take(self.file_name.len() as int) =~= self.file_name@);
        }
        push_switch(&mut argv, self.all, "--all");
        push_switch(&mut argv, self.bail, "--bail");
        push_each(&mut argv, "--env", &self.env);
        push_opt_text(&mut argv, "--filter", &self.filter);
        push_switch(&mut argv, self.insecure, "--insecure");
        push_switch(&mut argv, self.interactive, "--interactive");
        push_switch(&mut argv, self.json, "--json");
        push_switch(&mut argv, self.junit, "--junit");
        push_opt_number(&mut argv, "--line", self.line);
        push_opt_text(&mut argv, "--name", &self.name);
        push_switch(&mut argv, self.no_color, "--no-color");
        push_opt_format(&mut argv, "--output", self.output);
        push_opt_format(&mut argv, "--output-failed", self.output_failed);
        push_switch(&mut argv, self.raw, "--raw");
        push_switch(&mut argv, self.quiet, "--quiet");
        push_opt_number(&mut argv, "--repeat", self.repeat);
        push_opt_mode(&mut argv, "--repeat-mode", self.repeat_mode);
        push_opt_number(&mut argv, "--parallel", self.parallel);
        push_switch(&mut argv, self.silent, "--silent");
        push_each(&mut argv, "--tag", &self.tag);
        push_opt_number(&mut argv, "--timeout", self.timeout);
        push_each(&mut argv, "--var", &self.var);
        push_switch(&mut argv, self.verbose, "--verbose");
        argv
    }
}

/// Distinct output formats have distinct names on httpyac's command line,
/// and likewise distinct repeat modes.
pub proof fn lemma_cli_names_distinct(f: OutputFormat, g: OutputFormat, m: RepeatMode, n: RepeatMode)
    ensures
        f != g ==> output_format_name(f) != output_format_name(g),
        m != n ==> repeat_mode_name(m) != repeat_mode_name(n),
{
    reveal_strlit("short");
    reveal_strlit("body");
    reveal_strlit("headers");
    reveal_strlit("response");
    reveal_strlit("exchange");
    reveal_strlit("none");
    reveal_strlit("sequential");
    reveal_strlit("parallel");
    if f != g {
        let a = output_format_name(f);
        let b = output_format_name(g);
        if a.len() == b.len() {
            assert(a[0] != b[0] || a[1] != b[1]);
        }
    }
    if m != n {
        assert(repeat_mode_name(m).len() != repeat_mode_name(n).len());
    }
}

/// 1 for a switch that is set, 0 otherwise.
#[verifier::opaque]
pub open spec fn bit(on: bool) -> nat {
    if on {
        1
    } else {
        0
    }
}

/// 1 for a value that is given, 0 otherwise.
#[verifier::opaque]
pub open spec fn given<T>(o: Option<T>) -> nat {
    if o is Some {
        1
    } else {
        0
    }
}

/// The number of switches that are set.
pub open spec fn switches_set(a: SendArgs) -> nat {
    bit(a.all) + bit(a.bail) + bit(a.insecure) + bit(a.interactive) + bit(a.json) + bit(a.junit) + bit(a.no_color) + bit(a.raw) + bit(a.quiet) + bit(a.silent) + bit(a.verbose)
}

/// The number of single-valued options that are given.
pub open spec fn options_given(a: SendArgs) -> nat {
    given(a.filter) + given(a.line) + given(a.name) + given(a.output) + given(a.output_failed) + given(a.repeat) + given(a.repeat_mode) + given(a.parallel) + given(a.timeout)
}

proof fn lemma_piece_lens(a: SendArgs)
    ensures
        switch(a.all, "--all"@).len() == bit(a.all),
        switch(a.bail, "--bail"@).len() == bit(a.bail),
        opt_text("--filter"@, a.filter).len() == 2 * given(a.filter),
        switch(a.insecure, "--insecure"@).len() == bit(a.insecure),
        switch(a.interactive, "--interactive"@).len() == bit(a.interactive),
        switch(a.json, "--json"@).len() == bit(a.json),
        switch(a.junit, "--junit"@).len() == bit(a.junit),
        opt_number("--line"@, a.line).len() == 2 * given(a.line),
        opt_text("--name"@, a.name).len() == 2 * given(a.name),
        switch(a.no_color, "--no-color"@).len() == bit(a.no_color),
        opt_format("--output"@, a.output).len() == 2 * given(a.output),
        opt_format("--output-failed"@, a.output_failed).len() == 2 * given(a.output_failed),
        switch(a.raw, "--raw"@).len() == bit(a.raw),
        switch(a.quiet, "--quiet"@).len() == bit(a.quiet),
        opt_number("--repeat"@, a.repeat).len() == 2 * given(a.repeat),
        opt_mode("--repeat-mode"@, a.repeat_mode).len() == 2 * given(a.repeat_mode),
        opt_number("--parallel"@, a.parallel).len() == 2 * given(a.parallel),
        switch(a.silent, "--silent"@).len() == bit(a.silent),
        opt_number("--timeout"@, a.timeout).len() == 2 * given(a.timeout),
        switch(a.verbose, "--verbose"@).len() == bit(a.verbose),
{
    reveal(bit);
    reveal(given);
    reveal(switch);
    reveal(opt_text);
    reveal(opt_number);
    reveal(opt_format);
    reveal(opt_mode);
}

/// Forwarding drops and invents nothing: besides the file names there is
/// one entry per switch that is set and two per value of every option that
/// is given.
#[verifier::spinoff_prover]
pub proof fn lemma_send_argv_forwards_everything(a: SendArgs)
    ensures
        send_argv(a).len() == a.file_name.len() + switches_set(a) + 2 * options_given(a) + 2 * (
        a.env.len() + a.tag.len() + a.var.len()),
{
    lemma_each_len("--env"@, a.env@);
    lemma_each_len("--tag"@, a.tag@);
    lemma_each_len("--var"@, a.var@);
    lemma_piece_lens(a);
    let s0 = string_views(a.file_name@);
    let s1 = s0 + switch(a.all, "--all"@);
    let s2 = s1 + switch(a.bail, "--bail"@);
    let s3 = s2 + each("--env"@, a.env@);
    let s4 = s3 + opt_text("--filter"@, a.filter);
    let s5 = s4 + switch(a.insecure, "--insecure"@);
    let s6 = s5 + switch(a.interactive, "--interactive"@);
    let s7 = s6 + switch(a.json, "--json"@);
    let s8 = s7 + switch(a.junit, "--junit"@);
    let s9 = s8 + opt_number("--line"@, a.line);
    let s10 = s9 + opt_text("--name"@, a.name);
    let s11 = s10 + switch(a.no_color, "--no-color"@);
    let s12 = s11 + opt_format("--output"@, a.output);
    let s13 = s12 + opt_format("--output-failed"@, a.output_failed);
    let s14 = s13 + switch(a.raw, "--raw"@);
    let s15 = s14 + switch(a.quiet, "--quiet"@);
    let s16 = s15 + opt_number("--repeat"@, a.repeat);
    let s17 = s16 + opt_mode("--repeat-mode"@, a.repeat_mode);
    let s18 = s17 + opt_number("--parallel"@, a.parallel);
    let s19 = s18 + switch(a.silent, "--silent"@);
    let s20 = s19 + each("--tag"@, a.tag@);
    let s21 = s20 + opt_number("--timeout"@, a.timeout);
    let s22 = s21 + each("--var"@, a.var@);
    let s23 = s22 + switch(a.verbose, "--verbose"@);
}

proof fn lemma_prefix_stays(p: Seq<Seq<char>>, x: Seq<Seq<char>>, y: Seq<Seq<char>>)
    requires
        p.is_prefix_of(x),
    ensures
        p.is_prefix_of(x + y),
{
    assert((x + y).take(p.len() as int) =~= x.take(p.len() as int));
}

/// The file names come first, in order.
pub proof fn lemma_send_argv_files_first(a: SendArgs)
    ensures
        string_views(a.file_name@).is_prefix_of(send_argv(a)),
{
    let s0 = string_views(a.file_name@);
    assert(s0.take(s0.len() as int) =~= s0);
    lemma_prefix_stays(s0, s0, switch(a.all, "--all"@));
    let s1 = s0 + switch(a.all, "--all"@);
    lemma_prefix_stays(s0, s1, switch(a.bail, "--bail"@));
    let s2 = s1 + switch(a.bail, "--bail"@);
    lemma_prefix_stays(s0, s2, each("--env"@, a.env@));
    let s3 = s2 + each("--env"@, a.env@);
    lemma_prefix_stays(s0, s3, opt_text("--filter"@, a.filter));
    let s4 = s3 + opt_text("--filter"@, a.filter);
    lemma_prefix_stays(s0, s4, switch(a.insecure, "--insecure"@));
    let s5 = s4 + switch(a.insecure, "--insecure"@);
    lemma_prefix_stays(s0, s5, switch(a.interactive, "--interactive"@));
    let s6 = s5 + switch(a.interactive, "--interactive"@);
    lemma_prefix_stays(s0, s6, switch(a.json, "--json"@));
    let s7 = s6 + switch(a.json, "--json"@);
    lemma_prefix_stays(s0, s7, switch(a.junit, "--junit"@));
    let s8 = s7 + switch(a.junit, "--junit"@);
    lemma_prefix_stays(s0, s8, opt_number("--line"@, a.line));
    let s9 = s8 + opt_number("--line"@, a.line);
    lemma_prefix_stays(s0, s9, opt_text("--name"@, a.name));
    let s10 = s9 + opt_text("--name"@, a.name);
    lemma_prefix_stays(s0, s10, switch(a.no_color, "--no-color"@));
    let s11 = s10 + switch(a.no_color, "--no-color"@);
    lemma_prefix_stays(s0, s11, opt_format("--output"@, a.output));
    let s12 = s11 + opt_format("--output"@, a.output);
    lemma_prefix_stays(s0, s12, opt_format("--output-failed"@, a.output_failed));
    let s13 = s12 + opt_format("--output-failed"@, a.output_failed);
    lemma_prefix_stays(s0, s13, switch(a.raw, "--raw"@));
    let s14 = s13 + switch(a.raw, "--raw"@);
    lemma_prefix_stays(s0, s14, switch(a.quiet, "--quiet"@));
    let s15 = s14 + switch(a.quiet, "--quiet"@);
    lemma_prefix_stays(s0, s15, opt_number("--repeat"@, a.repeat));
    let s16 = s15 + opt_number("--repeat"@, a.repeat);
    lemma_prefix_stays(s0, s16, opt_mode("--repeat-mode"@, a.repeat_mode));
    let s17 = s16 + opt_mode("--repeat-mode"@, a.repeat_mode);
    lemma_prefix_stays(s0, s17, opt_number("--parallel"@, a.parallel));
    let s18 = s17 + opt_number("--parallel"@, a.parallel);
    lemma_prefix_stays(s0, s18, switch(a.silent, "--silent"@));
    let s19 = s18 + switch(a.silent, "--silent"@);
    lemma_prefix_stays(s0, s19, each("--tag"@, a.tag@));
    let s20 = s19 + each("--tag"@, a.tag@);
    lemma_prefix_stays(s0, s20, opt_number("--timeout"@, a.timeout));
    let s21 = s20 + opt_number("--timeout"@, a.timeout);
    lemma_prefix_stays(s0, s21, each("--var"@, a.var@));
    let s22 = s21 + each("--var"@, a.var@);
    lemma_prefix_stays(s0, s22, switch(a.verbose, "--verbose"@));
    let s23 = s22 + switch(a.verbose, "--verbose"@);
}

/// A given repeat mode is forwarded as itself: the argv holds
/// `--repeat-mode` followed by the mode's own name, `sequential` or
/// `parallel`.
pub proof fn lemma_send_argv_forwards_repeat_mode(a: SendArgs)
    requires
        a.repeat_mode is Some,
    ensures
        exists|k: int|
            0 <= k && k + 1 < send_argv(a).len() && #[trigger] send_argv(a)[k] == "--repeat-mode"@
                && send_argv(a)[k + 1] == match a.repeat_mode {
                Some(RepeatMode::Sequential) => "sequential"@,
                _ => "parallel"@,
            },
{
    reveal(opt_mode);
    let s0 = string_views(a.file_name@);
    let s1 = s0 + switch(a.all, "--all"@);
    let s2 = s1 + switch(a.bail, "--bail"@);
    let s3 = s2 + each("--env"@, a.env@);
    let s4 = s3 + opt_text("--filter"@, a.filter);
    let s5 = s4 + switch(a.insecure, "--insecure"@);
    let s6 = s5 + switch(a.interactive, "--interactive"@);
    let s7 = s6 + switch(a.json, "--json"@);
    let s8 = s7 + switch(a.junit, "--junit"@);
    let s9 = s8 + opt_number("--line"@, a.line);
    let s10 = s9 + opt_text("--name"@, a.name);
    let s11 = s10 + switch(a.no_color, "--no-color"@);
    let s12 = s11 + opt_format("--output"@, a.output);
    let s13 = s12 + opt_format("--output-failed"@, a.output_failed);
    let s14 = s13 + switch(a.raw, "--raw"@);
    let s15 = s14 + switch(a.quiet, "--quiet"@);
    let s16 = s15 + opt_number("--repeat"@, a.repeat);
    let s17 = s16 + opt_mode("--repeat-mode"@, a.repeat_mode);
    assert(s17.take(s17.len() as int) =~= s17);
    lemma_prefix_stays(s17, s17, opt_number("--parallel"@, a.parallel));
    let s18 = s17 + opt_number("--parallel"@, a.parallel);
    lemma_prefix_stays(s17, s18, switch(a.silent, "--silent"@));
    let s19 = s18 + switch(a.silent, "--silent"@);
    lemma_prefix_stays(s17, s19, each("--tag"@, a.tag@));
    let s20 = s19 + each("--tag"@, a.tag@);
    lemma_prefix_stays(s17, s20, opt_number("--timeout"@, a.timeout));
    let s21 = s20 + opt_number("--timeout"@, a.timeout);
    lemma_prefix_stays(s17, s21, each("--var"@, a.var@));
    let s22 = s21 + each("--var"@, a.var@);
    lemma_prefix_stays(s17, s22, switch(a.verbose, "--verbose"@));
    let s23 = s22 + switch(a.verbose, "--verbose"@);
    assert(s23 == send_argv(a));
    let k = s16.len() as int;
    assert(s17[k] == "--repeat-mode"@);
    assert(send_argv(a)[k] == s17[k]);
    assert(send_argv(a)[k + 1] == s17[k + 1]);
}

} // verus!
