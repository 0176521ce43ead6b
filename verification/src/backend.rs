//! What the language server shows and offers in the editor: the inlay hints
//! above each request, its code actions, its hover text, the commands those
//! carry, and the names of the files that responses are written into.

use vstd::prelude::*;
use crate::cache::{cached_at, ResponseCache};
use crate::exchange::Exchange;
use crate::request_index::Request;
use crate::extern_calls::{file_path_of, file_stem_of, parent_of, url_normalized};
use crate::text::{decimal, decimal_string};

verus! {

/// Command that sends the request.
pub const CMD_SEND: &'static str = "zed-http.send";

/// Command that shows the last response.
pub const CMD_SHOW: &'static str = "zed-http.show";

/// Command that saves the last response next to the document.
pub const CMD_SAVE: &'static str = "zed-http.save";

/// Command that shows only the headers of the last response.
pub const CMD_HEADERS: &'static str = "zed-http.headers";

/// The server's settings.
#[derive(Debug, Default)]
pub struct Config {
    /// Path/name of the httpyac executable. Defaults to "httpyac" (PATH lookup).
    pub httpyac_path: Option<String>,
}

impl Config {
    /// The httpyac executable to run.
    pub fn binary(&self) -> (b: &str)
        ensures
            b@ == match self.httpyac_path {
                Some(p) => p@,
                None => "httpyac"@,
            },
    {
        match &self.httpyac_path {
            Some(p) => p.as_str(),
            None => "httpyac",
        }
    }
}

/// The commands the server executes, in the order it announces them.
pub fn all_commands() -> (v: Vec<String>)
    ensures
        v@.len() == 4,
        v@[0]@ == CMD_SEND@,
        v@[1]@ == CMD_SHOW@,
        v@[2]@ == CMD_SAVE@,
        v@[3]@ == CMD_HEADERS@,
{
    let mut v: Vec<String> = Vec::new();
    v.push(String::from_str(CMD_SEND));
    v.push(String::from_str(CMD_SHOW));
    v.push(String::from_str(CMD_SAVE));
    v.push(String::from_str(CMD_HEADERS));
    v
}

/// The commands, as the server acts on them.
#[derive(Debug, Clone, Copy, PartialEq, Eq, Structural)]
pub enum CommandKind {
    Send,
    Show,
    Headers,
    Save,
}

/// The command named `name`, if it is one of the server's.
pub open spec fn command_named(name: Seq<char>) -> Option<CommandKind> {
    if name == CMD_SEND@ {
        Some(CommandKind::Send)
    } else if name == CMD_SHOW@ {
        Some(CommandKind::Show)
    } else if name == CMD_HEADERS@ {
        Some(CommandKind::Headers)
    } else if name == CMD_SAVE@ {
        Some(CommandKind::Save)
    } else {
        None
    }
}

/// Which of the server's commands `name` is.
pub fn command_kind(name: &str) -> (k: Option<CommandKind>)
    ensures
        k == command_named(name@),
{
    let v = crate::text::chars_of(name);
    if crate::text::chars_eq_str(&v, CMD_SEND) {
        Some(CommandKind::Send)
    } else if crate::text::chars_eq_str(&v, CMD_SHOW) {
        Some(CommandKind::Show)
    } else if crate::text::chars_eq_str(&v, CMD_HEADERS) {
        Some(CommandKind::Headers)
    } else if crate::text::chars_eq_str(&v, CMD_SAVE) {
        Some(CommandKind::Save)
    } else {
        None
    }
}

/// A command the editor runs when the user picks a hint or an action; its
/// arguments are the document URI and the request's anchor line.
#[derive(Debug, Clone)]
pub struct CommandRef {
    pub title: String,
    pub command: String,
    pub uri: String,
    pub line: u32,
}

/// A command as a value: title, command name, URI, line.
pub type CommandView = (Seq<char>, Seq<char>, Seq<char>, u32);

impl View for CommandRef {
    type V = CommandView;

    open spec fn view(&self) -> CommandView {
        (self.title@, self.command@, self.uri@, self.line)
    }
}

/// One part of an inlay hint's label.
#[derive(Debug, Clone)]
pub struct LabelPart {
    pub value: String,
    pub tooltip: Option<String>,
    pub command: Option<CommandRef>,
}

/// A label part as a value: text, tooltip, command.
pub type LabelPartView = (Seq<char>, Option<Seq<char>>, Option<CommandView>);

impl View for LabelPart {
    type V = LabelPartView;

    open spec fn view(&self) -> LabelPartView {
        (
            self.value@,
            match self.tooltip {
                Some(t) => Some(t@),
                None => None,
            },
            match self.command {
                Some(c) => Some(c@),
                None => None,
            },
        )
    }
}

/// The views of a sequence of label parts.
pub open spec fn part_views(s: Seq<LabelPart>) -> Seq<LabelPartView> {
    Seq::new(s.len(), |i: int| s[i]@)
}

/// The blank that separates the parts of a label.
pub open spec fn sep_view() -> LabelPartView {
    (" "@, None, None)
}

/// A clickable label part that runs `command` for the request.
pub open spec fn labeled_view(
    label: Seq<char>,
    tooltip: Seq<char>,
    command: Seq<char>,
    uri: Seq<char>,
    line: u32,
) -> LabelPartView {
    (label, Some(tooltip), Some((label, command, uri, line)))
}

/// The label of the hint above a request: Send, then Show and Headers when
/// a response is cached, then Save, each after a blank.
pub open spec fn label_parts_view(uri: Seq<char>, line: u32, has_cached: bool) -> Seq<
    LabelPartView,
> {
    seq![
        sep_view(),
        labeled_view("▶ Send"@, "Send this HTTP request via httpyac"@, CMD_SEND@, uri, line),
    ] + (if has_cached {
        seq![
            sep_view(),
            labeled_view(
                "👁 Show"@,
                "Re-open the last response for this request"@,
                CMD_SHOW@,
                uri,
                line,
            ),
            sep_view(),
            labeled_view(
                "◉ Headers"@,
                "Show only response headers from the last response"@,
                CMD_HEADERS@,
                uri,
                line,
            ),
        ]
    } else {
        Seq::empty()
    }) + seq![
        sep_view(),
        labeled_view(
            "💾 Save"@,
            "Save the last response to a file next to this .http file"@,
            CMD_SAVE@,
            uri,
            line,
        ),
    ]
}

fn sep() -> (p: LabelPart)
    ensures
        p@ == sep_view(),
{
    LabelPart { value: String::from_str(" "), tooltip: None, command: None }
}

fn labeled_part(label: &str, tooltip: &str, command: &str, uri: &String, line: u32) -> (p:
    LabelPart)
    ensures
        p@ == labeled_view(label@, tooltip@, command@, uri@, line),
{
    LabelPart {
        value: String::from_str(label),
        tooltip: Some(String::from_str(tooltip)),
        command: Some(
            CommandRef {
                title: String::from_str(label),
                command: String::from_str(command),
                uri: uri.clone(),
                line,
            },
        ),
    }
}

/// The label of the hint above the request at `line` of `uri`.
pub fn label_parts(uri: &String, line: u32, has_cached: bool) -> (parts: Vec<LabelPart>)
    ensures
        part_views(parts@) == label_parts_view(uri@, line, has_cached),
{
    let mut parts: Vec<LabelPart> = Vec::new();
    parts.push(sep());
    parts.push(
        labeled_part("▶ Send", "Send this HTTP request via httpyac", CMD_SEND, uri, line),
    );
    if has_cached {
        parts.push(sep());
        parts.push(
            labeled_part(
                "👁 Show",
                "Re-open the last response for this request",
                CMD_SHOW,
                uri,
                line,
            ),
        );
        parts.push(sep());
        parts.push(
            labeled_part(
                "◉ Headers",
                "Show only response headers from the last response",
                CMD_HEADERS,
                uri,
                line,
            ),
        );
    }
    parts.push(sep());
    parts.push(
        labeled_part(
            "💾 Save",
            "Save the last response to a file next to this .http file",
            CMD_SAVE,
            uri,
            line,
        ),
    );
    proof {
        assert(part_views(parts@) =~= label_parts_view(uri@, line, has_cached));
    }
    parts
}

/// An inlay hint above a request.
#[derive(Debug, Clone)]
pub struct Hint {
    /// The anchor line of the request.
    pub line: u32,
    /// The column: the end of the line.
    pub character: u32,
    pub label: Vec<LabelPart>,
    /// `METHOD URL`.
    pub tooltip: String,
    pub padding_left: bool,
}

/// What the hint above `req` holds, when a response is or is not cached.
pub open spec fn hint_is(h: Hint, uri: Seq<char>, req: Request, has_cached: bool) -> bool {
    &&& h.line == req.line
    &&& h.character == u32::MAX
    &&& part_views(h.label@) == label_parts_view(uri, req.line, has_cached)
    &&& h.tooltip@ == req.method@ + " "@ + req.url@
    &&& h.padding_left
}

/// The inlay hints of the document `uri`: one above each request, in order,
/// offering Show and Headers where a response is cached.
pub fn inlay_hints(uri: &String, requests: &Vec<Request>, cache: &ResponseCache) -> (hints: Vec<
    Hint,
>)
    ensures
        hints.len() == requests.len(),
        forall|i: int|
            0 <= i < requests.len() ==> hint_is(
                #[trigger] hints@[i],
                uri@,
                requests@[i],
                cached_at(cache@, uri@, requests@[i].line) is Some,
            ),
{
    let mut hints: Vec<Hint> = Vec::new();
    let mut i: usize = 0;
    while i < requests.len()
        invariant
            i <= requests.len(),
            hints.len() == i,
            forall|k: int|
                0 <= k < i ==> hint_is(
                    #[trigger] hints@[k],
                    uri@,
                    requests@[k],
                    cached_at(cache@, uri@, requests@[k].line) is Some,
                ),
        decreases requests.len() - i,
    {
        let r = &requests[i];
        let has_cached = cache.get(uri, r.line).is_some();
        let mut tooltip = r.method.clone();
        tooltip.append(" ");
        tooltip.append(r.url.as_str());
        let hint = Hint {
            line: r.line,
            character: u32::MAX,
            label: label_parts(uri, r.line, has_cached),
            tooltip,
            padding_left: true,
        };
        hints.push(hint);
        i += 1;
    }
    hints
}

/// A code action offered on a request.
#[derive(Debug, Clone)]
pub struct Action {
    pub title: String,
    /// The action kind, always `zed-http`.
    pub kind: String,
    pub command: CommandRef,
}

/// An action as a value: title, kind, command.
pub type ActionView = (Seq<char>, Seq<char>, CommandView);

impl View for Action {
    type V = ActionView;

    open spec fn view(&self) -> ActionView {
        (self.title@, self.kind@, self.command@)
    }
}

/// The views of a sequence of actions.
pub open spec fn action_views(s: Seq<Action>) -> Seq<ActionView> {
    Seq::new(s.len(), |i: int| s[i]@)
}

/// An action titled `title` that runs `command` for the request.
pub open spec fn action_view(title: Seq<char>, command: Seq<char>, uri: Seq<char>, line: u32) -> ActionView {
    (title, "zed-http"@, (title, command, uri, line))
}

/// The actions on a request: Send, then Show Response and Show Headers when
/// a response is cached, then Save.
pub open spec fn actions_view(uri: Seq<char>, line: u32, has_cached: bool) -> Seq<ActionView> {
    seq![action_view("▶ Send Request"@, CMD_SEND@, uri, line)] + (if has_cached {
        seq![
            action_view("👁 Show Response"@, CMD_SHOW@, uri, line),
            action_view("◉ Show Headers"@, CMD_HEADERS@, uri, line),
        ]
    } else {
        Seq::empty()
    }) + seq![action_view("💾 Save Response"@, CMD_SAVE@, uri, line)]
}

fn action(title: &str, command: &str, uri: &String, line: u32) -> (a: Action)
    ensures
        a@ == action_view(title@, command@, uri@, line),
{
    Action {
        title: String::from_str(title),
        kind: String::from_str("zed-http"),
        command: CommandRef {
            title: String::from_str(title),
            command: String::from_str(command),
            uri: uri.clone(),
            line,
        },
    }
}

/// The code actions on the request anchored at `line` of `uri`.
pub fn code_actions(uri: &String, line: u32, has_cached: bool) -> (actions: Vec<Action>)
    ensures
        action_views(actions@) == actions_view(uri@, line, has_cached),
{
    let mut actions: Vec<Action> = Vec::new();
    actions.push(action("▶ Send Request", CMD_SEND, uri, line));
    if has_cached {
        actions.push(action("👁 Show Response", CMD_SHOW, uri, line));
        actions.push(action("◉ Show Headers", CMD_HEADERS, uri, line));
    }
    actions.push(action("💾 Save Response", CMD_SAVE, uri, line));
    proof {
        assert(action_views(actions@) =~= actions_view(uri@, line, has_cached));
    }
    actions
}

/// ` · N ms` when the total time of the response is known, nothing
/// otherwise.
pub open spec fn duration_suffix(exchange: Exchange) -> Seq<char> {
    match exchange.requests@[0].response {
        Some(resp) => match resp.timings {
            Some(t) => match t.total {
                Some(d) => " · "@ + d@ + " ms"@,
                None => Seq::empty(),
            },
            None => Seq::empty(),
        },
        None => Seq::empty(),
    }
}

/// The hover text of a request: its method and URL, then either the status
/// of its last response (with the total time and the time `when` it was
/// received), or a note that no response is cached.
pub open spec fn hover_view(req: Request, cached: Option<Exchange>, when: Seq<char>) -> Seq<char> {
    let head = "**"@ + req.method@ + "** `"@ + req.url@ + "`\n"@;
    match cached {
        Some(ex) => if ex.requests@.len() > 0 && ex.requests@[0].response is Some {
            let resp = ex.requests@[0].response->Some_0;
            let msg = match resp.status_message {
                Some(m) => m@,
                None => Seq::empty(),
            };
            head + "\nLast response: **"@ + decimal(resp.status_code as nat) + " "@ + msg + "**"@
                + duration_suffix(ex) + " at "@ + when + "\n"@
        } else {
            head
        },
        None => head + "\n_No response cached. Trigger ‘Send Request’ from a code action._\n"@,
    }
}

/// The markdown shown when hovering over a request; `cached` is the last
/// exchange of the request, if any, and `when` the time it was received
/// (`HH:MM:SS`).
pub fn hover_markdown(req: &Request, cached: Option<&Exchange>, when: &str) -> (md: String)
    ensures
        md@ == hover_view(*req, match cached {
            Some(e) => Some(*e),
            None => None,
        }, when@),
{
    let mut md = String::from_str("**");
    md.append(req.method.as_str());
    md.append("** `");
    md.append(req.url.as_str());
    md.append("`\n");
    match cached {
        Some(ex) => {
            if ex.requests.len() > 0 {
                match &ex.requests[0].response {
                    Some(resp) => {
                        md.append("\nLast response: **");
                        let code = decimal_string(resp.status_code as u64);
                        md.append(code.as_str());
                        md.append(" ");
                        match &resp.status_message {
                            Some(m) => md.append(m.as_str()),
                            None => {},
                        }
                        md.append("**");
                        match &resp.timings {
                            Some(t) => match &t.total {
                                Some(d) => {
                                    md.append(" · ");
                                    md.append(d.as_str());
                                    md.append(" ms");
                                },
                                None => {},
                            },
                            None => {},
                        }
                        md.append(" at ");
                        md.append(when);
                        md.append("\n");
                    },
                    None => {},
                }
            }
        },
        None => {
            md.append("\n_No response cached. Trigger ‘Send Request’ from a code action._\n");
        },
    }
    proof {
        assert(md@ =~= hover_view(*req, match cached {
            Some(e) => Some(*e),
            None => None,
        }, when@));
    }
    md
}

/// `BASE-lineN-STAMP.EXT`, with `response` as the base when the document
/// has no file name.
pub open spec fn response_file_name_view(
    base: Option<String>,
    line: u32,
    stamp: Seq<char>,
    extension: Seq<char>,
) -> Seq<char> {
    let b = match base {
        Some(s) => s@,
        None => "response"@,
    };
    b + "-line"@ + decimal(line as nat) + "-"@ + stamp + "."@ + extension
}

/// The name of the file a response is written into: named after the
/// document, the request's line and the time `stamp`.
pub fn response_file_name(base: Option<String>, line: u32, stamp: &str, extension: &str) -> (name:
    String)
    ensures
        name@ == response_file_name_view(base, line, stamp@, extension@),
{
    let mut name = match &base {
        Some(b) => b.clone(),
        None => String::from_str("response"),
    };
    name.append("-line");
    let digits = decimal_string(line as u64);
    name.append(digits.as_str());
    name.append("-");
    name.append(stamp);
    name.append(".");
    name.append(extension);
    name
}

/// The file path of the document `uri`, where it is a URL that names a local
/// file. There is none where `uri` is not a URL; which URLs name a file, and
/// the path's syntax, are the platform's.
pub fn uri_to_path(uri: &str) -> (r: Option<String>)
    ensures
        url_normalized(uri@) is None ==> r is None,
{
    file_path_of(uri)
}

/// What the document's base name can be: none where `uri` is not a URL,
/// and otherwise, where there is one, non-empty and without `/` (a piece
/// of one component of the document's file path).
pub open spec fn base_name_of(uri: Seq<char>, base: Option<String>) -> bool {
    &&& url_normalized(uri) is None ==> base is None
    &&& base matches Some(b) ==> b@.len() > 0 && !b@.contains('/')
}

/// The document's file name without its extension: the stem of its file
/// path, where it has one.
pub fn uri_basename(uri: &str) -> (r: Option<String>)
    ensures
        base_name_of(uri@, r),
{
    let path = match uri_to_path(uri) {
        Some(p) => p,
        None => return None,
    };
    file_stem_of(path.as_str())
}

/// The directory of the document `uri`, where responses are saved: the
/// parent of its file path. There is none where `uri` is not a URL.
pub fn response_directory(uri: &str) -> (r: Option<String>)
    ensures
        url_normalized(uri@) is None ==> r is None,
{
    let path = match uri_to_path(uri) {
        Some(p) => p,
        None => return None,
    };
    parent_of(path.as_str())
}

/// The name of the file a response of the document `uri` is written into:
/// `response_file_name` of the document's base name. Where `uri` is not a
/// URL the base is `response`.
pub fn response_file_name_for(uri: &str, line: u32, stamp: &str, extension: &str) -> (name: String)
    ensures
        exists|base: Option<String>|
            base_name_of(uri@, base) && name@ == #[trigger] response_file_name_view(
                base,
                line,
                stamp@,
                extension@,
            ),
        url_normalized(uri@) is None ==> name@ == response_file_name_view(
            None,
            line,
            stamp@,
            extension@,
        ),
{
    let base = uri_basename(uri);
    let ghost b = base;
    let name = response_file_name(base, line, stamp, extension);
    proof {
        assert(base_name_of(uri@, b) && name@ == response_file_name_view(b, line, stamp@, extension@));
    }
    name
}

/// Parses the arguments of a command: the document URI (a URL, normalized
/// as `Url` writes it) and the line, a number that is cut to 32 bits.
pub fn parse_args(uri: Option<&str>, line: Option<u64>) -> (r: Option<(String, u32)>)
    ensures
        match r {
            Some((u, l)) => uri is Some && line is Some && l == line->Some_0 as u32
                && crate::extern_calls::url_normalized(uri->Some_0@) == Some(u@),
            None => uri is None || line is None || crate::extern_calls::url_normalized(
                uri->Some_0@,
            ) is None,
        },
{
    let u = match uri {
        Some(u) => u,
        None => return None,
    };
    let l = match line {
        Some(l) => l as u32,
        None => return None,
    };
    match crate::extern_calls::normalize_url(u) {
        Some(parsed) => Some((parsed, l)),
        None => None,
    }
}

/// Each clickable part of a request's hint runs the command its label
/// names, for that request: `▶ Send` sends it, `👁 Show` shows the last
/// response, `◉ Headers` shows its headers, `💾 Save` saves it. The parts
/// come as blank, Send, (blank, Show, blank, Headers when a response is
/// cached,) blank, Save; only the labelled ones carry a command.
pub proof fn lemma_hint_parts_run_their_commands(uri: Seq<char>, line: u32, has_cached: bool)
    ensures
        ({
            let v = label_parts_view(uri, line, has_cached);
            &&& v.len() == (if has_cached { 8int } else { 4int })
            &&& forall|i: int| 0 <= i < v.len() && i % 2 == 0 ==> #[trigger] v[i] == (" "@, None::<Seq<char>>, None::<CommandView>)
            &&& v[1].0 == "▶ Send"@
            &&& has_cached ==> v[3].0 == "👁 Show"@ && v[5].0 == "◉ Headers"@ && v[7].0 == "💾 Save"@
            &&& !has_cached ==> v[3].0 == "💾 Save"@
            &&& forall|i: int| 0 <= i < v.len() ==> {
                &&& (#[trigger] v[i]).0 == "▶ Send"@ ==> v[i].2 == Some(("▶ Send"@, "zed-http.send"@, uri, line))
                &&& v[i].0 == "👁 Show"@ ==> v[i].2 == Some(("👁 Show"@, "zed-http.show"@, uri, line))
                &&& v[i].0 == "◉ Headers"@ ==> v[i].2 == Some(("◉ Headers"@, "zed-http.headers"@, uri, line))
                &&& v[i].0 == "💾 Save"@ ==> v[i].2 == Some(("💾 Save"@, "zed-http.save"@, uri, line))
            }
        }),
{
    reveal_strlit(" ");
    reveal_strlit("▶ Send");
    reveal_strlit("👁 Show");
    reveal_strlit("◉ Headers");
    reveal_strlit("💾 Save");
    let v = label_parts_view(uri, line, has_cached);
    let labels = seq![" "@, "▶ Send"@, "👁 Show"@, "◉ Headers"@, "💾 Save"@];
    assert forall|a: int, b: int| 0 <= a < b < 5 implies labels[a] != labels[b] by {
        assert(labels[a][0] != labels[b][0]);
    }
    let send = labeled_view("▶ Send"@, "Send this HTTP request via httpyac"@, CMD_SEND@, uri, line);
    let show = labeled_view(
        "👁 Show"@,
        "Re-open the last response for this request"@,
        CMD_SHOW@,
        uri,
        line,
    );
    let headers = labeled_view(
        "◉ Headers"@,
        "Show only response headers from the last response"@,
        CMD_HEADERS@,
        uri,
        line,
    );
    let save = labeled_view(
        "💾 Save"@,
        "Save the last response to a file next to this .http file"@,
        CMD_SAVE@,
        uri,
        line,
    );
    if has_cached {
        assert(v =~= seq![sep_view(), send, sep_view(), show, sep_view(), headers, sep_view(), save]);
    } else {
        assert(v =~= seq![sep_view(), send, sep_view(), save]);
    }
    assert(labels[0] != labels[1] && labels[0] != labels[2] && labels[0] != labels[3] && labels[0] != labels[4]);
    assert(labels[1] != labels[2] && labels[1] != labels[3] && labels[1] != labels[4]);
    assert(labels[2] != labels[3] && labels[2] != labels[4] && labels[3] != labels[4]);
}

/// Each code action on a request runs the command its title names, for
/// that request: `▶ Send Request` sends it, `👁 Show Response` shows the last
/// response, `◉ Show Headers` its headers, `💾 Save Response` saves it. The
/// actions come as Send, (Show Response, Show Headers when a response is
/// cached,) Save, all of the `zed-http` kind.
pub proof fn lemma_actions_run_their_commands(uri: Seq<char>, line: u32, has_cached: bool)
    ensures
        ({
            let v = actions_view(uri, line, has_cached);
            &&& v.len() == (if has_cached { 4int } else { 2int })
            &&& v[0].0 == "▶ Send Request"@
            &&& has_cached ==> v[1].0 == "👁 Show Response"@ && v[2].0 == "◉ Show Headers"@ && v[3].0 == "💾 Save Response"@
            &&& !has_cached ==> v[1].0 == "💾 Save Response"@
            &&& forall|i: int| 0 <= i < v.len() ==> {
                &&& (#[trigger] v[i]).1 == "zed-http"@
                &&& v[i].0 == "▶ Send Request"@ ==> v[i].2 == ("▶ Send Request"@, "zed-http.send"@, uri, line)
                &&& v[i].0 == "👁 Show Response"@ ==> v[i].2 == ("👁 Show Response"@, "zed-http.show"@, uri, line)
                &&& v[i].0 == "◉ Show Headers"@ ==> v[i].2 == ("◉ Show Headers"@, "zed-http.headers"@, uri, line)
                &&& v[i].0 == "💾 Save Response"@ ==> v[i].2 == ("💾 Save Response"@, "zed-http.save"@, uri, line)
            }
        }),
{
    reveal_strlit("▶ Send Request");
    reveal_strlit("👁 Show Response");
    reveal_strlit("◉ Show Headers");
    reveal_strlit("💾 Save Response");
    let v = actions_view(uri, line, has_cached);
    let titles = seq!["▶ Send Request"@, "👁 Show Response"@, "◉ Show Headers"@, "💾 Save Response"@];
    assert forall|a: int, b: int| 0 <= a < b < 4 implies titles[a] != titles[b] by {
        assert(titles[a][0] != titles[b][0]);
    }
    assert(titles[0] != titles[1] && titles[0] != titles[2] && titles[0] != titles[3]);
    assert(titles[1] != titles[2] && titles[1] != titles[3] && titles[2] != titles[3]);
    let send = action_view("▶ Send Request"@, CMD_SEND@, uri, line);
    let show = action_view("👁 Show Response"@, CMD_SHOW@, uri, line);
    let headers = action_view("◉ Show Headers"@, CMD_HEADERS@, uri, line);
    let save = action_view("💾 Save Response"@, CMD_SAVE@, uri, line);
    if has_cached {
        assert(v =~= seq![send, show, headers, save]);
    } else {
        assert(v =~= seq![send, save]);
    }
}

} // verus!
