//! Finds the requests of an `.http` document without a full grammar.
//!
//! A request's anchor line is the line that holds its HTTP method and URL;
//! its (0-based) number is what `httpyac send --line N` is given, plus one.
//! A request's body runs until the next `###` separator line, so method
//! words inside a body are not taken for new requests.

use vstd::prelude::*;
use crate::text::{
    ascii_upper_seq, chars_eq_str, chars_of, find_non_ws, find_ws, first_token, split_lines,
    split_once_ws, slice_chars, string_from_chars, text_lines, to_ascii_uppercase, trim_start, views,
    lemma_text_lines_concat, line_split_state, strip_cr, first_non_ws, first_ws, is_ws,
    lemma_first_ws_at, lemma_first_non_ws_at,
};

verus! {

/// A request as a value: anchor line, upper-cased method, URL.
pub type RequestView = (u32, Seq<char>, Seq<char>);

/// A request found in a document.
#[derive(Debug, Clone)]
pub struct Request {
    /// 0-indexed line number of the method/URL line.
    pub line: u32,
    pub method: String,
    pub url: String,
}

impl View for Request {
    type V = RequestView;

    open spec fn view(&self) -> RequestView {
        (self.line, self.method@, self.url@)
    }
}

/// The views of a sequence of requests.
pub open spec fn request_views(s: Seq<Request>) -> Seq<RequestView> {
    Seq::new(s.len(), |i: int| s[i]@)
}

/// The method words that start a request (compared after ASCII
/// upper-casing): HTTP, the other protocols httpyac speaks, and WebDAV.
#[verifier::opaque]
pub open spec fn is_http_method(m: Seq<char>) -> bool {
    ||| m == "GET"@
    ||| m == "HEAD"@
    ||| m == "POST"@
    ||| m == "PUT"@
    ||| m == "PATCH"@
    ||| m == "DELETE"@
    ||| m == "OPTIONS"@
    ||| m == "CONNECT"@
    ||| m == "TRACE"@
    ||| m == "GRAPHQL"@
    ||| m == "WEBSOCKET"@
    ||| m == "WS"@
    ||| m == "GRPC"@
    ||| m == "SSE"@
    ||| m == "MQTT"@
    ||| m == "AMQP"@
    ||| m == "PROPFIND"@
    ||| m == "PROPPATCH"@
    ||| m == "COPY"@
    ||| m == "MOVE"@
    ||| m == "LOCK"@
    ||| m == "UNLOCK"@
    ||| m == "CHECKOUT"@
    ||| m == "REPORT"@
    ||| m == "MERGE"@
    ||| m == "MKACTIVITY"@
    ||| m == "MKWORKSPACE"@
    ||| m == "VERSION-CONTROL"@
    ||| m == "LIST"@
}

/// Whether `m` is one of the method words.
pub fn is_method_word(m: &Vec<char>) -> (r: bool)
    ensures
        r == is_http_method(m@),
{
    reveal(is_http_method);
    chars_eq_str(m, "GET") || chars_eq_str(m, "HEAD") || chars_eq_str(m, "POST")
        || chars_eq_str(m, "PUT") || chars_eq_str(m, "PATCH") || chars_eq_str(m, "DELETE")
        || chars_eq_str(m, "OPTIONS") || chars_eq_str(m, "CONNECT") || chars_eq_str(m, "TRACE")
        || chars_eq_str(m, "GRAPHQL") || chars_eq_str(m, "WEBSOCKET") || chars_eq_str(m, "WS")
        || chars_eq_str(m, "GRPC") || chars_eq_str(m, "SSE") || chars_eq_str(m, "MQTT")
        || chars_eq_str(m, "AMQP") || chars_eq_str(m, "PROPFIND") || chars_eq_str(
        m,
        "PROPPATCH",
    ) || chars_eq_str(m, "COPY") || chars_eq_str(m, "MOVE") || chars_eq_str(m, "LOCK")
        || chars_eq_str(m, "UNLOCK") || chars_eq_str(m, "CHECKOUT") || chars_eq_str(m, "REPORT")
        || chars_eq_str(m, "MERGE") || chars_eq_str(m, "MKACTIVITY") || chars_eq_str(
        m,
        "MKWORKSPACE",
    ) || chars_eq_str(m, "VERSION-CONTROL") || chars_eq_str(m, "LIST")
}

/// The words that open a request, as the server lists them: the HTTP
/// methods, the other protocols httpyac speaks, and WebDAV's.
pub open spec fn method_word_list() -> Seq<Seq<char>> {
    seq![
        "GET"@,
        "HEAD"@,
        "POST"@,
        "PUT"@,
        "PATCH"@,
        "DELETE"@,
        "OPTIONS"@,
        "CONNECT"@,
        "TRACE"@,
        "GRAPHQL"@,
        "WEBSOCKET"@,
        "WS"@,
        "GRPC"@,
        "SSE"@,
        "MQTT"@,
        "AMQP"@,
        "PROPFIND"@,
        "PROPPATCH"@,
        "COPY"@,
        "MOVE"@,
        "LOCK"@,
        "UNLOCK"@,
        "CHECKOUT"@,
        "REPORT"@,
        "MERGE"@,
        "MKACTIVITY"@,
        "MKWORKSPACE"@,
        "VERSION-CONTROL"@,
        "LIST"@,
    ]
}

/// The method words are exactly the listed words.
pub proof fn lemma_method_words_are_listed(m: Seq<char>)
    ensures
        is_http_method(m) <==> method_word_list().contains(m),
{
    reveal(is_http_method);
    let l = method_word_list();
    if is_http_method(m) {
        if m == l[0] {{ assert(l.contains(m)); }}
        if m == l[1] {{ assert(l.contains(m)); }}
        if m == l[2] {{ assert(l.contains(m)); }}
        if m == l[3] {{ assert(l.contains(m)); }}
        if m == l[4] {{ assert(l.contains(m)); }}
        if m == l[5] {{ assert(l.contains(m)); }}
        if m == l[6] {{ assert(l.contains(m)); }}
        if m == l[7] {{ assert(l.contains(m)); }}
        if m == l[8] {{ assert(l.contains(m)); }}
        if m == l[9] {{ assert(l.contains(m)); }}
        if m == l[10] {{ assert(l.contains(m)); }}
        if m == l[11] {{ assert(l.contains(m)); }}
        if m == l[12] {{ assert(l.contains(m)); }}
        if m == l[13] {{ assert(l.contains(m)); }}
        if m == l[14] {{ assert(l.contains(m)); }}
        if m == l[15] {{ assert(l.contains(m)); }}
        if m == l[16] {{ assert(l.contains(m)); }}
        if m == l[17] {{ assert(l.contains(m)); }}
        if m == l[18] {{ assert(l.contains(m)); }}
        if m == l[19] {{ assert(l.contains(m)); }}
        if m == l[20] {{ assert(l.contains(m)); }}
        if m == l[21] {{ assert(l.contains(m)); }}
        if m == l[22] {{ assert(l.contains(m)); }}
        if m == l[23] {{ assert(l.contains(m)); }}
        if m == l[24] {{ assert(l.contains(m)); }}
        if m == l[25] {{ assert(l.contains(m)); }}
        if m == l[26] {{ assert(l.contains(m)); }}
        if m == l[27] {{ assert(l.contains(m)); }}
        if m == l[28] {{ assert(l.contains(m)); }}
    }
    if l.contains(m) {
        let i = choose|i: int| 0 <= i < l.len() && l[i] == m;
        assert(0 <= i < 29);
    }
}

/// Every listed method word is upper-case ASCII (letters and `-`): no
/// whitespace, no `#`, and unchanged by upper-casing.
proof fn lemma_listed_word_shape(m: Seq<char>)
    requires
        method_word_list().contains(m),
    ensures
        m.len() > 0,
        forall|k: int| 0 <= k < m.len() ==> ('A' <= #[trigger] m[k] <= 'Z') || m[k] == '-',
{
    reveal_strlit("GET");
    reveal_strlit("HEAD");
    reveal_strlit("POST");
    reveal_strlit("PUT");
    reveal_strlit("PATCH");
    reveal_strlit("DELETE");
    reveal_strlit("OPTIONS");
    reveal_strlit("CONNECT");
    reveal_strlit("TRACE");
    reveal_strlit("GRAPHQL");
    reveal_strlit("WEBSOCKET");
    reveal_strlit("WS");
    reveal_strlit("GRPC");
    reveal_strlit("SSE");
    reveal_strlit("MQTT");
    reveal_strlit("AMQP");
    reveal_strlit("PROPFIND");
    reveal_strlit("PROPPATCH");
    reveal_strlit("COPY");
    reveal_strlit("MOVE");
    reveal_strlit("LOCK");
    reveal_strlit("UNLOCK");
    reveal_strlit("CHECKOUT");
    reveal_strlit("REPORT");
    reveal_strlit("MERGE");
    reveal_strlit("MKACTIVITY");
    reveal_strlit("MKWORKSPACE");
    reveal_strlit("VERSION-CONTROL");
    reveal_strlit("LIST");
    let l = method_word_list();
    let i = choose|i: int| 0 <= i < l.len() && l[i] == m;
    assert(0 <= i < 29);
}

/// A text without a line break is one open line.
proof fn lemma_unbroken_text(s: Seq<char>)
    requires
        forall|k: int| 0 <= k < s.len() ==> s[k] != '\n',
    ensures
        line_split_state(s) == (Seq::<Seq<char>>::empty(), s),
    decreases s.len(),
{
    if s.len() > 0 {
        lemma_unbroken_text(s.drop_last());
        assert(s.drop_last().push(s.last()) =~= s);
    }
}

/// A line made of a method word, a blank and a URL (non-empty, without
/// whitespace) opens a request: a document of that one line holds exactly
/// one request, at line 0, with that method and that URL.
pub proof fn lemma_method_line_opens_request(m: Seq<char>, u: Seq<char>)
    requires
        method_word_list().contains(m),
        u.len() > 0,
        forall|k: int| 0 <= k < u.len() ==> !is_ws(#[trigger] u[k]),
    ensures
        scanned(m + " "@ + u + "\n"@) == seq![(0u32, m, u)],
{
    reveal_strlit(" ");
    reveal_strlit("\n");
    lemma_listed_word_shape(m);
    lemma_method_words_are_listed(m);
    let line = m + " "@ + u;
    let n = m.len() as int;
    assert(line.len() == n + 1 + u.len());
    assert forall|k: int| 0 <= k < n implies line[k] == m[k] && !is_ws(#[trigger] line[k]) by {
        assert(line[k] == m[k]);
    }
    assert(line[n] == ' ');
    assert forall|k: int| n < k < line.len() implies line[k] == u[k - n - 1] by {}
    assert forall|k: int| 0 <= k < line.len() implies #[trigger] line[k] != '\n' by {
        if k < n {
            assert(line[k] == m[k]);
        } else if k > n {
            assert(line[k] == u[k - n - 1]);
            assert(!is_ws(u[k - n - 1]));
        }
    }
    lemma_unbroken_text(line);
    let text = m + " "@ + u + "\n"@;
    assert(text =~= line.push('\n'));
    assert(text.drop_last() =~= line);
    assert(line.last() == u.last());
    assert(!is_ws(u[u.len() - 1]));
    assert(strip_cr(line) == line);
    assert(text_lines(text) =~= seq![line]);
    // the line's first character is a letter
    assert(!is_ws(line[0]));
    lemma_first_non_ws_at(line, 0);
    assert(trim_start(line) =~= line);
    reveal(is_separator);
    assert(!is_separator(line));
    lemma_first_ws_at(line, n);
    assert(line.take(n) =~= m);
    assert(line.skip(n + 1) =~= u);
    assert(split_once_ws(line) == Some((m, u)));
    assert(ascii_upper_seq(m) =~= m);
    lemma_first_non_ws_at(u, 0);
    assert(trim_start(u) =~= u);
    lemma_first_ws_at(u, u.len() as int);
    assert(first_token(u) =~= u);
    reveal(request_line);
    assert(request_line(line) == Some((m, u)));
    let lines = seq![line];
    assert(lines.drop_last() =~= Seq::<Seq<char>>::empty());
    assert(scan_state(lines.drop_last()) == (Seq::<RequestView>::empty(), false));
    assert(lines.last() == line);
    assert(((lines.len() - 1) as u32) == 0u32);
    assert(scan_state(lines) == (Seq::<RequestView>::empty().push((0u32, m, u)), true));
    assert(Seq::<RequestView>::empty().push((0u32, m, u)) =~= seq![(0u32, m, u)]);
}

/// A line that, after its leading whitespace, starts with `###`: it ends
/// the body of the request before it.
#[verifier::opaque]
pub open spec fn is_separator(line: Seq<char>) -> bool {
    let t = trim_start(line);
    t.len() >= 3 && t[0] == '#' && t[1] == '#' && t[2] == '#'
}

/// The upper-cased method and the URL of a line that opens a request: after
/// leading whitespace, a method word (in any ASCII case), whitespace, and a
/// URL, which is the first whitespace-free token after it.
#[verifier::opaque]
pub open spec fn request_line(line: Seq<char>) -> Option<(Seq<char>, Seq<char>)> {
    match split_once_ws(trim_start(line)) {
        Some((word, rest)) => {
            let method = ascii_upper_seq(word);
            let url = first_token(rest);
            if is_http_method(method) && url.len() > 0 {
                Some((method, url))
            } else {
                None
            }
        },
        None => None,
    }
}

/// The requests found in the lines `lines`, and whether the last of those
/// lines lies in a request's body.
pub open spec fn scan_state(lines: Seq<Seq<char>>) -> (Seq<RequestView>, bool)
    decreases lines.len(),
{
    if lines.len() == 0 {
        (Seq::empty(), false)
    } else {
        let (found, in_body) = scan_state(lines.drop_last());
        let line = lines.last();
        if is_separator(line) {
            (found, false)
        } else if in_body {
            (found, true)
        } else {
            match request_line(line) {
                Some((method, url)) => (found.push(((lines.len() - 1) as u32, method, url)), true),
                None => (found, false),
            }
        }
    }
}

/// The requests of the document `text`, in document order.
pub open spec fn scanned(text: Seq<char>) -> Seq<RequestView> {
    scan_state(text_lines(text)).0
}

/// Whether `line` is a separator line.
pub fn line_is_separator(line: &Vec<char>) -> (r: bool)
    ensures
        r == is_separator(line@),
{
    reveal(is_separator);
    let t0 = find_non_ws(line, 0);
    proof {
        assert(line@.skip(0) =~= line@);
        assert(trim_start(line@) =~= line@.skip(t0 as int));
    }
    line.len() - t0 >= 3 && line[t0] == '#' && line[t0 + 1] == '#' && line[t0 + 2] == '#'
}

/// The upper-cased method and the URL of a request line, if `line` is one.
pub fn parse_request_line(line: &Vec<char>) -> (r: Option<(Vec<char>, Vec<char>)>)
    ensures
        match r {
            Some((m, u)) => request_line(line@) == Some((m@, u@)),
            None => request_line(line@) is None,
        },
{
    reveal(request_line);
    let ghost l = line@;
    let t0 = find_non_ws(line, 0);
    proof {
        assert(l.skip(0) =~= l);
    }
    let ghost t = l.skip(t0 as int);
    assert(trim_start(l) =~= t);
    let j = find_ws(line, t0);
    if j == line.len() {
        return None;
    }
    let ghost word = t.take(j - t0);
    let ghost rest = t.skip(j - t0 + 1);
    assert(split_once_ws(t) == Some((word, rest)));
    assert(word =~= l.subrange(t0 as int, j as int));
    assert(rest =~= l.skip(j + 1));
    let mut method: Vec<char> = Vec::new();
    let mut k = t0;
    while k < j
        invariant
            t0 <= k <= j < line.len(),
            l == line@,
            method@ =~= ascii_upper_seq(l.subrange(t0 as int, k as int)),
        decreases j - k,
    {
        method.push(to_ascii_uppercase(line[k]));
        k += 1;
    }
    let k0 = find_non_ws(line, j + 1);
    let k1 = find_ws(line, k0);
    proof {
        let r = l.skip(j + 1);
        assert(trim_start(r) =~= l.skip(k0 as int));
        assert(first_token(r) =~= l.subrange(k0 as int, k1 as int));
    }
    if k1 > k0 && is_method_word(&method) {
        let url = slice_chars(line, k0, k1);
        Some((method, url))
    } else {
        None
    }
}

/// Scans an `.http` document for its requests: a request starts on a line
/// whose first word is a method and whose second word is a URL, unless that
/// line lies in the body of the request before it; a `###` line ends a body.
pub fn scan(text: &str) -> (out: Vec<Request>)
    ensures
        request_views(out@) == scanned(text@),
{
    let chars = chars_of(text);
    let lines = split_lines(&chars);
    let ghost all = views(lines@);
    let mut out: Vec<Request> = Vec::new();
    let mut in_body = false;
    let n = lines.len();
    let mut idx: usize = 0;
    while idx < n
        invariant
            n == lines.len(),
            all == views(lines@),
            idx <= n,
            scan_state(all.take(idx as int)) == (request_views(out@), in_body),
        decreases n - idx,
    {
        proof {
            assert(all.take(idx + 1).drop_last() =~= all.take(idx as int));
            assert(all.take(idx + 1).last() == lines@[idx as int]@);
        }
        let line = &lines[idx];
        if line_is_separator(line) {
            in_body = false;
        } else if !in_body {
            match parse_request_line(line) {
                Some((method, url)) => {
                    let req = Request {
                        line: idx as u32,
                        method: string_from_chars(&method),
                        url: string_from_chars(&url),
                    };
                    out.push(req);
                    in_body = true;
                    proof {
                        assert(request_views(out@) =~= scan_state(all.take(idx + 1)).0);
                    }
                },
                None => {},
            }
        }
        idx += 1;
    }
    proof {
        assert(all.take(n as int) =~= all);
    }
    out
}

/// How many requests, from the first on, have their anchor at or before
/// `line`: scanning stops at the first request past it.
pub open spec fn count_not_after(requests: Seq<RequestView>, line: u32) -> nat
    decreases requests.len(),
{
    if requests.len() == 0 {
        0
    } else if requests[0].0 > line {
        0
    } else {
        1 + count_not_after(requests.drop_first(), line)
    }
}

/// The request that `request_at_line` picks: the last one of the leading run
/// of requests at or before `line`, provided `line` lies inside the document.
pub open spec fn enclosing(requests: Seq<RequestView>, line: u32, total_lines: u32) -> Option<
    RequestView,
> {
    let k = count_not_after(requests, line);
    if k > 0 && line < total_lines {
        Some(requests[k - 1])
    } else {
        None
    }
}

proof fn lemma_count_not_after_at(requests: Seq<RequestView>, line: u32, i: int)
    requires
        0 <= i <= requests.len(),
        forall|k: int| 0 <= k < i ==> (#[trigger] requests[k]).0 <= line,
        i == requests.len() || requests[i].0 > line,
    ensures
        count_not_after(requests, line) == i,
    decreases i,
{
    if i > 0 {
        let t = requests.drop_first();
        assert forall|k: int| 0 <= k < i - 1 implies (#[trigger] t[k]).0 <= line by {
            assert(t[k] == requests[k + 1]);
        }
        if i - 1 < t.len() {
            assert(t[i - 1] == requests[i]);
        }
        lemma_count_not_after_at(t, line, i - 1);
        assert(requests[0].0 <= line);
    }
}

/// The request whose block holds `line`, for a document of `total_lines`
/// lines: the last request at or before `line`.
pub fn request_at_line(requests: &[Request], line: u32, total_lines: u32) -> (r: Option<&Request>)
    ensures
        match r {
            Some(q) => enclosing(request_views(requests@), line, total_lines) == Some(q@),
            None => enclosing(request_views(requests@), line, total_lines) is None,
        },
{
    let mut i: usize = 0;
    while i < requests.len() && requests[i].line <= line
        invariant
            i <= requests@.len(),
            forall|k: int| 0 <= k < i ==> (#[trigger] requests@[k]).line <= line,
        decreases requests@.len() - i,
    {
        i += 1;
    }
    proof {
        let v = request_views(requests@);
        assert forall|k: int| 0 <= k < i implies (#[trigger] v[k]).0 <= line by {
            assert(v[k] == requests@[k]@);
        }
        if i < requests.len() {
            assert(v[i as int] == requests@[i as int]@);
        }
        lemma_count_not_after_at(v, line, i as int);
    }
    if i > 0 && line < total_lines {
        Some(&requests[i - 1])
    } else {
        None
    }
}


/// What holds of the requests found in a prefix of a document's lines.
pub open spec fn scan_facts(lines: Seq<Seq<char>>) -> bool {
    let (found, in_body) = scan_state(lines);
    &&& forall|i: int| 0 <= i < found.len() ==> (#[trigger] found[i]).0 < lines.len()
    &&& forall|i: int, j: int|
        0 <= i < j < found.len() ==> (#[trigger] found[i]).0 < (#[trigger] found[j]).0
    &&& forall|i: int|
        0 <= i < found.len() ==> request_line(lines[(#[trigger] found[i]).0 as int]) == Some(
            (found[i].1, found[i].2),
        )
    &&& forall|i: int, j: int|
        0 <= i < j < found.len() && j == i + 1 ==> exists|s: int|
            (#[trigger] found[i]).0 < s < (#[trigger] found[j]).0 && is_separator(
                #[trigger] lines[s],
            )
    &&& in_body ==> found.len() > 0
    &&& (found.len() > 0 && !in_body) ==> exists|s: int|
        found.last().0 < s < lines.len() && is_separator(#[trigger] lines[s])
}

#[verifier::rlimit(40)]
proof fn lemma_scan_facts(lines: Seq<Seq<char>>)
    requires
        lines.len() <= 0x1_0000_0000,
    ensures
        scan_facts(lines),
    decreases lines.len(),
{
    if lines.len() > 0 {
        let p = lines.drop_last();
        lemma_scan_facts(p);
        let (pf, pb) = scan_state(p);
        let (found, in_body) = scan_state(lines);
        let n = lines.len() - 1;
        assert forall|k: int| 0 <= k < p.len() implies #[trigger] lines[k] == p[k] by {}
        assert forall|i: int|
            0 <= i < pf.len() implies request_line(lines[(#[trigger] pf[i]).0 as int]) == Some(
            (pf[i].1, pf[i].2),
        ) by {
            assert(lines[pf[i].0 as int] == p[pf[i].0 as int]);
        }
        assert forall|i: int, j: int|
            0 <= i < j < pf.len() && j == i + 1 implies exists|s: int|
            (#[trigger] pf[i]).0 < s < (#[trigger] pf[j]).0 && is_separator(
                #[trigger] lines[s],
            ) by {
            let s = choose|s: int| pf[i].0 < s < pf[j].0 && is_separator(#[trigger] p[s]);
            assert(lines[s] == p[s]);
        }
        if pf.len() > 0 && !pb {
            let s = choose|s: int| pf.last().0 < s < p.len() && is_separator(#[trigger] p[s]);
            assert(lines[s] == p[s]);
        }
        if is_separator(lines.last()) {
            if found.len() > 0 {
                assert(lines[n] == lines.last());
                assert(found.last().0 < n);
            }
        } else if !pb {
            if let Some((m, u)) = request_line(lines.last()) {
                assert(found == pf.push((n as u32, m, u)));
                assert((n as u32) as int == n);
                assert(lines[n] == lines.last());
                assert forall|i: int, j: int|
                    0 <= i < j < found.len() && j == i + 1 implies exists|s: int|
                    (#[trigger] found[i]).0 < s < (#[trigger] found[j]).0 && is_separator(
                        #[trigger] lines[s],
                    ) by {
                    if j < pf.len() {
                        assert(found[i] == pf[i] && found[j] == pf[j]);
                    } else {
                        assert(found[i] == pf.last());
                    }
                }
            }
        }
    }
}

/// In a document of at most 2^32 lines, the requests that `scan` finds come
/// in document order: their anchor lines lie inside the document and
/// strictly increase.
pub proof fn lemma_scan_anchors_increase(text: Seq<char>)
    requires
        text_lines(text).len() <= 0x1_0000_0000,
    ensures
        forall|i: int|
            0 <= i < scanned(text).len() ==> (#[trigger] scanned(text)[i]).0 < text_lines(
                text,
            ).len(),
        forall|i: int, j: int|
            0 <= i < j < scanned(text).len() ==> (#[trigger] scanned(text)[i]).0 < (
            #[trigger] scanned(text)[j]).0,
{
    lemma_scan_facts(text_lines(text));
}

/// In a document of at most 2^32 lines, every request that `scan` finds is
/// read off the line at its anchor: that line is a request line with that
/// method and URL.
pub proof fn lemma_scan_reads_anchor_lines(text: Seq<char>)
    requires
        text_lines(text).len() <= 0x1_0000_0000,
    ensures
        forall|i: int|
            0 <= i < scanned(text).len() ==> request_line(
                text_lines(text)[(#[trigger] scanned(text)[i]).0 as int],
            ) == Some((scanned(text)[i].1, scanned(text)[i].2)),
{
    lemma_scan_facts(text_lines(text));
}

/// In a document of at most 2^32 lines, between the anchors of two
/// consecutive requests that `scan` finds there is a `###` separator line:
/// method words inside a request's body never open a new request.
pub proof fn lemma_scan_bodies_end_at_separators(text: Seq<char>)
    requires
        text_lines(text).len() <= 0x1_0000_0000,
    ensures
        forall|i: int|
            0 <= i < scanned(text).len() - 1 ==> exists|s: int|
                (#[trigger] scanned(text)[i]).0 < s < scanned(text)[i + 1].0 && is_separator(
                    #[trigger] text_lines(text)[s],
                ),
{
    lemma_scan_facts(text_lines(text));
    let found = scan_state(text_lines(text)).0;
    assert forall|i: int| 0 <= i < scanned(text).len() - 1 implies exists|s: int|
        (#[trigger] scanned(text)[i]).0 < s < scanned(text)[i + 1].0 && is_separator(
            #[trigger] text_lines(text)[s],
        ) by {
        assert(found[i] == scanned(text)[i]);
        assert(found[i + 1] == scanned(text)[i + 1]);
    }
}

proof fn lemma_count_not_after_facts(requests: Seq<RequestView>, line: u32)
    ensures
        count_not_after(requests, line) <= requests.len(),
        forall|k: int|
            0 <= k < count_not_after(requests, line) ==> (#[trigger] requests[k]).0 <= line,
        count_not_after(requests, line) < requests.len() ==> requests[count_not_after(
            requests,
            line,
        ) as int].0 > line,
    decreases requests.len(),
{
    if requests.len() > 0 && requests[0].0 <= line {
        let t = requests.drop_first();
        lemma_count_not_after_facts(t, line);
        assert forall|k: int|
            0 <= k < count_not_after(requests, line) implies (#[trigger] requests[k]).0 <= line by {
            if k > 0 {
                assert(requests[k] == t[k - 1]);
            }
        }
        if count_not_after(requests, line) < requests.len() {
            assert(requests[count_not_after(requests, line) as int] == t[count_not_after(
                t,
                line,
            ) as int]);
        }
    }
}

/// For requests in strictly increasing anchor order and a line inside the
/// document, `request_at_line` picks the request with the greatest anchor at
/// or before that line, and picks none exactly when every anchor lies after
/// it.
pub proof fn lemma_request_at_line_picks_enclosing(
    requests: Seq<RequestView>,
    line: u32,
    total_lines: u32,
)
    requires
        forall|i: int, j: int|
            0 <= i < j < requests.len() ==> (#[trigger] requests[i]).0 < (#[trigger] requests[j]).0,
        line < total_lines,
    ensures
        enclosing(requests, line, total_lines) is None <==> forall|k: int|
            0 <= k < requests.len() ==> (#[trigger] requests[k]).0 > line,
        enclosing(requests, line, total_lines) matches Some(r) ==> {
            &&& r.0 <= line
            &&& exists|k: int| 0 <= k < requests.len() && requests[k] == r
            &&& forall|k: int|
                0 <= k < requests.len() && (#[trigger] requests[k]).0 <= line ==> requests[k].0 <= r.0
        },
{
    lemma_count_not_after_facts(requests, line);
    let c = count_not_after(requests, line) as int;
    if c > 0 {
        assert(requests[c - 1].0 <= line);
        assert forall|k: int|
            0 <= k < requests.len() && (#[trigger] requests[k]).0 <= line implies requests[k].0
            <= requests[c - 1].0 by {
            if k > c - 1 {
                assert(requests[c].0 > line);
                if k > c {
                    assert(requests[c].0 < requests[k].0);
                }
            }
        }
    } else {
        assert forall|k: int| 0 <= k < requests.len() implies (#[trigger] requests[k]).0 > line by {
            assert(requests[0].0 > line);
            if k > 0 {
                assert(requests[0].0 < requests[k].0);
            }
        }
    }
}

/// Requests with their anchors moved down by `k` lines.
pub open spec fn shifted(s: Seq<RequestView>, k: nat) -> Seq<RequestView> {
    Seq::new(s.len(), |i: int| ((s[i].0 + k) as u32, s[i].1, s[i].2))
}

proof fn lemma_scan_state_after_separator(l1: Seq<Seq<char>>, sep: Seq<char>, l2: Seq<Seq<char>>)
    requires
        is_separator(sep),
        l1.len() + 1 + l2.len() <= 0x1_0000_0000,
    ensures
        scan_state(l1.push(sep) + l2) == (
            scan_state(l1).0 + shifted(scan_state(l2).0, l1.len() + 1),
            scan_state(l2).1,
        ),
    decreases l2.len(),
{
    let k = (l1.len() + 1) as nat;
    let head = l1.push(sep);
    if l2.len() == 0 {
        assert(head + l2 =~= head);
        assert(head.drop_last() =~= l1);
        assert(scan_state(l1).0 + shifted(Seq::empty(), k) =~= scan_state(l1).0);
    } else {
        let all = head + l2;
        lemma_scan_state_after_separator(l1, sep, l2.drop_last());
        assert(all.drop_last() =~= head + l2.drop_last());
        assert(all.last() == l2.last());
        let (f1, _) = scan_state(l1);
        let (f2, b2) = scan_state(l2.drop_last());
        let line = l2.last();
        if !is_separator(line) && !b2 {
            if let Some((m, u)) = request_line(line) {
                let n2 = (l2.len() - 1) as int;
                assert((n2 as u32) as int == n2);
                assert(((n2 as u32) + k) as u32 == ((all.len() - 1) as u32));
                assert((f1 + shifted(f2, k)).push(((all.len() - 1) as u32, m, u)) =~= f1 + shifted(
                    f2.push((n2 as u32, m, u)),
                    k,
                ));
            }
        }
    }
}

/// A `###` line between two documents separates their requests: scanning
/// the joined text (the first part empty or ending in a line break, the
/// whole of at most 2^32 lines) finds the requests of the first part,
/// then those of the second with their anchors moved down past the first
/// part and the separator line.
pub proof fn lemma_scan_joined_at_separator(a: Seq<char>, b: Seq<char>)
    requires
        a.len() == 0 || a.last() == '\n',
        text_lines(a).len() + 1 + text_lines(b).len() <= 0x1_0000_0000,
    ensures
        scanned(a + "###\n"@ + b) == scanned(a) + shifted(scanned(b), text_lines(a).len() + 1),
{
    reveal_strlit("###\n");
    let sep_text = "###\n"@;
    let sep: Seq<char> = seq!['#', '#', '#'];
    assert(a + sep_text + b =~= a + (sep_text + b));
    lemma_text_lines_concat(a, sep_text + b);
    lemma_text_lines_concat(sep_text, b);
    assert(sep_text.drop_last() =~= sep);
    assert(sep.drop_last() =~= seq!['#', '#']);
    assert(seq!['#', '#'].drop_last() =~= seq!['#']);
    assert(seq!['#'].drop_last() =~= Seq::<char>::empty());
    reveal_with_fuel(line_split_state, 5);
    assert(line_split_state(seq!['#']) == (Seq::<Seq<char>>::empty(), seq!['#'])) by {
        assert(Seq::<Seq<char>>::empty().push(seq!['#'])[0] == seq!['#']);
        assert(Seq::<char>::empty().push('#') =~= seq!['#']);
    }
    assert(Seq::<char>::empty().push('#') =~= seq!['#']);
    assert(seq!['#'].push('#') =~= seq!['#', '#']);
    assert(seq!['#', '#'].push('#') =~= sep);
    assert(line_split_state(sep) == (Seq::<Seq<char>>::empty(), sep));
    assert(strip_cr(sep) == sep);
    assert(text_lines(sep_text) =~= seq![sep]);
    assert(text_lines(a + sep_text + b) =~= text_lines(a).push(sep) + text_lines(b));
    reveal(is_separator);
    assert(first_non_ws(sep) == 0);
    assert(trim_start(sep) =~= sep);
    lemma_scan_state_after_separator(text_lines(a), sep, text_lines(b));
}

} // verus!
