//! Turns an exchange into the text that is written into the response file
//! which the editor opens: an optional title, the status line, the timing
//! line, the headers sorted by name, and (in the full view) the body.

use vstd::prelude::*;
use vstd::view::View as _;
use crate::exchange::{header_names_distinct, Exchange, Header, Meta, RequestResult, Response};
use crate::text::{chars_of, decimal, decimal_string};

verus! {

/// Which part of a response to show.
pub enum View {
    /// Status, headers and body.
    Full,
    /// Status and headers only.
    HeadersOnly,
}

/// The order of `String`: lexicographic by character, where a proper prefix
/// comes first. (UTF-8 keeps the order of code points, so this is also the
/// byte order that `String`'s `Ord` uses.)
pub open spec fn name_less(a: Seq<char>, b: Seq<char>) -> bool
    decreases a.len(),
{
    if a.len() == 0 {
        b.len() > 0
    } else if b.len() == 0 {
        false
    } else if a[0] != b[0] {
        a[0] < b[0]
    } else {
        name_less(a.drop_first(), b.drop_first())
    }
}

/// `s` with `h` inserted after every header whose name does not come after
/// `h`'s name.
pub open spec fn insert_by_name(h: Header, s: Seq<Header>) -> Seq<Header>
    decreases s.len(),
{
    if s.len() == 0 {
        seq![h]
    } else if name_less(h.name@, s[0].name@) {
        seq![h] + s
    } else {
        seq![s[0]] + insert_by_name(h, s.drop_first())
    }
}

/// The headers stably sorted by name.
pub open spec fn sorted_by_name(hs: Seq<Header>) -> Seq<Header>
    decreases hs.len(),
{
    if hs.len() == 0 {
        Seq::empty()
    } else {
        insert_by_name(hs.last(), sorted_by_name(hs.drop_last()))
    }
}

/// One `name: value` line per header, in the order given.
pub open spec fn header_block(hs: Seq<Header>) -> Seq<char>
    decreases hs.len(),
{
    if hs.len() == 0 {
        Seq::empty()
    } else {
        header_block(hs.drop_last()) + hs.last().name@ + ": "@ + hs.last().value@ + "\n"@
    }
}

/// `PROTOCOL STATUS MESSAGE`, with `HTTP/1.1` and the empty message as
/// defaults.
pub open spec fn status_line(resp: Response) -> Seq<char> {
    let proto = match resp.protocol {
        Some(p) => p@,
        None => "HTTP/1.1"@,
    };
    let msg = match resp.status_message {
        Some(m) => m@,
        None => Seq::empty(),
    };
    proto + " "@ + decimal(resp.status_code as nat) + " "@ + msg + "\n"@
}

/// `# N ms`, followed by ` · SIZE` when a size is known, if the total time
/// is known; otherwise nothing.
pub open spec fn timing_line(resp: Response) -> Seq<char> {
    match resp.timings {
        Some(t) => match t.total {
            Some(dur) => {
                let size = match resp.meta {
                    Some(m) => match m.size {
                        Some(s) => s@,
                        None => Seq::empty(),
                    },
                    None => Seq::empty(),
                };
                if size.len() == 0 {
                    "# "@ + dur@ + " ms\n"@
                } else {
                    "# "@ + dur@ + " ms · "@ + size + "\n"@
                }
            },
            None => Seq::empty(),
        },
        None => Seq::empty(),
    }
}

/// An empty line and the body, closed with a newline, if the body is not
/// empty; otherwise nothing.
pub open spec fn body_block(resp: Response) -> Seq<char> {
    if resp.body@.len() == 0 {
        Seq::empty()
    } else if resp.body@.last() == '\n' {
        "\n"@ + resp.body@
    } else {
        "\n"@ + resp.body@ + "\n"@
    }
}

/// The text of a response in the given view.
pub open spec fn response_text(resp: Response, view: View) -> Seq<char> {
    let head = status_line(resp) + timing_line(resp) + "\n"@ + header_block(
        sorted_by_name(resp.headers@),
    );
    match view {
        View::Full => head + body_block(resp),
        View::HeadersOnly => head,
    }
}

/// `# NAME` and an empty line, for the request's name or else its title, if
/// it has either.
pub open spec fn title_text(req: RequestResult) -> Seq<char> {
    match req.name {
        Some(n) => "# "@ + n@ + "\n\n"@,
        None => match req.title {
            Some(t) => "# "@ + t@ + "\n\n"@,
            None => Seq::empty(),
        },
    }
}

/// The text of one executed request.
pub open spec fn request_text(req: RequestResult, view: View) -> Seq<char> {
    title_text(req) + match req.response {
        Some(resp) => response_text(resp, view),
        None => "(no response)\n"@,
    }
}

/// The text of an exchange: that of its first request.
pub open spec fn formatted(exchange: Exchange, view: View) -> Seq<char> {
    if exchange.requests@.len() == 0 {
        "(no request executed)\n"@
    } else {
        request_text(exchange.requests@[0], view)
    }
}

/// Formats the first request of an exchange.
pub fn format(exchange: &Exchange, view: View) -> (s: String)
    ensures
        s@ == formatted(*exchange, view),
{
    if exchange.requests.len() == 0 {
        return String::from_str("(no request executed)\n");
    }
    format_one(&exchange.requests[0], view)
}

fn format_one(req: &RequestResult, view: View) -> (s: String)
    ensures
        s@ == request_text(*req, view),
{
    let mut out = String::new();
    match &req.name {
        Some(name) => {
            out.append("# ");
            out.append(name.as_str());
            out.append("\n\n");
        },
        None => match &req.title {
            Some(title) => {
                out.append("# ");
                out.append(title.as_str());
                out.append("\n\n");
            },
            None => {},
        },
    }
    proof {
        assert(out@ =~= title_text(*req));
    }
    match &req.response {
        None => {
            out.append("(no response)\n");
        },
        Some(resp) => {
            write_response(&mut out, resp, view);
        },
    }
    proof {
        assert(out@ =~= request_text(*req, view));
    }
    out
}

fn write_response(out: &mut String, resp: &Response, view: View)
    ensures
        final(out)@ == old(out)@ + response_text(*resp, view),
{
    let ghost start = out@;
    write_status(out, resp);
    write_timing(out, resp);
    out.append("\n");
    write_headers(out, &resp.headers);
    proof {
        assert(out@ =~= start + response_text(*resp, View::HeadersOnly));
    }
    match view {
        View::HeadersOnly => {},
        View::Full => {
            write_body(out, resp);
            proof {
                assert(out@ =~= start + response_text(*resp, view));
            }
        },
    }
}

fn write_status(out: &mut String, resp: &Response)
    ensures
        final(out)@ == old(out)@ + status_line(*resp),
{
    match &resp.protocol {
        Some(p) => out.append(p.as_str()),
        None => out.append("HTTP/1.1"),
    }
    out.append(" ");
    let code = decimal_string(resp.status_code as u64);
    out.append(code.as_str());
    out.append(" ");
    match &resp.status_message {
        Some(m) => out.append(m.as_str()),
        None => {},
    }
    out.append("\n");
    proof {
        assert(out@ =~= old(out)@ + status_line(*resp));
    }
}

fn write_timing(out: &mut String, resp: &Response)
    ensures
        final(out)@ == old(out)@ + timing_line(*resp),
{
    match &resp.timings {
        Some(t) => match &t.total {
            Some(dur) => {
                let size: &str = match &resp.meta {
                    Some(m) => match &m.size {
                        Some(sz) => sz.as_str(),
                        None => "",
                    },
                    None => "",
                };
                proof {
                    reveal_strlit("");
                }
                out.append("# ");
                out.append(dur.as_str());
                if size.is_empty() {
                    out.append(" ms\n");
                } else {
                    out.append(" ms · ");
                    out.append(size);
                    out.append("\n");
                }
            },
            None => {},
        },
        None => {},
    }
    proof {
        assert(out@ =~= old(out)@ + timing_line(*resp));
    }
}

fn write_body(out: &mut String, resp: &Response)
    ensures
        final(out)@ == old(out)@ + body_block(*resp),
{
    let body = resp.body.as_str();
    if !body.is_empty() {
        out.append("\n");
        out.append(body);
        let n = body.unicode_len();
        if body.get_char(n - 1) != '\n' {
            out.append("\n");
        }
    }
    proof {
        assert(out@ =~= old(out)@ + body_block(*resp));
    }
}

/// Whether `a` comes before `b` in the order of `String`.
pub fn chars_less(a: &Vec<char>, b: &Vec<char>) -> (r: bool)
    ensures
        r == name_less(a@, b@),
{
    let mut i: usize = 0;
    proof {
        assert(a@.skip(0) =~= a@);
        assert(b@.skip(0) =~= b@);
    }
    while i < a.len() && i < b.len() && a[i] == b[i]
        invariant
            i <= a.len(),
            i <= b.len(),
            name_less(a@, b@) == name_less(a@.skip(i as int), b@.skip(i as int)),
        decreases a.len() - i,
    {
        proof {
            let sa = a@.skip(i as int);
            let sb = b@.skip(i as int);
            assert(sa[0] == a@[i as int] && sb[0] == b@[i as int]);
            assert(sa.drop_first() =~= a@.skip(i + 1));
            assert(sb.drop_first() =~= b@.skip(i + 1));
        }
        i += 1;
    }
    proof {
        let sa = a@.skip(i as int);
        let sb = b@.skip(i as int);
        if i < a.len() && i < b.len() {
            assert(sa[0] == a@[i as int] && sb[0] == b@[i as int]);
        }
    }
    if i == a.len() {
        i < b.len()
    } else if i == b.len() {
        false
    } else {
        a[i] < b[i]
    }
}

/// The headers that the indices `order` pick from `hs`, in that order.
pub open spec fn picked(hs: Seq<Header>, order: Seq<usize>) -> Seq<Header> {
    Seq::new(order.len(), |k: int| hs[order[k] as int])
}

proof fn lemma_insert_by_name_at(h: Header, s: Seq<Header>, p: int)
    requires
        0 <= p <= s.len(),
        forall|k: int| 0 <= k < p ==> !name_less(h.name@, (#[trigger] s[k]).name@),
        p == s.len() || name_less(h.name@, s[p].name@),
    ensures
        insert_by_name(h, s) == s.insert(p, h),
    decreases p,
{
    if p == 0 {
        if s.len() == 0 {
            assert(s.insert(0, h) =~= seq![h]);
        } else {
            assert(s.insert(0, h) =~= seq![h] + s);
        }
    } else {
        let t = s.drop_first();
        assert forall|k: int| 0 <= k < p - 1 implies !name_less(h.name@, (#[trigger] t[k]).name@) by {
            assert(t[k] == s[k + 1]);
        }
        if p - 1 < t.len() {
            assert(t[p - 1] == s[p]);
        }
        lemma_insert_by_name_at(h, t, p - 1);
        assert(!name_less(h.name@, s[0].name@));
        assert(seq![s[0]] + t.insert(p - 1, h) =~= s.insert(p, h));
    }
}

/// The indices of the headers in stable name order.
fn sorted_header_order(hs: &Vec<Header>) -> (order: Vec<usize>)
    ensures
        order.len() == hs.len(),
        forall|k: int| 0 <= k < order.len() ==> order@[k] < hs.len(),
        picked(hs@, order@) == sorted_by_name(hs@),
{
    let mut keys: Vec<Vec<char>> = Vec::new();
    let mut i: usize = 0;
    while i < hs.len()
        invariant
            i <= hs.len(),
            keys.len() == i,
            forall|k: int| 0 <= k < i ==> (#[trigger] keys@[k])@ == hs@[k].name@,
        decreases hs.len() - i,
    {
        keys.push(chars_of(hs[i].name.as_str()));
        i += 1;
    }
    let mut order: Vec<usize> = Vec::new();
    let mut i: usize = 0;
    while i < hs.len()
        invariant
            i <= hs.len(),
            keys.len() == hs.len(),
            forall|k: int| 0 <= k < hs.len() ==> (#[trigger] keys@[k])@ == hs@[k].name@,
            order.len() == i,
            forall|k: int| 0 <= k < order.len() ==> order@[k] < i,
            picked(hs@, order@) == sorted_by_name(hs@.take(i as int)),
        decreases hs.len() - i,
    {
        let ghost before = picked(hs@, order@);
        let mut p: usize = 0;
        while p < order.len() && !chars_less(&keys[i], &keys[order[p]])
            invariant
                i < hs.len(),
                keys.len() == hs.len(),
                forall|k: int| 0 <= k < hs.len() ==> (#[trigger] keys@[k])@ == hs@[k].name@,
                forall|k: int| 0 <= k < order.len() ==> order@[k] < i,
                before == picked(hs@, order@),
                p <= order.len(),
                forall|k: int|
                    0 <= k < p ==> !name_less(hs@[i as int].name@, (#[trigger] before[k]).name@),
            decreases order.len() - p,
        {
            p += 1;
        }
        proof {
            lemma_insert_by_name_at(hs@[i as int], before, p as int);
            assert(hs@.take(i + 1).drop_last() =~= hs@.take(i as int));
            assert(hs@.take(i + 1).last() == hs@[i as int]);
        }
        order.insert(p, i);
        proof {
            assert(picked(hs@, order@) =~= before.insert(p as int, hs@[i as int]));
        }
        i += 1;
    }
    proof {
        assert(hs@.take(hs.len() as int) =~= hs@);
    }
    order
}

fn write_headers(out: &mut String, hs: &Vec<Header>)
    ensures
        final(out)@ == old(out)@ + header_block(sorted_by_name(hs@)),
{
    let order = sorted_header_order(hs);
    let ghost sorted = picked(hs@, order@);
    let ghost start = out@;
    let mut k: usize = 0;
    while k < order.len()
        invariant
            k <= order.len() == hs.len(),
            forall|j: int| 0 <= j < order.len() ==> order@[j] < hs.len(),
            sorted == picked(hs@, order@),
            out@ == start + header_block(sorted.take(k as int)),
        decreases order.len() - k,
    {
        let h = &hs[order[k]];
        out.append(h.name.as_str());
        out.append(": ");
        out.append(h.value.as_str());
        out.append("\n");
        proof {
            assert(sorted.take(k + 1).drop_last() =~= sorted.take(k as int));
            assert(sorted.take(k + 1).last() == *h);
            assert(out@ =~= start + header_block(sorted.take(k + 1)));
        }
        k += 1;
    }
    proof {
        assert(sorted.take(order.len() as int) =~= sorted);
    }
}


proof fn lemma_name_less_irreflexive(a: Seq<char>)
    ensures
        !name_less(a, a),
    decreases a.len(),
{
    if a.len() > 0 {
        lemma_name_less_irreflexive(a.drop_first());
    }
}

proof fn lemma_name_less_transitive(a: Seq<char>, b: Seq<char>, c: Seq<char>)
    requires
        name_less(a, b),
        name_less(b, c),
    ensures
        name_less(a, c),
    decreases a.len(),
{
    if a.len() > 0 && a[0] == b[0] && b[0] == c[0] {
        lemma_name_less_transitive(a.drop_first(), b.drop_first(), c.drop_first());
    }
}

proof fn lemma_name_less_total(a: Seq<char>, b: Seq<char>)
    requires
        a != b,
    ensures
        name_less(a, b) || name_less(b, a),
    decreases a.len(),
{
    if a.len() > 0 && b.len() > 0 && a[0] == b[0] {
        if a.drop_first() == b.drop_first() {
            assert(a =~= seq![a[0]] + a.drop_first());
            assert(b =~= seq![b[0]] + b.drop_first());
        }
        lemma_name_less_total(a.drop_first(), b.drop_first());
    } else if a.len() == 0 && b.len() == 0 {
        assert(a =~= b);
    }
}

proof fn lemma_name_less_then_not_after(a: Seq<char>, b: Seq<char>, c: Seq<char>)
    requires
        name_less(a, b),
        !name_less(c, b),
    ensures
        name_less(a, c),
{
    if b != c {
        lemma_name_less_total(b, c);
        lemma_name_less_transitive(a, b, c);
    }
}

proof fn lemma_not_after_transitive(a: Seq<char>, b: Seq<char>, c: Seq<char>)
    requires
        !name_less(b, a),
        !name_less(c, b),
    ensures
        !name_less(c, a),
{
    if name_less(c, a) {
        if a == b {
        } else {
            lemma_name_less_total(a, b);
            lemma_name_less_transitive(c, a, b);
        }
    }
}

/// Headers in order of name: no header's name comes before that of a header
/// earlier in the sequence.
pub open spec fn names_ordered(s: Seq<Header>) -> bool {
    forall|i: int, j: int|
        0 <= i < j < s.len() ==> !name_less((#[trigger] s[j]).name@, (#[trigger] s[i]).name@)
}

/// Where `insert_by_name` puts `h`: before the first header whose name comes
/// after `h`'s.
pub open spec fn insert_pos(h: Header, s: Seq<Header>) -> nat
    decreases s.len(),
{
    if s.len() == 0 {
        0
    } else if name_less(h.name@, s[0].name@) {
        0
    } else {
        1 + insert_pos(h, s.drop_first())
    }
}

proof fn lemma_insert_pos(h: Header, s: Seq<Header>)
    ensures
        insert_pos(h, s) <= s.len(),
        forall|k: int| 0 <= k < insert_pos(h, s) ==> !name_less(h.name@, (#[trigger] s[k]).name@),
        insert_pos(h, s) < s.len() ==> name_less(h.name@, s[insert_pos(h, s) as int].name@),
    decreases s.len(),
{
    if s.len() > 0 && !name_less(h.name@, s[0].name@) {
        let t = s.drop_first();
        lemma_insert_pos(h, t);
        assert forall|k: int|
            0 <= k < insert_pos(h, s) implies !name_less(h.name@, (#[trigger] s[k]).name@) by {
            if k > 0 {
                assert(s[k] == t[k - 1]);
            }
        }
        if insert_pos(h, s) < s.len() {
            assert(s[insert_pos(h, s) as int] == t[insert_pos(h, t) as int]);
        }
    }
}

proof fn lemma_insert_by_name_ordered(h: Header, s: Seq<Header>)
    requires
        names_ordered(s),
    ensures
        names_ordered(insert_by_name(h, s)),
        insert_by_name(h, s).to_multiset() == s.to_multiset().insert(h),
{
    broadcast use vstd::seq_lib::to_multiset_insert;

    lemma_insert_pos(h, s);
    let p = insert_pos(h, s) as int;
    lemma_insert_by_name_at(h, s, p);
    let r = s.insert(p, h);
    assert forall|i: int, j: int|
        0 <= i < j < r.len() implies !name_less((#[trigger] r[j]).name@, (#[trigger] r[i]).name@) by {
        if j < p {
            assert(r[i] == s[i] && r[j] == s[j]);
        } else if j == p {
            assert(r[i] == s[i] && r[j] == h);
            if h.name@ == s[i].name@ {
                lemma_name_less_irreflexive(h.name@);
            } else {
                lemma_name_less_total(h.name@, s[i].name@);
            }
        } else if i < p {
            assert(r[i] == s[i] && r[j] == s[j - 1]);
            if i < j - 1 {
            } else {
                lemma_name_less_irreflexive(s[i].name@);
            }
        } else if i == p {
            assert(r[i] == h && r[j] == s[j - 1]);
            if p < j - 1 {
                lemma_name_less_then_not_after(h.name@, s[p].name@, s[j - 1].name@);
            }
            if name_less(s[j - 1].name@, h.name@) {
                lemma_name_less_transitive(s[j - 1].name@, h.name@, s[j - 1].name@);
                lemma_name_less_irreflexive(s[j - 1].name@);
            }
        } else {
            assert(r[i] == s[i - 1] && r[j] == s[j - 1]);
        }
    }
}

/// Sorting by name orders the headers by name and keeps every header,
/// each as many times as it occurs.
pub proof fn lemma_sorted_by_name_sorts(hs: Seq<Header>)
    ensures
        names_ordered(sorted_by_name(hs)),
        sorted_by_name(hs).to_multiset() == hs.to_multiset(),
    decreases hs.len(),
{
    broadcast use vstd::seq_lib::group_to_multiset_ensures;

    if hs.len() > 0 {
        lemma_sorted_by_name_sorts(hs.drop_last());
        lemma_insert_by_name_ordered(hs.last(), sorted_by_name(hs.drop_last()));
        assert(hs =~= hs.drop_last().push(hs.last()));
    }
}

proof fn lemma_sorted_names_come_from(hs: Seq<Header>)
    ensures
        sorted_by_name(hs).len() == hs.len(),
        forall|k: int|
            0 <= k < sorted_by_name(hs).len() ==> exists|j: int|
                0 <= j < hs.len() && (#[trigger] sorted_by_name(hs)[k]) == hs[j],
    decreases hs.len(),
{
    if hs.len() > 0 {
        let t = hs.drop_last();
        let s = sorted_by_name(t);
        let h = hs.last();
        lemma_sorted_names_come_from(t);
        lemma_insert_pos(h, s);
        let p = insert_pos(h, s) as int;
        lemma_insert_by_name_at(h, s, p);
        let r = s.insert(p, h);
        assert forall|k: int| 0 <= k < r.len() implies exists|j: int|
            0 <= j < hs.len() && (#[trigger] r[k]) == hs[j] by {
            if k == p {
                assert(r[k] == hs[hs.len() - 1]);
            } else {
                let k2 = if k < p { k } else { k - 1 };
                assert(r[k] == s[k2]);
                let j = choose|j: int| 0 <= j < t.len() && s[k2] == t[j];
                assert(t[j] == hs[j]);
            }
        }
    }
}

proof fn lemma_sorted_keeps_names_distinct(hs: Seq<Header>)
    requires
        header_names_distinct(hs),
    ensures
        header_names_distinct(sorted_by_name(hs)),
    decreases hs.len(),
{
    if hs.len() > 0 {
        let t = hs.drop_last();
        let s = sorted_by_name(t);
        let h = hs.last();
        assert(header_names_distinct(t)) by {
            assert forall|i: int, j: int|
                0 <= i < j < t.len() implies (#[trigger] t[i]).name@ != (#[trigger] t[j]).name@ by {
                assert(t[i] == hs[i] && t[j] == hs[j]);
            }
        }
        lemma_sorted_keeps_names_distinct(t);
        lemma_sorted_names_come_from(t);
        assert forall|k: int| 0 <= k < s.len() implies (#[trigger] s[k]).name@ != h.name@ by {
            let j = choose|j: int| 0 <= j < t.len() && s[k] == t[j];
            assert(t[j] == hs[j]);
            assert(hs[j].name@ != hs[hs.len() - 1].name@);
        }
        lemma_insert_pos(h, s);
        let p = insert_pos(h, s) as int;
        lemma_insert_by_name_at(h, s, p);
        let r = s.insert(p, h);
        assert forall|i: int, j: int|
            0 <= i < j < r.len() implies (#[trigger] r[i]).name@ != (#[trigger] r[j]).name@ by {
            if i == p {
                assert(r[j] == s[j - 1]);
            } else if j == p {
                assert(r[i] == s[i]);
            } else {
                let i2 = if i < p { i } else { i - 1 };
                let j2 = if j < p { j } else { j - 1 };
                assert(r[i] == s[i2] && r[j] == s[j2]);
            }
        }
    }
}

/// Headers whose names are distinct come out in strictly increasing order
/// of name: each name once, no two in the wrong order.
pub proof fn lemma_distinct_headers_strictly_ordered(hs: Seq<Header>)
    requires
        header_names_distinct(hs),
    ensures
        forall|i: int, j: int|
            0 <= i < j < sorted_by_name(hs).len() ==> name_less(
                (#[trigger] sorted_by_name(hs)[i]).name@,
                (#[trigger] sorted_by_name(hs)[j]).name@,
            ),
{
    lemma_sorted_by_name_sorts(hs);
    lemma_sorted_keeps_names_distinct(hs);
    let r = sorted_by_name(hs);
    assert forall|i: int, j: int| 0 <= i < j < r.len() implies name_less(
        (#[trigger] r[i]).name@,
        (#[trigger] r[j]).name@,
    ) by {
        lemma_name_less_total(r[i].name@, r[j].name@);
    }
}

/// The headers-only text of an exchange is the beginning of its full text:
/// it is the full text with the body left off.
pub proof fn lemma_headers_only_is_prefix(exchange: Exchange)
    ensures
        formatted(exchange, View::HeadersOnly).is_prefix_of(formatted(exchange, View::Full)),
{
    let h = formatted(exchange, View::HeadersOnly);
    let f = formatted(exchange, View::Full);
    if exchange.requests@.len() > 0 {
        let req = exchange.requests@[0];
        match req.response {
            Some(resp) => {
                assert(f =~= h + body_block(resp));
            },
            None => {},
        }
    }
    assert(f.take(h.len() as int) =~= h);
}

/// The size of a response as the timing line shows it: the size in its
/// metadata, and nothing where there is no metadata or no size.
pub open spec fn shown_size(resp: Response) -> Seq<char> {
    match resp.meta {
        Some(m) => match m.size {
            Some(s) => s@,
            None => Seq::empty(),
        },
        None => Seq::empty(),
    }
}

/// Right after the status line of the first response comes its timing:
/// `# D ms` when its total time `D` is known, with ` · SIZE` when a
/// non-empty size is known (metadata or not), then the blank line that
/// ends the head; with no total time the blank line follows the status line
/// directly.
pub proof fn lemma_timing_follows_status(exchange: Exchange, view: View)
    requires
        exchange.requests@.len() > 0,
        exchange.requests@[0].response is Some,
    ensures
        ({
            let req = exchange.requests@[0];
            let resp = req.response->Some_0;
            let head = title_text(req) + status_line(resp);
            let timing = match resp.timings {
                Some(t) => match t.total {
                    Some(d) => if shown_size(resp).len() == 0 {
                        "# "@ + d@ + " ms\n"@
                    } else {
                        "# "@ + d@ + " ms · "@ + shown_size(resp) + "\n"@
                    },
                    None => Seq::empty(),
                },
                None => Seq::empty(),
            };
            (head + timing + "\n"@).is_prefix_of(formatted(exchange, view))
        }),
{
    let req = exchange.requests@[0];
    let resp = req.response->Some_0;
    let p = title_text(req) + status_line(resp) + timing_line(resp) + "\n"@;
    let f = formatted(exchange, view);
    let rest = header_block(sorted_by_name(resp.headers@)) + match view {
        View::Full => body_block(resp),
        View::HeadersOnly => Seq::<char>::empty(),
    };
    assert(f =~= p + rest);
    assert(f.take(p.len() as int) =~= p);
}

/// A response without metadata is shown exactly as one whose metadata
/// gives no size.
pub proof fn lemma_missing_meta_is_missing_size(resp: Response, view: View)
    requires
        resp.meta is None,
    ensures
        response_text(resp, view) == response_text(Response { meta: Some(Meta { size: None }), ..resp }, view),
{
}

proof fn lemma_header_block_ends_with_newline(hs: Seq<Header>)
    ensures
        hs.len() > 0 ==> header_block(hs).len() > 0 && header_block(hs).last() == '\n',
{
    if hs.len() > 0 {
        reveal_strlit("\n");
        let b = header_block(hs);
        assert(b.last() == "\n"@[0]);
    }
}

/// Every response text ends with a line break.
pub proof fn lemma_formatted_ends_with_newline(exchange: Exchange, view: View)
    ensures
        formatted(exchange, view).len() > 0,
        formatted(exchange, view).last() == '\n',
{
    reveal_strlit("\n");
    reveal_strlit("(no request executed)\n");
    reveal_strlit("(no response)\n");
    let f = formatted(exchange, view);
    if exchange.requests@.len() > 0 {
        let req = exchange.requests@[0];
        match req.response {
            Some(resp) => {
                let hdr = header_block(sorted_by_name(resp.headers@));
                lemma_header_block_ends_with_newline(sorted_by_name(resp.headers@));
                let head = status_line(resp) + timing_line(resp) + "\n"@ + hdr;
                assert(head.len() > 0 && head.last() == '\n') by {
                    if hdr.len() == 0 {
                        assert(head =~= status_line(resp) + timing_line(resp) + "\n"@);
                    }
                }
                let bb = body_block(resp);
                reveal_strlit("\n");
                if bb.len() > 0 {
                    assert(bb.last() == '\n');
                }
                match view {
                    View::Full => {
                        assert(f =~= title_text(req) + head + bb);
                    },
                    View::HeadersOnly => {
                        assert(f =~= title_text(req) + head);
                    },
                }
            },
            None => {
                assert(f =~= title_text(req) + "(no response)\n"@);
            },
        }
    }
}

} // verus!
