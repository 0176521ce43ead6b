//! Character-level text model shared by the document scanner, the response
//! formatter and the command-line builders: whitespace, ASCII case mapping,
//! line splitting, decimal rendering and conversions between `str`, `String`
//! and `Vec<char>`.

use vstd::prelude::*;

verus! {

/// The Unicode `White_Space` property, which is the set of characters that
/// `char::is_whitespace` accepts.
pub open spec fn is_ws(c: char) -> bool {
    let u = c as u32;
    ||| 0x09 <= u <= 0x0D
    ||| u == 0x20
    ||| u == 0x85
    ||| u == 0xA0
    ||| u == 0x1680
    ||| 0x2000 <= u <= 0x200A
    ||| u == 0x2028
    ||| u == 0x2029
    ||| u == 0x202F
    ||| u == 0x205F
    ||| u == 0x3000
}

/// Whether `c` is Unicode whitespace.
pub fn is_whitespace(c: char) -> (r: bool)
    ensures
        r == is_ws(c),
{
    let u = c as u32;
    (0x09 <= u && u <= 0x0D) || u == 0x20 || u == 0x85 || u == 0xA0 || u == 0x1680 || (0x2000
        <= u && u <= 0x200A) || u == 0x2028 || u == 0x2029 || u == 0x202F || u == 0x205F || u
        == 0x3000
}

/// ASCII upper-casing of one character: `a`..`z` map to `A`..`Z`, every
/// other character is left as it is.
pub open spec fn ascii_upper(c: char) -> char {
    if 'a' <= c <= 'z' {
        ((c as u32 - 32) as u8) as char
    } else {
        c
    }
}

/// ASCII upper-casing of a whole text, character by character.
pub open spec fn ascii_upper_seq(s: Seq<char>) -> Seq<char> {
    Seq::new(s.len(), |i: int| ascii_upper(s[i]))
}

pub fn to_ascii_uppercase(c: char) -> (r: char)
    ensures
        r == ascii_upper(c),
{
    if 'a' <= c && c <= 'z' {
        (((c as u32) - 32) as u8) as char
    } else {
        c
    }
}

/// Index of the first whitespace character of `s`, or `s.len()` when there
/// is none.
pub open spec fn first_ws(s: Seq<char>) -> nat
    decreases s.len(),
{
    if s.len() == 0 {
        0
    } else if is_ws(s[0]) {
        0
    } else {
        1 + first_ws(s.drop_first())
    }
}

/// Index of the first character of `s` that is not whitespace, or `s.len()`.
pub open spec fn first_non_ws(s: Seq<char>) -> nat
    decreases s.len(),
{
    if s.len() == 0 {
        0
    } else if !is_ws(s[0]) {
        0
    } else {
        1 + first_non_ws(s.drop_first())
    }
}

/// `str::trim_start`: `s` without its leading whitespace.
pub open spec fn trim_start(s: Seq<char>) -> Seq<char> {
    s.skip(first_non_ws(s) as int)
}

/// `str::split_once(char::is_whitespace)`: the text before the first
/// whitespace character and the text after it, or `None` when `s` holds no
/// whitespace.
pub open spec fn split_once_ws(s: Seq<char>) -> Option<(Seq<char>, Seq<char>)> {
    let j = first_ws(s);
    if j < s.len() {
        Some((s.take(j as int), s.skip(j as int + 1)))
    } else {
        None
    }
}

/// `s.split_whitespace().next().unwrap_or("")`: the first maximal run of
/// non-whitespace characters, or the empty text.
pub open spec fn first_token(s: Seq<char>) -> Seq<char> {
    let t = trim_start(s);
    t.take(first_ws(t) as int)
}

/// `first_ws` is the index `j` before which no character is whitespace and
/// at which there is whitespace or the end.
pub proof fn lemma_first_ws_at(s: Seq<char>, j: int)
    requires
        0 <= j <= s.len(),
        forall|k: int| 0 <= k < j ==> !is_ws(#[trigger] s[k]),
        j == s.len() || is_ws(s[j]),
    ensures
        first_ws(s) == j,
    decreases j,
{
    if j > 0 {
        let t = s.drop_first();
        assert forall|k: int| 0 <= k < j - 1 implies !is_ws(#[trigger] t[k]) by {
            assert(t[k] == s[k + 1]);
        }
        if j - 1 < t.len() {
            assert(t[j - 1] == s[j]);
        }
        lemma_first_ws_at(t, j - 1);
        assert(!is_ws(s[0]));
    }
}

/// `first_non_ws` is the index `j` before which every character is
/// whitespace and at which there is a non-whitespace character or the end.
pub proof fn lemma_first_non_ws_at(s: Seq<char>, j: int)
    requires
        0 <= j <= s.len(),
        forall|k: int| 0 <= k < j ==> is_ws(#[trigger] s[k]),
        j == s.len() || !is_ws(s[j]),
    ensures
        first_non_ws(s) == j,
    decreases j,
{
    if j > 0 {
        let t = s.drop_first();
        assert forall|k: int| 0 <= k < j - 1 implies is_ws(#[trigger] t[k]) by {
            assert(t[k] == s[k + 1]);
        }
        if j - 1 < t.len() {
            assert(t[j - 1] == s[j]);
        }
        lemma_first_non_ws_at(t, j - 1);
        assert(is_ws(s[0]));
    }
}

/// Index of the first whitespace character of `s` at or after `from`, or
/// `s.len()`.
pub fn find_ws(s: &Vec<char>, from: usize) -> (j: usize)
    requires
        from <= s.len(),
    ensures
        from <= j <= s.len(),
        j == from + first_ws(s@.skip(from as int)),
{
    let mut j = from;
    while j < s.len() && !is_whitespace(s[j])
        invariant
            from <= j <= s.len(),
            forall|k: int| from <= k < j ==> !is_ws(#[trigger] s@[k]),
        decreases s.len() - j,
    {
        j += 1;
    }
    proof {
        let t = s@.skip(from as int);
        assert forall|k: int| 0 <= k < j - from implies !is_ws(#[trigger] t[k]) by {
            assert(t[k] == s@[from + k]);
        }
        if j < s.len() {
            assert(t[j - from] == s@[j as int]);
        }
        lemma_first_ws_at(t, j - from);
    }
    j
}

/// Index of the first non-whitespace character of `s` at or after `from`,
/// or `s.len()`.
pub fn find_non_ws(s: &Vec<char>, from: usize) -> (j: usize)
    requires
        from <= s.len(),
    ensures
        from <= j <= s.len(),
        j == from + first_non_ws(s@.skip(from as int)),
{
    let mut j = from;
    while j < s.len() && is_whitespace(s[j])
        invariant
            from <= j <= s.len(),
            forall|k: int| from <= k < j ==> is_ws(#[trigger] s@[k]),
        decreases s.len() - j,
    {
        j += 1;
    }
    proof {
        let t = s@.skip(from as int);
        assert forall|k: int| 0 <= k < j - from implies is_ws(#[trigger] t[k]) by {
            assert(t[k] == s@[from + k]);
        }
        if j < s.len() {
            assert(t[j - from] == s@[j as int]);
        }
        lemma_first_non_ws_at(t, j - from);
    }
    j
}

/// `s` without one trailing carriage return, if it ends with one.
pub open spec fn strip_cr(s: Seq<char>) -> Seq<char> {
    if s.len() > 0 && s.last() == '\r' {
        s.drop_last()
    } else {
        s
    }
}

/// The lines of `s` that a newline has already ended (each without its
/// `\n`, and without the `\r` of a `\r\n`), and the text of the line that is
/// still open.
pub open spec fn line_split_state(s: Seq<char>) -> (Seq<Seq<char>>, Seq<char>)
    decreases s.len(),
{
    if s.len() == 0 {
        (Seq::empty(), Seq::empty())
    } else {
        let (done, open) = line_split_state(s.drop_last());
        if s.last() == '\n' {
            (done.push(strip_cr(open)), Seq::empty())
        } else {
            (done, open.push(s.last()))
        }
    }
}

/// `str::lines`: lines end at `\n` or `\r\n`, the terminator is not part of
/// the line, and a final line without terminator counts only when it is not
/// empty.
pub open spec fn text_lines(s: Seq<char>) -> Seq<Seq<char>> {
    let (done, open) = line_split_state(s);
    if open.len() == 0 {
        done
    } else {
        done.push(open)
    }
}

/// The texts held by a sequence of character vectors.
pub open spec fn views(v: Seq<Vec<char>>) -> Seq<Seq<char>> {
    Seq::new(v.len(), |i: int| v[i]@)
}

/// A final line ending adds no line: a text that does not already end in a
/// line break has the same lines with `\n` or `\r\n` after it.
pub proof fn lemma_final_line_ending_adds_no_line(t: Seq<char>)
    requires
        t.len() > 0,
        t.last() != '\n',
        t.last() != '\r',
    ensures
        text_lines(t.push('\n')) == text_lines(t),
        text_lines(t.push('\r').push('\n')) == text_lines(t),
{
    let (done, open) = line_split_state(t);
    let (d0, o0) = line_split_state(t.drop_last());
    assert(open == o0.push(t.last()));
    assert(t.push('\n').drop_last() =~= t);
    assert(strip_cr(open) == open);
    let tr = t.push('\r');
    assert(tr.drop_last() =~= t);
    assert(tr.push('\n').drop_last() =~= tr);
    assert(line_split_state(tr) == (done, open.push('\r')));
    assert(strip_cr(open.push('\r')) =~= open);
}

proof fn lemma_line_split_state_concat(a: Seq<char>, b: Seq<char>)
    requires
        line_split_state(a).1.len() == 0,
    ensures
        line_split_state(a + b) == (line_split_state(a).0 + line_split_state(b).0, line_split_state(
            b,
        ).1),
    decreases b.len(),
{
    if b.len() == 0 {
        assert(a + b =~= a);
        assert(line_split_state(a).0 + Seq::<Seq<char>>::empty() =~= line_split_state(a).0);
        assert(line_split_state(a).1 =~= Seq::<char>::empty());
    } else {
        lemma_line_split_state_concat(a, b.drop_last());
        assert((a + b).drop_last() =~= a + b.drop_last());
        assert((a + b).last() == b.last());
        let (d, o) = line_split_state(b.drop_last());
        assert((line_split_state(a).0 + d).push(strip_cr(o)) =~= line_split_state(a).0 + d.push(
            strip_cr(o),
        ));
    }
}

/// The lines of two texts one after the other, the first empty or ending in
/// a line break, are the lines of the first followed by those of the second.
pub proof fn lemma_text_lines_concat(a: Seq<char>, b: Seq<char>)
    requires
        a.len() == 0 || a.last() == '\n',
    ensures
        text_lines(a + b) == text_lines(a) + text_lines(b),
{
    if a.len() > 0 {
        assert(a.drop_last() + seq![a.last()] =~= a);
        assert(line_split_state(a).1.len() == 0);
    } else {
        assert(line_split_state(a).1.len() == 0);
    }
    lemma_line_split_state_concat(a, b);
    let (d, o) = line_split_state(b);
    assert(text_lines(a) == line_split_state(a).0);
    if o.len() > 0 {
        assert((line_split_state(a).0 + d).push(o) =~= line_split_state(a).0 + d.push(o));
    }
}

/// The lines of a text, as `str::lines` yields them.
pub fn split_lines(s: &Vec<char>) -> (lines: Vec<Vec<char>>)
    ensures
        views(lines@) == text_lines(s@),
{
    let mut done: Vec<Vec<char>> = Vec::new();
    let mut open: Vec<char> = Vec::new();
    let mut i: usize = 0;
    while i < s.len()
        invariant
            i <= s.len(),
            line_split_state(s@.take(i as int)) == (views(done@), open@),
        decreases s.len() - i,
    {
        let c = s[i];
        proof {
            assert(s@.take(i + 1).drop_last() =~= s@.take(i as int));
            assert(s@.take(i + 1).last() == c);
        }
        if c == '\n' {
            let ghost before = open@;
            let ghost done_before = views(done@);
            let n = open.len();
            if n > 0 && open[n - 1] == '\r' {
                open.pop();
            }
            proof {
                assert(open@ =~= strip_cr(before));
            }
            let finished = open;
            done.push(finished);
            open = Vec::new();
            proof {
                assert(views(done@) =~= done_before.push(finished@));
            }
        } else {
            open.push(c);
        }
        i += 1;
    }
    proof {
        assert(s@.take(s.len() as int) =~= s@);
    }
    if open.len() > 0 {
        done.push(open);
        proof {
            assert(views(done@) =~= text_lines(s@));
        }
    }
    done
}

/// The characters of a text.
pub fn chars_of(s: &str) -> (v: Vec<char>)
    ensures
        v@ == s@,
{
    let mut v: Vec<char> = Vec::new();
    for c in it: s.chars()
        invariant
            v@ == it.seq().take(it.index() as int),
    {
        v.push(c);
    }
    v
}

/// Whether the characters `v` spell the text `s`.
pub fn chars_eq_str(v: &Vec<char>, s: &str) -> (r: bool)
    ensures
        r == (v@ == s@),
{
    let n = s.unicode_len();
    if n != v.len() {
        return false;
    }
    let mut i: usize = 0;
    while i < n
        invariant
            n == s@.len() == v@.len(),
            i <= n,
            forall|k: int| 0 <= k < i ==> v@[k] == s@[k],
        decreases n - i,
    {
        if v[i] != s.get_char(i) {
            return false;
        }
        i += 1;
    }
    proof {
        assert(v@ =~= s@);
    }
    true
}

/// The characters `v[from..to]`.
pub fn slice_chars(v: &Vec<char>, from: usize, to: usize) -> (r: Vec<char>)
    requires
        from <= to <= v.len(),
    ensures
        r@ == v@.subrange(from as int, to as int),
{
    let mut r: Vec<char> = Vec::new();
    let mut i = from;
    while i < to
        invariant
            from <= i <= to <= v.len(),
            r@ == v@.subrange(from as int, i as int),
        decreases to - i,
    {
        r.push(v[i]);
        proof {
            assert(r@ =~= v@.subrange(from as int, i + 1));
        }
        i += 1;
    }
    r
}

/// Builds a `String` from its characters (`Iterator::collect` into
/// `String`, which pushes each character in order).
#[verifier::external_body]
pub(crate) fn string_from_chars(v: &Vec<char>) -> (s: String)
    ensures
        s@ == v@,
{
    v.iter().collect()
}

/// The character of a decimal digit.
pub open spec fn digit_char(d: nat) -> char {
    ((d + 48) as u8) as char
}

/// The decimal rendering of `n`, most significant digit first, with no
/// leading zeros (`0` renders as `"0"`).
pub open spec fn decimal(n: nat) -> Seq<char>
    decreases n,
{
    if n < 10 {
        seq![digit_char(n)]
    } else {
        decimal(n / 10).push(digit_char(n % 10))
    }
}

fn push_decimal(n: u64, out: &mut Vec<char>)
    ensures
        final(out)@ == old(out)@ + decimal(n as nat),
    decreases n,
{
    if n >= 10 {
        push_decimal(n / 10, out);
    }
    let d = (n % 10) as u8;
    out.push((d + 48) as char);
    proof {
        assert(out@ =~= old(out)@ + decimal(n as nat));
    }
}

/// The decimal rendering of `n`, as `u64::to_string` gives it.
pub fn decimal_string(n: u64) -> (s: String)
    ensures
        s@ == decimal(n as nat),
{
    let mut v: Vec<char> = Vec::new();
    push_decimal(n, &mut v);
    proof {
        assert(v@ =~= decimal(n as nat));
    }
    string_from_chars(&v)
}

} // verus!
