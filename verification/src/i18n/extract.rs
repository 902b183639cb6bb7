//! Scanning Rust source text for `tr!(...)` invocations.
//!
//! The scanner understands exactly the two forms the `tr!` macro accepts:
//! `tr!("text")` (default context) and `tr!("Context", "text")`, with normal
//! (escaped) or raw string literals.

use vstd::prelude::*;
use crate::text::{is_ascii_space, is_ascii_space_exec, chars_of, string_of, find_from, find_exec, lemma_find_from_bounds};

verus! {

/// The context given to `tr!("text")` calls that name none.
pub const DEFAULT_CONTEXT: &'static str = "default";

pub open spec fn default_context() -> Seq<char> {
    seq!['d', 'e', 'f', 'a', 'u', 'l', 't']
}

// ---------------------------------------------------------------------------
// Specification
// ---------------------------------------------------------------------------

/// The index of the first non-space character at or after `i`.
pub open spec fn skip_ws_spec(t: Seq<char>, i: int) -> int
    decreases t.len() - i,
{
    if 0 <= i < t.len() && is_ascii_space(t[i]) {
        skip_ws_spec(t, i + 1)
    } else {
        i
    }
}

/// The end of the run of `#` characters starting at `h`.
pub open spec fn hashes_end(t: Seq<char>, h: int) -> int
    decreases t.len() - h,
{
    if 0 <= h < t.len() && t[h] == '#' {
        hashes_end(t, h + 1)
    } else {
        h
    }
}

/// A raw string with `hashes` hashes closes at `j`: a `"` followed by that
/// many `#`.
pub open spec fn raw_closes_at(t: Seq<char>, j: int, hashes: int) -> bool {
    &&& 0 <= j
    &&& j + 1 + hashes <= t.len()
    &&& t[j] == '"'
    &&& forall|k: int| j + 1 <= k <= j + hashes ==> #[trigger] t[k] == '#'
}

/// The first position `>= j` at which a raw string with `hashes` hashes closes.
pub open spec fn raw_close_from(t: Seq<char>, j: int, hashes: int) -> Option<int>
    decreases t.len() - j,
{
    if j < 0 || j >= t.len() {
        None
    } else if raw_closes_at(t, j, hashes) {
        Some(j)
    } else {
        raw_close_from(t, j + 1, hashes)
    }
}

/// The character an escape `\c` stands for.
pub open spec fn unescaped(c: char) -> char {
    if c == 'n' {
        '\n'
    } else if c == 't' {
        '\t'
    } else if c == 'r' {
        '\r'
    } else if c == '0' {
        '\0'
    } else {
        c
    }
}

/// Decodes the body of a normal string literal from `j` (just past the
/// opening quote), with `acc` already decoded. Yields the contents and the
/// index just past the closing quote.
pub open spec fn parse_escaped(t: Seq<char>, j: int, acc: Seq<char>) -> Option<(Seq<char>, int)>
    decreases t.len() - j,
{
    if j < 0 || j >= t.len() {
        None
    } else if t[j] == '\\' {
        if j + 1 >= t.len() {
            None
        } else {
            parse_escaped(t, j + 2, acc.push(unescaped(t[j + 1])))
        }
    } else if t[j] == '"' {
        Some((acc, j + 1))
    } else {
        parse_escaped(t, j + 1, acc.push(t[j]))
    }
}

/// The string literal (normal or raw) starting at `i`: its contents and the
/// index just past it.
pub open spec fn parse_str_spec(t: Seq<char>, i: int) -> Option<(Seq<char>, int)> {
    let h = hashes_end(t, i + 1);
    if 0 <= i < t.len() && t[i] == 'r' && h < t.len() && t[h] == '"' {
        let hashes = h - (i + 1);
        match raw_close_from(t, h + 1, hashes) {
            Some(j) => Some((t.subrange(h + 1, j), j + 1 + hashes)),
            None => None,
        }
    } else if 0 <= i < t.len() && t[i] == '"' {
        parse_escaped(t, i + 1, Seq::empty())
    } else {
        None
    }
}

pub open spec fn is_ident_char(c: char) -> bool {
    let u = c as u32;
    ||| u == 95
    ||| (48 <= u && u <= 57)
    ||| (65 <= u && u <= 90)
    ||| (97 <= u && u <= 122)
}

pub open spec fn tr_bang() -> Seq<char> {
    seq!['t', 'r', '!']
}

/// The (context, source) pair of the `tr!` call whose name starts at `start`,
/// if it is one of the two recognised forms.
pub open spec fn call_at(t: Seq<char>, start: int) -> Option<(Seq<char>, Seq<char>)> {
    if start > 0 && is_ident_char(t[start - 1]) {
        None
    } else {
        let j = skip_ws_spec(t, start + 3);
        if !(j < t.len() && t[j] == '(') {
            None
        } else {
            match parse_str_spec(t, skip_ws_spec(t, j + 1)) {
                None => None,
                Some((first, k)) => {
                    let k2 = skip_ws_spec(t, k);
                    if k2 < t.len() && t[k2] == ')' {
                        Some((default_context(), first))
                    } else if k2 < t.len() && t[k2] == ',' {
                        match parse_str_spec(t, skip_ws_spec(t, k2 + 1)) {
                            Some((second, _)) => Some((first, second)),
                            None => None,
                        }
                    } else {
                        None
                    }
                },
            }
        }
    }
}

/// Every recognised call found by searching `t` for `tr!` from `i` on,
/// appended to `acc`.
pub open spec fn extract_from(t: Seq<char>, i: int, acc: Seq<(Seq<char>, Seq<char>)>) -> Seq<
    (Seq<char>, Seq<char>),
>
    decreases t.len() + 1 - i,
{
    if i < 0 {
        acc
    } else {
        match find_from(t, tr_bang(), i) {
            None => acc,
            Some(s) => {
                proof {
                    lemma_find_from_bounds(t, tr_bang(), i);
                }
                let acc2 = match call_at(t, s) {
                    Some(p) => acc.push(p),
                    None => acc,
                };
                extract_from(t, s + 3, acc2)
            },
        }
    }
}

/// The (context, source) pairs of all `tr!` calls in `t`, in order.
pub open spec fn extract_spec(t: Seq<char>) -> Seq<(Seq<char>, Seq<char>)> {
    extract_from(t, 0, Seq::empty())
}

// ---------------------------------------------------------------------------
// Implementation
// ---------------------------------------------------------------------------

fn skip_ws(b: &Vec<char>, i: usize) -> (r: usize)
    ensures
        r == skip_ws_spec(b@, i as int),
        i <= r,
        i <= b@.len() ==> r <= b@.len(),
{
    let mut j = i;
    while j < b.len() && is_ascii_space_exec(b[j])
        invariant
            i <= j,
            skip_ws_spec(b@, i as int) == skip_ws_spec(b@, j as int),
            i <= b@.len() ==> j <= b@.len(),
        decreases b@.len() - j,
    {
        j = j + 1;
    }
    j
}

fn hashes_end_exec(b: &Vec<char>, h: usize) -> (r: usize)
    ensures
        r == hashes_end(b@, h as int),
        h <= r,
        h <= b@.len() ==> r <= b@.len(),
{
    let mut j = h;
    while j < b.len() && b[j] == '#'
        invariant
            h <= j,
            hashes_end(b@, h as int) == hashes_end(b@, j as int),
            h <= b@.len() ==> j <= b@.len(),
        decreases b@.len() - j,
    {
        j = j + 1;
    }
    j
}

fn raw_closes_at_exec(b: &Vec<char>, j: usize, hashes: usize) -> (r: bool)
    requires
        j < b@.len(),
    ensures
        r == raw_closes_at(b@, j as int, hashes as int),
{
    if b[j] != '"' || hashes >= b.len() - j {
        return false;
    }
    let mut k: usize = 1;
    while k <= hashes
        invariant
            1 <= k <= hashes + 1,
            j + 1 + hashes <= b@.len(),
            b@.len() == b.len(),
            forall|m: int| j + 1 <= m < j + k ==> #[trigger] b@[m] == '#',
        decreases hashes + 1 - k,
    {
        if b[j + k] != '#' {
            return false;
        }
        k = k + 1;
    }
    true
}

fn copy_range(b: &Vec<char>, from: usize, to: usize) -> (s: Vec<char>)
    requires
        from <= to <= b@.len(),
    ensures
        s@ == b@.subrange(from as int, to as int),
{
    let mut s: Vec<char> = Vec::new();
    let mut m = from;
    while m < to
        invariant
            from <= m <= to <= b@.len(),
            s@ == b@.subrange(from as int, m as int),
        decreases to - m,
    {
        s.push(b[m]);
        m = m + 1;
        assert(s@ == b@.subrange(from as int, m as int));
    }
    s
}

fn parse_str(b: &Vec<char>, i: usize) -> (r: Option<(Vec<char>, usize)>)
    ensures
        match r {
            Some((s, e)) => parse_str_spec(b@, i as int) == Some((s@, e as int)) && e <= b@.len(),
            None => parse_str_spec(b@, i as int) is None,
        },
{
    if i < b.len() && b[i] == 'r' {
        let h = hashes_end_exec(b, i + 1);
        if h < b.len() && b[h] == '"' {
            let hashes = h - (i + 1);
            let content_start = h + 1;
            let mut j = content_start;
            while j < b.len()
                invariant
                    content_start <= j,
                    content_start <= b@.len(),
                    hashes == h - (i + 1),
                    content_start == h + 1,
                    i < b@.len(),
                    b@[i as int] == 'r',
                    h == hashes_end(b@, i + 1),
                    h < b@.len(),
                    b@[h as int] == '"',
                    raw_close_from(b@, content_start as int, hashes as int) == raw_close_from(
                        b@,
                        j as int,
                        hashes as int,
                    ),
                decreases b@.len() - j,
            {
                if raw_closes_at_exec(b, j, hashes) {
                    assert(raw_close_from(b@, j as int, hashes as int) == Some(j as int));
                    let s = copy_range(b, content_start, j);
                    return Some((s, j + 1 + hashes));
                }
                j = j + 1;
            }
            return None;
        }
    }
    if i >= b.len() || b[i] != '"' {
        return None;
    }
    let mut j = i + 1;
    let mut out: Vec<char> = Vec::new();
    while j < b.len()
        invariant
            i < j,
            i < b@.len(),
            b@[i as int] == '"',
            parse_str_spec(b@, i as int) == parse_escaped(b@, j as int, out@),
        decreases b@.len() - j,
    {
        let c = b[j];
        if c == '\\' {
            if j + 1 >= b.len() {
                return None;
            }
            let d = b[j + 1];
            let e = if d == 'n' {
                '\n'
            } else if d == 't' {
                '\t'
            } else if d == 'r' {
                '\r'
            } else if d == '0' {
                '\0'
            } else {
                d
            };
            out.push(e);
            j = j + 2;
        } else if c == '"' {
            return Some((out, j + 1));
        } else {
            out.push(c);
            j = j + 1;
        }
    }
    None
}

/// The `tr!` call at `start`, decoded (see [`call_at`]).
fn call_at_exec(b: &Vec<char>, start: usize) -> (r: Option<(Vec<char>, Vec<char>)>)
    requires
        start + 3 <= b@.len(),
    ensures
        match r {
            Some((c, s)) => call_at(b@, start as int) == Some((c@, s@)),
            None => call_at(b@, start as int) is None,
        },
{
    let n = b.len();
    if start > 0 {
        let u = b[start - 1] as u32;
        if u == 95 || (48 <= u && u <= 57) || (65 <= u && u <= 90) || (97 <= u && u <= 122) {
            return None;
        }
    }
    let j = skip_ws(b, start + 3);
    if !(j < b.len() && b[j] == '(') {
        return None;
    }
    let j2 = skip_ws(b, j + 1);
    match parse_str(b, j2) {
        None => None,
        Some((first, k)) => {
            let k2 = skip_ws(b, k);
            if k2 < b.len() && b[k2] == ')' {
                let ctx = vec!['d', 'e', 'f', 'a', 'u', 'l', 't'];
                assert(ctx@ == default_context());
                Some((ctx, first))
            } else if k2 < b.len() && b[k2] == ',' {
                let m = skip_ws(b, k2 + 1);
                match parse_str(b, m) {
                    Some((second, _)) => Some((first, second)),
                    None => None,
                }
            } else {
                None
            }
        },
    }
}

/// Scans `text` for `tr!(...)` invocations and returns their (context, source)
/// pairs in order of appearance. Recognizes `tr!("s")` (default context) and
/// `tr!("ctx", "s")`, with normal or raw string literals.
pub fn extract_tr(text: &str) -> (out: Vec<(String, String)>)
    ensures
        out.deep_view() == extract_spec(text@),
{
    let b = chars_of(text);
    let tr = vec!['t', 'r', '!'];
    assert(tr@ == tr_bang());
    let mut out: Vec<(String, String)> = Vec::new();
    let mut i: usize = 0;
    assert(out.deep_view() =~= Seq::empty());
    loop
        invariant
            b@ == text@,
            tr@ == tr_bang(),
            i <= b@.len(),
            extract_spec(b@) == extract_from(b@, i as int, out.deep_view()),
        decreases b@.len() + 1 - i,
    {
        match find_exec(&b, &tr, i) {
            None => {
                return out;
            },
            Some(start) => {
                proof {
                    lemma_find_from_bounds(b@, tr_bang(), i as int);
                }
                let ghost before = out.deep_view();
                match call_at_exec(&b, start) {
                    Some((ctx, src)) => {
                        let pair = (string_of(&ctx), string_of(&src));
                        out.push(pair);
                        assert(out.deep_view() == before.push((ctx@, src@)));
                    },
                    None => {},
                }
                i = start + 3;
            },
        }
    }
}

// ---------------------------------------------------------------------------
// Laws
// ---------------------------------------------------------------------------

/// Every character of `w` is white space.
pub open spec fn all_space(w: Seq<char>) -> bool {
    forall|i: int| 0 <= i < w.len() ==> is_ascii_space(#[trigger] w[i])
}

/// `s` needs no escape inside a normal string literal.
pub open spec fn plain_text(s: Seq<char>) -> bool {
    forall|i: int| 0 <= i < s.len() ==> #[trigger] s[i] != '"' && s[i] != '\\'
}

/// The normal string literal holding `s`.
pub open spec fn literal(s: Seq<char>) -> Seq<char> {
    seq!['"'] + s + seq!['"']
}

proof fn lemma_skip_run(t: Seq<char>, i: int, n: int)
    requires
        0 <= i,
        0 <= n,
        i + n <= t.len(),
        forall|k: int| i <= k < i + n ==> is_ascii_space(#[trigger] t[k]),
        i + n < t.len() ==> !is_ascii_space(t[i + n]),
    ensures
        skip_ws_spec(t, i) == i + n,
    decreases n,
{
    if n > 0 {
        lemma_skip_run(t, i + 1, n - 1);
    }
}

proof fn lemma_parse_plain(t: Seq<char>, j: int, acc: Seq<char>, n: int)
    requires
        0 <= j,
        0 <= n,
        j + n < t.len(),
        forall|k: int| j <= k < j + n ==> #[trigger] t[k] != '"' && t[k] != '\\',
        t[j + n] == '"',
    ensures
        parse_escaped(t, j, acc) == Some((acc + t.subrange(j, j + n), j + n + 1)),
    decreases n,
{
    if n == 0 {
        assert(acc + t.subrange(j, j) =~= acc);
    } else {
        lemma_parse_plain(t, j + 1, acc.push(t[j]), n - 1);
        assert(acc.push(t[j]) + t.subrange(j + 1, j + n) =~= acc + t.subrange(j, j + n));
    }
}

/// `piece` stands in `t` at `x`.
proof fn lemma_piece(t: Seq<char>, x: int, piece: Seq<char>)
    requires
        0 <= x,
        x + piece.len() <= t.len(),
        t.subrange(x, x + piece.len()) == piece,
    ensures
        forall|k: int| 0 <= k < piece.len() ==> #[trigger] t[x + k] == piece[k],
{
    assert forall|k: int| 0 <= k < piece.len() implies #[trigger] t[x + k] == piece[k] by {
        assert(t.subrange(x, x + piece.len())[k] == t[x + k]);
    }
}

/// The literal for plain text `c` at `x` in `t` reads back as `c`.
proof fn lemma_literal_at(t: Seq<char>, x: int, c: Seq<char>)
    requires
        0 <= x,
        plain_text(c),
        x + literal(c).len() <= t.len(),
        t.subrange(x, x + literal(c).len()) == literal(c),
    ensures
        parse_str_spec(t, x) == Some((c, x + c.len() + 2)),
{
    lemma_piece(t, x, literal(c));
    assert(literal(c)[0] == '"');
    assert(t[x + 0] == literal(c)[0]);
    assert forall|k: int| x + 1 <= k < x + 1 + c.len() implies #[trigger] t[k] != '"' && t[k] != '\\' by {
        assert(t[x + (k - x)] == literal(c)[k - x]);
        assert(literal(c)[k - x] == c[k - x - 1]);
    }
    assert(t[x + (c.len() + 1)] == literal(c)[c.len() + 1 as int]);
    lemma_parse_plain(t, x + 1, Seq::empty(), c.len() as int);
    assert(t.subrange(x + 1, x + 1 + c.len()) =~= c) by {
        assert forall|k: int| 0 <= k < c.len() implies t.subrange(x + 1, x + 1 + c.len())[k] == c[k] by {
            assert(t[x + (k + 1)] == literal(c)[k + 1]);
        }
    }
    assert(Seq::<char>::empty() + c =~= c);
}

/// A white-space run `w` at `x` in `t`, followed by a non-space character:
/// skipping white space from `x` lands past it.
proof fn lemma_space_at(t: Seq<char>, x: int, w: Seq<char>)
    requires
        0 <= x,
        all_space(w),
        x + w.len() < t.len(),
        t.subrange(x, x + w.len()) == w,
        !is_ascii_space(t[x + w.len()]),
    ensures
        skip_ws_spec(t, x) == x + w.len(),
{
    lemma_piece(t, x, w);
    assert forall|k: int| x <= k < x + w.len() implies is_ascii_space(#[trigger] t[k]) by {
        assert(t[x + (k - x)] == w[k - x]);
    }
    lemma_skip_run(t, x, w.len() as int);
}

/// The layout of a call does not matter: `tr!("C", "S")` with any white
/// space between its tokens (spaces, tabs, line breaks, including after the
/// comma) is the call with context `C` and source `S`, for any plain texts.
#[verifier::rlimit(100)]
pub proof fn law_two_argument_call_ignores_layout(
    p: Seq<char>,
    w0: Seq<char>,
    w1: Seq<char>,
    c: Seq<char>,
    w2: Seq<char>,
    w3: Seq<char>,
    s: Seq<char>,
    w4: Seq<char>,
)
    requires
        p.len() == 0 || !is_ident_char(p.last()),
        all_space(w0),
        all_space(w1),
        all_space(w2),
        all_space(w3),
        all_space(w4),
        plain_text(c),
        plain_text(s),
    ensures
        call_at(
            p + tr_bang() + w0 + seq!['('] + w1 + literal(c) + w2 + seq![','] + w3 + literal(s) + w4
                + seq![')'],
            p.len() as int,
        ) == Some((c, s)),
{
    let t = p + tr_bang() + w0 + seq!['('] + w1 + literal(c) + w2 + seq![','] + w3 + literal(s)
        + w4 + seq![')'];
    let a: int = p.len() as int + 3;
    let j: int = a + w0.len();
    let b: int = j + 1;
    let q1: int = b + w1.len();
    let k: int = q1 + c.len() + 2;
    let k2: int = k + w2.len();
    let d: int = k2 + 1;
    let q2: int = d + w3.len();
    let e: int = q2 + s.len() + 2;
    let z: int = e + w4.len();
    assert(t.len() == z + 1);
    assert(t.subrange(a, j) =~= w0);
    assert(t[j] == '(');
    assert(t.subrange(b, q1) =~= w1);
    assert(t.subrange(q1, k) =~= literal(c));
    assert(t.subrange(k, k2) =~= w2);
    assert(t[k2] == ',');
    assert(t.subrange(d, q2) =~= w3);
    assert(t.subrange(q2, e) =~= literal(s));
    assert(t[q1] == '"');
    assert(t[q2] == '"');
    if p.len() > 0 {
        assert(t[p.len() - 1] == p.last());
    }
    lemma_space_at(t, a as int, w0);
    lemma_space_at(t, b as int, w1);
    lemma_literal_at(t, q1 as int, c);
    lemma_space_at(t, k as int, w2);
    lemma_space_at(t, d as int, w3);
    lemma_literal_at(t, q2 as int, s);
}

/// The same for the one-argument form: `tr!("S")` laid out with any white
/// space is the call with source `S` in the default context.
#[verifier::rlimit(100)]
pub proof fn law_one_argument_call_ignores_layout(
    p: Seq<char>,
    w0: Seq<char>,
    w1: Seq<char>,
    s: Seq<char>,
    w2: Seq<char>,
)
    requires
        p.len() == 0 || !is_ident_char(p.last()),
        all_space(w0),
        all_space(w1),
        all_space(w2),
        plain_text(s),
    ensures
        call_at(
            p + tr_bang() + w0 + seq!['('] + w1 + literal(s) + w2 + seq![')'],
            p.len() as int,
        ) == Some((default_context(), s)),
{
    let t = p + tr_bang() + w0 + seq!['('] + w1 + literal(s) + w2 + seq![')'];
    let a: int = p.len() as int + 3;
    let j: int = a + w0.len();
    let b: int = j + 1;
    let q1: int = b + w1.len();
    let k: int = q1 + s.len() + 2;
    let k2: int = k + w2.len();
    assert(t.len() == k2 + 1);
    assert(t.subrange(a, j) =~= w0);
    assert(t[j] == '(');
    assert(t.subrange(b, q1) =~= w1);
    assert(t.subrange(q1, k) =~= literal(s));
    assert(t.subrange(k, k2) =~= w2);
    assert(t[k2] == ')');
    assert(t[q1] == '"');
    if p.len() > 0 {
        assert(t[p.len() - 1] == p.last());
    }
    lemma_space_at(t, a as int, w0);
    lemma_space_at(t, b as int, w1);
    lemma_literal_at(t, q1 as int, s);
    lemma_space_at(t, k as int, w2);
}

/// How a character is written inside a normal string literal: a quote, a
/// backslash and the control characters with an escape, anything else as
/// it is.
pub open spec fn escape_rust_char(c: char) -> Seq<char> {
    if c == '"' {
        seq!['\\', '"']
    } else if c == '\\' {
        seq!['\\', '\\']
    } else if c == '\n' {
        seq!['\\', 'n']
    } else if c == '\t' {
        seq!['\\', 't']
    } else if c == '\r' {
        seq!['\\', 'r']
    } else if c == '\0' {
        seq!['\\', '0']
    } else {
        seq![c]
    }
}

/// The body of a normal string literal holding `s`.
pub open spec fn escape_rust(s: Seq<char>) -> Seq<char>
    decreases s.len(),
{
    if s.len() == 0 {
        Seq::empty()
    } else {
        escape_rust_char(s[0]) + escape_rust(s.drop_first())
    }
}

proof fn lemma_parse_escaped_text(t: Seq<char>, j: int, acc: Seq<char>, c: Seq<char>)
    requires
        0 <= j,
        j + escape_rust(c).len() < t.len(),
        t.subrange(j, j + escape_rust(c).len()) == escape_rust(c),
        t[j + escape_rust(c).len()] == '"',
    ensures
        parse_escaped(t, j, acc) == Some((acc + c, j + escape_rust(c).len() + 1)),
    decreases c.len(),
{
    let e = escape_rust(c);
    if c.len() == 0 {
        assert(acc + c =~= acc);
    } else {
        let h = escape_rust_char(c[0]);
        let rest = escape_rust(c.drop_first());
        assert(e == h + rest);
        lemma_piece(t, j, e);
        assert(t[j + 0] == e[0]);
        assert(t.subrange(j + h.len(), j + h.len() + rest.len()) =~= rest) by {
            assert forall|k: int| 0 <= k < rest.len() implies t.subrange(
                j + h.len(),
                j + h.len() + rest.len(),
            )[k] == rest[k] by {
                assert(t[j + (h.len() + k)] == e[h.len() + k]);
            }
        }
        if h.len() == 2 {
            assert(t[j + 1] == e[1]);
        }
        lemma_parse_escaped_text(t, j + h.len(), acc.push(c[0]), c.drop_first());
        assert(acc.push(c[0]) + c.drop_first() =~= acc + c);
    }
}

/// Escapes are read back: the normal string literal written for any text
/// `s` (quotes, backslashes and control characters escaped) is read as
/// exactly `s`, ending just past its closing quote.
pub proof fn law_string_literal_reads_back(p: Seq<char>, s: Seq<char>, rest: Seq<char>)
    ensures
        parse_str_spec(p + seq!['"'] + escape_rust(s) + seq!['"'] + rest, p.len() as int) == Some(
            (s, (p.len() + escape_rust(s).len() + 2) as int),
        ),
{
    let t = p + seq!['"'] + escape_rust(s) + seq!['"'] + rest;
    let e = escape_rust(s);
    let j: int = p.len() as int + 1;
    assert(t[p.len() as int] == '"');
    assert(t.subrange(j, j + e.len()) =~= e);
    assert(t[j + e.len()] == '"');
    lemma_parse_escaped_text(t, j, Seq::empty(), s);
    assert(Seq::<char>::empty() + s =~= s);
}

/// `n` hashes.
pub open spec fn hashes(n: nat) -> Seq<char> {
    Seq::new(n, |i: int| '#')
}

proof fn lemma_hash_run(t: Seq<char>, h: int, n: int)
    requires
        0 <= h,
        0 <= n,
        h + n < t.len(),
        forall|k: int| h <= k < h + n ==> #[trigger] t[k] == '#',
        t[h + n] != '#',
    ensures
        hashes_end(t, h) == h + n,
    decreases n,
{
    if n > 0 {
        lemma_hash_run(t, h + 1, n - 1);
    }
}

proof fn lemma_raw_close(t: Seq<char>, from: int, q: int, n: int)
    requires
        0 <= from <= q,
        0 <= n,
        raw_closes_at(t, q, n),
        forall|k: int| from <= k < q ==> #[trigger] t[k] != '"',
    ensures
        raw_close_from(t, from, n) == Some(q),
    decreases q - from,
{
    if from < q {
        assert(t[from] != '"');
        assert(!raw_closes_at(t, from, n));
        lemma_raw_close(t, from + 1, q, n);
    }
}

/// Raw strings are read as written: `r##"C"##` (any number of hashes) holds
/// exactly `C`, for any `C` without a quote, ending just past its last hash.
pub proof fn law_raw_string_reads_back(p: Seq<char>, n: nat, c: Seq<char>, rest: Seq<char>)
    requires
        forall|i: int| 0 <= i < c.len() ==> #[trigger] c[i] != '"',
    ensures
        parse_str_spec(
            p + seq!['r'] + hashes(n) + seq!['"'] + c + seq!['"'] + hashes(n) + rest,
            p.len() as int,
        ) == Some((c, (p.len() + n + c.len() + n + 3) as int)),
{
    let t = p + seq!['r'] + hashes(n) + seq!['"'] + c + seq!['"'] + hashes(n) + rest;
    let i: int = p.len() as int;
    let h: int = i + 1 + n;
    let b: int = h + 1;
    let q: int = b + c.len();
    assert(t[i] == 'r');
    assert(t.subrange(i + 1, h) =~= hashes(n));
    assert forall|k: int| i + 1 <= k < h implies #[trigger] t[k] == '#' by {
        assert(t.subrange(i + 1, h)[k - i - 1] == t[k]);
    }
    assert(t[h] == '"');
    lemma_hash_run(t, i + 1, n as int);
    assert(t.subrange(b, q) =~= c);
    assert forall|k: int| b <= k < q implies #[trigger] t[k] != '"' by {
        assert(t.subrange(b, q)[k - b] == t[k]);
    }
    assert(t[q] == '"');
    assert(t.subrange(q + 1, q + 1 + n) =~= hashes(n));
    assert forall|k: int| q + 1 <= k <= q + n implies #[trigger] t[k] == '#' by {
        assert(t.subrange(q + 1, q + 1 + n)[k - q - 1] == t[k]);
    }
    assert(raw_closes_at(t, q, n as int));
    lemma_raw_close(t, b, q, n as int);
}

} // verus!
