//! What writing a catalogue and reading it back gives: escaping is undone
//! exactly, and a rendered `.ts` document parses back to the catalogue it
//! was rendered from.

use vstd::prelude::*;
use crate::text::{find_from, occurs_at, is_unicode_space};
use crate::i18n::xml::{
    amp_entity, lt_entity, gt_entity, quot_entity, escape_char, escape_spec, attr_char, attr_spec,
    replace_all, unescape_spec, trim_spec, trim_start, trim_end, between_spec,
};
use crate::i18n::sorted::{key_lt, keys_sorted, position, position_from, put, lookup, lemma_key_lt_irreflexive};
use crate::i18n::sorted::{key_set, lemma_put};
use crate::i18n::ts::{
    fill_context, merge_spec, prior_of, translation_of, FoundSeq,
    put_message, CatSeq, MsgSeq, render_message, render_messages, render_context,
    render_contexts, ts_header, render_ts_spec, parse_ts_spec, catalog_wf,
    newline, name_open, name_close, source_open, source_close, translation_open,
    translation_close, tag_end, read_line, read_lines, ReadState,
};

verus! {

/// `f` applied to every character of `s`, concatenated.
pub open spec fn flat(s: Seq<char>, f: spec_fn(char) -> Seq<char>) -> Seq<char>
    decreases s.len(),
{
    if s.len() == 0 {
        Seq::empty()
    } else {
        f(s[0]) + flat(s.drop_first(), f)
    }
}

proof fn lemma_flat_push(s: Seq<char>, c: char, f: spec_fn(char) -> Seq<char>)
    ensures
        flat(s.push(c), f) == flat(s, f) + f(c),
    decreases s.len(),
{
    if s.len() == 0 {
        assert(s.push(c).drop_first() =~= Seq::<char>::empty());
        assert(s.push(c)[0] == c);
        assert(flat(Seq::<char>::empty(), f) == Seq::<char>::empty());
        assert(flat(s.push(c), f) =~= f(c) + Seq::<char>::empty());
    } else {
        assert(s.push(c).drop_first() =~= s.drop_first().push(c));
        lemma_flat_push(s.drop_first(), c, f);
        assert(flat(s.push(c), f) =~= flat(s, f) + f(c));
    }
}

proof fn lemma_escape_flat(s: Seq<char>)
    ensures
        escape_spec(s) == flat(s, |c: char| escape_char(c)),
    decreases s.len(),
{
    if s.len() > 0 {
        lemma_escape_flat(s.drop_last());
        lemma_flat_push(s.drop_last(), s.last(), |c: char| escape_char(c));
        assert(s.drop_last().push(s.last()) =~= s);
    }
}

/// Replacing in text that holds no `&` changes nothing, when the pattern
/// starts with `&`.
proof fn lemma_replace_plain(w: Seq<char>, y: Seq<char>, pat: Seq<char>, rep: Seq<char>)
    requires
        pat.len() > 0,
        pat[0] == '&',
        forall|i: int| 0 <= i < w.len() ==> #[trigger] w[i] != '&',
    ensures
        replace_all(w + y, pat, rep) == w + replace_all(y, pat, rep),
    decreases w.len(),
{
    if w.len() > 0 {
        let s = w + y;
        if pat.len() <= s.len() {
            assert(s.take(pat.len() as int)[0] != pat[0]);
        }
        assert(s.drop_first() =~= w.drop_first() + y);
        lemma_replace_plain(w.drop_first(), y, pat, rep);
        assert(replace_all(s, pat, rep) =~= w + replace_all(y, pat, rep));
    } else {
        assert(w + y =~= y);
    }
}

/// Replacing at an entity that is not the pattern leaves the entity.
proof fn lemma_replace_other_entity(e: Seq<char>, y: Seq<char>, pat: Seq<char>, rep: Seq<char>)
    requires
        pat.len() >= 2,
        pat[0] == '&',
        e.len() >= 2,
        e[0] == '&',
        e[1] != pat[1],
        forall|i: int| 1 <= i < e.len() ==> #[trigger] e[i] != '&',
    ensures
        replace_all(e + y, pat, rep) == e + replace_all(y, pat, rep),
{
    let s = e + y;
    if pat.len() <= s.len() {
        assert(s.take(pat.len() as int)[1] != pat[1]);
    }
    let w = e.drop_first();
    assert(s.drop_first() =~= w + y);
    lemma_replace_plain(w, y, pat, rep);
    assert(replace_all(s, pat, rep) =~= e + replace_all(y, pat, rep));
}

/// Replacing at the pattern itself.
proof fn lemma_replace_match(y: Seq<char>, pat: Seq<char>, rep: Seq<char>)
    requires
        pat.len() > 0,
    ensures
        replace_all(pat + y, pat, rep) == rep + replace_all(y, pat, rep),
{
    let s = pat + y;
    assert(s.take(pat.len() as int) =~= pat);
    assert(s.skip(pat.len() as int) =~= y);
}

proof fn lemma_entities()
    ensures
        amp_entity().len() == 5,
        lt_entity().len() == 4,
        gt_entity().len() == 4,
        quot_entity().len() == 6,
        forall|i: int| 1 <= i < 5 ==> #[trigger] amp_entity()[i] != '&',
        forall|i: int| 1 <= i < 4 ==> #[trigger] lt_entity()[i] != '&',
        forall|i: int| 1 <= i < 4 ==> #[trigger] gt_entity()[i] != '&',
{
}

/// One replacement pass maps `flat(s, f)` to `flat(s, g)` when it does so
/// character by character.
proof fn lemma_pass(
    s: Seq<char>,
    f: spec_fn(char) -> Seq<char>,
    g: spec_fn(char) -> Seq<char>,
    pat: Seq<char>,
    rep: Seq<char>,
)
    requires
        forall|c: char, y: Seq<char>|
            #[trigger] replace_all(f(c) + y, pat, rep) == g(c) + replace_all(y, pat, rep),
    ensures
        replace_all(flat(s, f), pat, rep) == flat(s, g),
    decreases s.len(),
{
    if s.len() == 0 {
    } else {
        lemma_pass(s.drop_first(), f, g, pat, rep);
        let y = flat(s.drop_first(), f);
        assert(replace_all(f(s[0]) + y, pat, rep) == g(s[0]) + replace_all(y, pat, rep));
    }
}

pub open spec fn after_lt(c: char) -> Seq<char> {
    if c == '&' {
        amp_entity()
    } else if c == '>' {
        gt_entity()
    } else {
        seq![c]
    }
}

pub open spec fn after_gt(c: char) -> Seq<char> {
    if c == '&' {
        amp_entity()
    } else {
        seq![c]
    }
}

pub open spec fn unit(c: char) -> Seq<char> {
    seq![c]
}

proof fn lemma_flat_unit(s: Seq<char>)
    ensures
        flat(s, |c: char| unit(c)) == s,
    decreases s.len(),
{
    if s.len() > 0 {
        lemma_flat_unit(s.drop_first());
        assert(seq![s[0]] + s.drop_first() =~= s);
    }
}

/// Unescaping escaped text gives back the text that was escaped.
pub proof fn lemma_unescape_escape(s: Seq<char>)
    ensures
        unescape_spec(escape_spec(s)) == s,
{
    lemma_entities();
    lemma_escape_flat(s);
    let f0 = |c: char| escape_char(c);
    let f1 = |c: char| after_lt(c);
    let f2 = |c: char| after_gt(c);
    let f3 = |c: char| unit(c);
    assert forall|c: char, y: Seq<char>|
        #[trigger] replace_all(f0(c) + y, lt_entity(), seq!['<']) == f1(c) + replace_all(
            y,
            lt_entity(),
            seq!['<'],
        ) by {
        if c == '<' {
            lemma_replace_match(y, lt_entity(), seq!['<']);
        } else if c == '&' {
            lemma_replace_other_entity(amp_entity(), y, lt_entity(), seq!['<']);
        } else if c == '>' {
            lemma_replace_other_entity(gt_entity(), y, lt_entity(), seq!['<']);
        } else {
            lemma_replace_plain(seq![c], y, lt_entity(), seq!['<']);
        }
    }
    lemma_pass(s, f0, f1, lt_entity(), seq!['<']);
    assert forall|c: char, y: Seq<char>|
        #[trigger] replace_all(f1(c) + y, gt_entity(), seq!['>']) == f2(c) + replace_all(
            y,
            gt_entity(),
            seq!['>'],
        ) by {
        if c == '>' {
            lemma_replace_match(y, gt_entity(), seq!['>']);
        } else if c == '&' {
            lemma_replace_other_entity(amp_entity(), y, gt_entity(), seq!['>']);
        } else {
            lemma_replace_plain(seq![c], y, gt_entity(), seq!['>']);
        }
    }
    lemma_pass(s, f1, f2, gt_entity(), seq!['>']);
    assert forall|c: char, y: Seq<char>|
        #[trigger] replace_all(f2(c) + y, quot_entity(), seq!['"']) == f2(c) + replace_all(
            y,
            quot_entity(),
            seq!['"'],
        ) by {
        if c == '&' {
            lemma_replace_other_entity(amp_entity(), y, quot_entity(), seq!['"']);
        } else {
            lemma_replace_plain(seq![c], y, quot_entity(), seq!['"']);
        }
    }
    lemma_pass(s, f2, f2, quot_entity(), seq!['"']);
    assert forall|c: char, y: Seq<char>|
        #[trigger] replace_all(f2(c) + y, amp_entity(), seq!['&']) == f3(c) + replace_all(
            y,
            amp_entity(),
            seq!['&'],
        ) by {
        if c == '&' {
            lemma_replace_match(y, amp_entity(), seq!['&']);
        } else {
            lemma_replace_plain(seq![c], y, amp_entity(), seq!['&']);
        }
    }
    lemma_pass(s, f2, f3, amp_entity(), seq!['&']);
    lemma_flat_unit(s);
}

} // verus!

verus! {

// ---------------------------------------------------------------------------
// Lines
// ---------------------------------------------------------------------------

/// `s` holds no line break.
pub open spec fn no_newline(s: Seq<char>) -> bool {
    forall|i: int| 0 <= i < s.len() ==> #[trigger] s[i] != '\n'
}

/// No `<` in `t` is directly followed by `c`.
pub open spec fn lt_not_before(t: Seq<char>, c: char) -> bool {
    forall|i: int| 0 <= i < t.len() - 1 && #[trigger] t[i] == '<' ==> t[i + 1] != c
}

/// No `<` in `t` opens a `<n…`, `<s…` or `<t…` tag, so no line of it is one
/// the reader reacts to.
pub open spec fn inert(t: Seq<char>) -> bool {
    &&& lt_not_before(t, 'n')
    &&& lt_not_before(t, 's')
    &&& lt_not_before(t, 't')
}

proof fn lemma_occurs_nl(s: Seq<char>, k: int)
    requires
        0 <= k < s.len(),
    ensures
        occurs_at(s, newline(), k) <==> s[k] == '\n',
{
    if s[k] == '\n' {
        assert(s.subrange(k, k + 1) =~= newline());
    } else {
        assert(s.subrange(k, k + 1)[0] != newline()[0]);
    }
}

proof fn lemma_find_nl_from(s: Seq<char>, e: int, j: int)
    requires
        0 <= j <= e < s.len(),
        s[e] == '\n',
        forall|k: int| j <= k < e ==> #[trigger] s[k] != '\n',
    ensures
        find_from(s, newline(), j) == Some(e),
    decreases e - j,
{
    lemma_occurs_nl(s, j);
    if j < e {
        lemma_find_nl_from(s, e, j + 1);
    }
}

proof fn lemma_find_nl_none(s: Seq<char>, j: int)
    requires
        0 <= j,
        no_newline(s),
    ensures
        find_from(s, newline(), j) is None,
    decreases s.len() + 1 - j,
{
    if j + 1 <= s.len() {
        lemma_occurs_nl(s, j);
        lemma_find_nl_none(s, j + 1);
    }
}

/// Reading a line without a break, then the rest.
pub proof fn lemma_read_line_first(l: Seq<char>, r: Seq<char>, st: ReadState)
    requires
        no_newline(l),
    ensures
        read_lines(l + newline() + r, st) == read_lines(r, read_line(trim_spec(l), st)),
{
    let s = l + newline() + r;
    assert forall|k: int| 0 <= k < l.len() implies #[trigger] s[k] != '\n' by {
        assert(s[k] == l[k]);
    }
    assert(s[l.len() as int] == '\n');
    lemma_find_nl_from(s, l.len() as int, 0);
    assert(s.take(l.len() as int) =~= l);
    assert(s.skip(l.len() as int + 1) =~= r);
}

/// The empty tail changes nothing.
pub proof fn lemma_read_empty(st: ReadState)
    ensures
        read_lines(Seq::empty(), st) == st,
{
    let e = Seq::<char>::empty();
    assert(find_from(e, newline(), 0) is None);
    assert(trim_start(e) == e);
    assert(trim_end(e) == e);
    assert(find_from(e, name_open(), 0) is None);
    assert(find_from(e, source_open(), 0) is None);
    assert(!occurs_at(e, translation_open(), 0));
}

proof fn lemma_no_occurrence(t: Seq<char>, pat: Seq<char>, j: int)
    requires
        pat.len() >= 2,
        pat[0] == '<',
        lt_not_before(t, pat[1]),
        0 <= j,
    ensures
        find_from(t, pat, j) is None,
    decreases t.len() + 1 - j,
{
    if j + pat.len() <= t.len() {
        if occurs_at(t, pat, j) {
            assert(t.subrange(j, j + pat.len())[0] == pat[0]);
            assert(t.subrange(j, j + pat.len())[1] == pat[1]);
            assert(t[j] == '<');
            assert(t[j + 1] == pat[1]);
        }
        lemma_no_occurrence(t, pat, j + 1);
    }
}

proof fn lemma_inert_drop_first(t: Seq<char>)
    requires
        inert(t),
        t.len() > 0,
    ensures
        inert(t.drop_first()),
{
    let u = t.drop_first();
    assert forall|i: int| 0 <= i < u.len() - 1 && #[trigger] u[i] == '<' implies u[i + 1] != 'n'
        && u[i + 1] != 's' && u[i + 1] != 't' by {
        assert(t[i + 1] == '<');
    }
}

proof fn lemma_inert_take(t: Seq<char>, n: int)
    requires
        inert(t),
        0 <= n <= t.len(),
    ensures
        inert(t.take(n)),
{
    let u = t.take(n);
    assert forall|i: int| 0 <= i < u.len() - 1 && #[trigger] u[i] == '<' implies u[i + 1] != 'n'
        && u[i + 1] != 's' && u[i + 1] != 't' by {
        assert(t[i] == '<');
    }
}

proof fn lemma_inert_skip(t: Seq<char>, n: int)
    requires
        inert(t),
        0 <= n <= t.len(),
    ensures
        inert(t.skip(n)),
{
    let u = t.skip(n);
    assert forall|i: int| 0 <= i < u.len() - 1 && #[trigger] u[i] == '<' implies u[i + 1] != 'n'
        && u[i + 1] != 's' && u[i + 1] != 't' by {
        assert(t[n + i] == '<');
    }
}

proof fn lemma_inert_trim(t: Seq<char>)
    requires
        inert(t),
    ensures
        inert(trim_spec(t)),
{
    lemma_inert_trim_start(t);
    lemma_inert_trim_end(trim_start(t));
}

proof fn lemma_inert_trim_start(t: Seq<char>)
    requires
        inert(t),
    ensures
        inert(trim_start(t)),
    decreases t.len(),
{
    if t.len() > 0 && is_unicode_space(t[0]) {
        lemma_inert_drop_first(t);
        lemma_inert_trim_start(t.drop_first());
    }
}

proof fn lemma_inert_trim_end(t: Seq<char>)
    requires
        inert(t),
    ensures
        inert(trim_end(t)),
    decreases t.len(),
{
    if t.len() > 0 && is_unicode_space(t.last()) {
        lemma_inert_take(t, t.len() - 1);
        assert(t.drop_last() == t.take(t.len() - 1));
        lemma_inert_trim_end(t.drop_last());
    }
}

/// An inert line leaves the reader as it was.
proof fn lemma_inert_line(t: Seq<char>, st: ReadState)
    requires
        inert(t),
    ensures
        read_line(trim_spec(t), st) == st,
{
    let u = trim_spec(t);
    lemma_inert_trim(t);
    lemma_no_occurrence(u, name_open(), 0);
    lemma_no_occurrence(u, source_open(), 0);
    if occurs_at(u, translation_open(), 0) {
        assert(u.subrange(0, 12)[0] == '<');
        assert(u.subrange(0, 12)[1] == 't');
        assert(u[0] == '<');
        assert(u[1] == 't');
    }
}

/// Reading a block of inert lines, then the rest.
pub proof fn lemma_read_inert(x: Seq<char>, r: Seq<char>, st: ReadState)
    requires
        inert(x),
    ensures
        read_lines(x + newline() + r, st) == read_lines(r, st),
    decreases x.len(),
{
    lemma_first_newline(x, 0);
    let e = first_newline_from(x, 0);
    if e == x.len() {
        assert(no_newline(x));
        lemma_read_line_first(x, r, st);
        lemma_inert_line(x, st);
    } else {
        let l = x.take(e);
        let rest = x.skip(e + 1);
        assert(no_newline(l));
        assert(x + newline() + r =~= l + newline() + (rest + newline() + r));
        lemma_read_line_first(l, rest + newline() + r, st);
        lemma_inert_take(x, e);
        lemma_inert_line(l, st);
        lemma_inert_skip(x, e + 1);
        lemma_read_inert(rest, r, st);
    }
}

/// The index of the first line break at or after `j`, or the length.
pub open spec fn first_newline_from(x: Seq<char>, j: int) -> int
    decreases x.len() - j,
{
    if j < 0 || j >= x.len() {
        x.len() as int
    } else if x[j] == '\n' {
        j
    } else {
        first_newline_from(x, j + 1)
    }
}

proof fn lemma_first_newline(x: Seq<char>, j: int)
    requires
        0 <= j <= x.len(),
    ensures
        j <= first_newline_from(x, j) <= x.len(),
        first_newline_from(x, j) < x.len() ==> x[first_newline_from(x, j)] == '\n',
        forall|k: int| j <= k < first_newline_from(x, j) ==> #[trigger] x[k] != '\n',
    decreases x.len() - j,
{
    if j < x.len() && x[j] != '\n' {
        lemma_first_newline(x, j + 1);
    }
}

} // verus!

verus! {

// ---------------------------------------------------------------------------
// Appending in key order
// ---------------------------------------------------------------------------

/// Every key of `s` is below `k`.
pub open spec fn keys_below<W>(s: Seq<(Seq<char>, W)>, k: Seq<char>) -> bool {
    forall|i: int| 0 <= i < s.len() ==> key_lt(#[trigger] s[i].0, k)
}

proof fn lemma_position_from_end<W>(s: Seq<(Seq<char>, W)>, k: Seq<char>, i: int)
    requires
        keys_below(s, k),
        0 <= i <= s.len(),
    ensures
        position_from(s, k, i) == s.len(),
    decreases s.len() - i,
{
    if i < s.len() {
        lemma_position_from_end(s, k, i + 1);
    }
}

proof fn lemma_put_end<W>(s: Seq<(Seq<char>, W)>, k: Seq<char>, v: W)
    requires
        keys_below(s, k),
    ensures
        put(s, k, v) == s.push((k, v)),
        lookup(s, k) is None,
{
    lemma_position_from_end(s, k, 0);
    assert(s.insert(s.len() as int, (k, v)) =~= s.push((k, v)));
}

proof fn lemma_put_last<W>(s: Seq<(Seq<char>, W)>, k: Seq<char>, v0: W, v: W)
    requires
        keys_below(s, k),
    ensures
        put(s.push((k, v0)), k, v) == s.push((k, v)),
        lookup(s.push((k, v0)), k) == Some(v0),
{
    let t = s.push((k, v0));
    assert forall|i: int| 0 <= i < s.len() implies key_lt(#[trigger] t[i].0, k) by {
        assert(t[i] == s[i]);
    }
    lemma_position_from_end_push(s, k, v0, 0);
    lemma_key_lt_irreflexive(k);
    assert(t.update(s.len() as int, (k, v)) =~= s.push((k, v)));
}

proof fn lemma_position_from_end_push<W>(s: Seq<(Seq<char>, W)>, k: Seq<char>, v0: W, i: int)
    requires
        keys_below(s, k),
        0 <= i <= s.len(),
    ensures
        position_from(s.push((k, v0)), k, i) == s.len(),
    decreases s.len() - i,
{
    let t = s.push((k, v0));
    if i < s.len() {
        assert(t[i] == s[i]);
        lemma_position_from_end_push(s, k, v0, i + 1);
    } else {
        lemma_key_lt_irreflexive(k);
    }
}

// ---------------------------------------------------------------------------
// Escaped text
// ---------------------------------------------------------------------------

/// Escaped text holds no `<` or `>`, and a line break only where the text had one.
proof fn lemma_escape_shape(s: Seq<char>)
    ensures
        forall|i: int| 0 <= i < escape_spec(s).len() ==> #[trigger] escape_spec(s)[i] != '<'
            && escape_spec(s)[i] != '>',
        no_newline(s) ==> no_newline(escape_spec(s)),
    decreases s.len(),
{
    if s.len() > 0 {
        lemma_escape_shape(s.drop_last());
        let a = escape_spec(s.drop_last());
        let b = escape_char(s.last());
        assert(escape_spec(s) == a + b);
        if no_newline(s) {
            assert(no_newline(s.drop_last()));
            assert(s[s.len() - 1] != '\n');
        }
        assert forall|i: int| 0 <= i < (a + b).len() implies #[trigger] (a + b)[i] != '<' && (a
            + b)[i] != '>' && (no_newline(s) ==> (a + b)[i] != '\n') by {
            if i >= a.len() {
                assert((a + b)[i] == b[i - a.len()]);
            } else {
                assert((a + b)[i] == a[i]);
            }
        }
    }
}

/// Attribute-escaped text holds no `<`.
proof fn lemma_attr_shape(s: Seq<char>)
    ensures
        forall|i: int| 0 <= i < attr_spec(s).len() ==> #[trigger] attr_spec(s)[i] != '<',
    decreases s.len(),
{
    if s.len() > 0 {
        lemma_attr_shape(s.drop_last());
        let a = attr_spec(s.drop_last());
        let b = attr_char(s.last());
        assert forall|i: int| 0 <= i < (a + b).len() implies #[trigger] (a + b)[i] != '<' by {
            if i >= a.len() {
                assert((a + b)[i] == b[i - a.len()]);
            } else {
                assert((a + b)[i] == a[i]);
            }
        }
    }
}

// ---------------------------------------------------------------------------
// Tags on a line
// ---------------------------------------------------------------------------

proof fn lemma_lt_not_before_concat(x: Seq<char>, y: Seq<char>, c: char)
    requires
        lt_not_before(x, c),
        lt_not_before(y, c),
        x.len() > 0 ==> x.last() != '<',
    ensures
        lt_not_before(x + y, c),
{
    let z = x + y;
    assert forall|i: int| 0 <= i < z.len() - 1 && #[trigger] z[i] == '<' implies z[i + 1] != c by {
        if i < x.len() {
            assert(z[i] == x[i]);
            if i + 1 < x.len() {
                assert(z[i + 1] == x[i + 1]);
            } else {
                assert(x.last() == x[i]);
            }
        } else {
            assert(z[i] == y[i - x.len()]);
            assert(z[i + 1] == y[i + 1 - x.len()]);
        }
    }
}

/// The first occurrence of `pat` at or after `from` is at `q`.
proof fn lemma_find_at(t: Seq<char>, pat: Seq<char>, from: int, q: int)
    requires
        0 <= from <= q,
        occurs_at(t, pat, q),
        forall|j: int| from <= j < q ==> !#[trigger] occurs_at(t, pat, j),
    ensures
        find_from(t, pat, from) == Some(q),
    decreases q - from,
{
    if from < q {
        lemma_find_at(t, pat, from + 1, q);
    }
}

/// In `open + e + close` with no `<` in `e`, the text between the tags is `e`.
proof fn lemma_between_tags(open: Seq<char>, e: Seq<char>, close: Seq<char>)
    requires
        open.len() > 0,
        close.len() > 0,
        close[0] == '<',
        forall|i: int| 0 <= i < e.len() ==> #[trigger] e[i] != '<',
        forall|j: int| 0 <= j < open.len() ==> !#[trigger] occurs_at(open + e + close, close, j),
    ensures
        between_spec(open + e + close, open, close) == Some(e),
        find_from(open + e + close, close, open.len() as int) == Some((open.len() + e.len()) as int),
        (open + e + close).subrange(open.len() as int, (open.len() + e.len()) as int) == e,
{
    let t = open + e + close;
    assert(t.subrange(0, open.len() as int) =~= open);
    lemma_find_at(t, open, 0, 0);
    let q: int = (open.len() + e.len()) as int;
    assert(t.subrange(q, q + close.len()) =~= close);
    assert forall|j: int| open.len() <= j < q implies !#[trigger] occurs_at(t, close, j) by {
        assert(t[j] == e[j - open.len()]);
        if occurs_at(t, close, j) {
            assert(t.subrange(j, j + close.len())[0] == close[0]);
        }
    }
    assert forall|j: int| 0 <= j < q implies !#[trigger] occurs_at(t, close, j) by {
        if j < open.len() {
        }
    }
    lemma_find_at(t, close, open.len() as int, q);
    assert(t.subrange(open.len() as int, q) =~= e);
}

/// Leading spaces and the tag boundaries: trimming `spaces + t` gives `t`.
proof fn lemma_trim_indented(sp: Seq<char>, t: Seq<char>)
    requires
        forall|i: int| 0 <= i < sp.len() ==> #[trigger] sp[i] == ' ',
        t.len() > 0,
        t[0] == '<',
        t.last() == '>',
    ensures
        trim_spec(sp + t) == t,
    decreases sp.len(),
{
    if sp.len() > 0 {
        assert((sp + t)[0] == ' ');
        assert((sp + t).drop_first() =~= sp.drop_first() + t);
        lemma_trim_indented(sp.drop_first(), t);
    } else {
        assert(sp + t =~= t);
        assert(trim_start(t) == t);
        assert(trim_end(t) == t);
    }
}

} // verus!

verus! {

// ---------------------------------------------------------------------------
// The lines of a rendered message
// ---------------------------------------------------------------------------

pub open spec fn indent4() -> Seq<char> {
    seq![' ', ' ', ' ', ' ']
}

pub open spec fn indent8() -> Seq<char> {
    indent4() + indent4()
}

pub open spec fn source_line(s: Seq<char>) -> Seq<char> {
    indent8() + source_open() + escape_spec(s) + source_close()
}

pub open spec fn translation_line(t: Seq<char>) -> Seq<char> {
    if t.len() == 0 {
        indent8() + "<translation type=\"unfinished\"></translation>"@
    } else {
        indent8() + "<translation>"@ + escape_spec(t) + translation_close()
    }
}

proof fn lemma_message_lines(s: Seq<char>, t: Seq<char>)
    ensures
        render_message((s, t)) == (indent4() + "<message>"@) + newline() + source_line(s)
            + newline() + translation_line(t) + newline() + (indent4() + "</message>"@)
            + newline(),
{
    reveal_strlit("    <message>\n");
    reveal_strlit("        <source>");
    reveal_strlit("</source>\n");
    reveal_strlit("        <translation type=\"unfinished\"></translation>\n");
    reveal_strlit("        <translation>");
    reveal_strlit("</translation>\n");
    reveal_strlit("    </message>\n");
    reveal_strlit("<message>");
    reveal_strlit("</message>");
    reveal_strlit("<translation type=\"unfinished\"></translation>");
    reveal_strlit("<translation>");
    assert(render_message((s, t)) =~= (indent4() + "<message>"@) + newline() + source_line(s)
        + newline() + translation_line(t) + newline() + (indent4() + "</message>"@)
        + newline());
}

proof fn lemma_no_lt(e: Seq<char>, c: char)
    requires
        forall|i: int| 0 <= i < e.len() ==> #[trigger] e[i] != '<',
    ensures
        lt_not_before(e, c),
        inert(e),
{
}

/// Reading the source line of a message.
proof fn lemma_read_source(s: Seq<char>, st: ReadState)
    ensures
        read_line(trim_spec(source_line(s)), st) == (st.0, Some(s), st.2),
{
    let e = escape_spec(s);
    lemma_escape_shape(s);
    let t = source_open() + e + source_close();
    assert(source_line(s) =~= indent8() + t);
    assert(t[0] == '<');
    assert(t.last() == '>');
    lemma_trim_indented(indent8(), t);
    lemma_no_lt(e, 'n');
    lemma_lt_not_before_concat(source_open(), e, 'n');
    lemma_lt_not_before_concat(source_open() + e, source_close(), 'n');
    lemma_no_occurrence(t, name_open(), 0);
    assert forall|j: int| 0 <= j < source_open().len() implies !#[trigger] occurs_at(
        t,
        source_close(),
        j,
    ) by {
        if occurs_at(t, source_close(), j) {
            assert(t.subrange(j, j + 9)[0] == t[j]);
            assert(t.subrange(j, j + 9)[1] == t[j + 1]);
        }
    }
    lemma_between_tags(source_open(), e, source_close());
    lemma_unescape_escape(s);
}

/// Reading the line of a message left untranslated.
proof fn lemma_read_unfinished(st: ReadState, src: Seq<char>)
    requires
        st.1 == Some(src),
    ensures
        read_line(trim_spec(translation_line(Seq::empty())), st) == (
            st.0,
            None::<Seq<char>>,
            put_message(st.2, st.0, src, Seq::empty()),
        ),
{
    reveal_strlit("<translation type=\"unfinished\"></translation>");
    let u = "<translation type=\"unfinished\"></translation>"@;
    assert(u.len() == 45);
    lemma_trim_indented(indent8(), u);
    assert(lt_not_before(u, 'n'));
    assert(lt_not_before(u, 's'));
    lemma_no_occurrence(u, name_open(), 0);
    lemma_no_occurrence(u, source_open(), 0);
    assert(u.subrange(0, 12) =~= translation_open());
    assert(u.subrange(30, 31) =~= tag_end());
    assert forall|j: int| 0 <= j < 30 implies !#[trigger] occurs_at(u, tag_end(), j) by {
        if occurs_at(u, tag_end(), j) {
            assert(u.subrange(j, j + 1)[0] == u[j]);
        }
    }
    lemma_find_at(u, tag_end(), 0, 30);
    assert(u.subrange(31, 45) =~= translation_close());
    lemma_find_at(u, translation_close(), 31, 31);
    assert(u.subrange(31, 31) =~= Seq::<char>::empty());
    let z = Seq::<char>::empty();
    assert(replace_all(z, lt_entity(), seq!['<']) == z);
    assert(replace_all(z, gt_entity(), seq!['>']) == z);
    assert(replace_all(z, quot_entity(), seq!['"']) == z);
    assert(replace_all(z, amp_entity(), seq!['&']) == z);
    assert(unescape_spec(z) == z);
}

/// Reading the line of a translated message.
#[verifier::rlimit(40)]
proof fn lemma_read_translated(t: Seq<char>, st: ReadState, src: Seq<char>)
    requires
        st.1 == Some(src),
        t.len() > 0,
    ensures
        read_line(trim_spec(translation_line(t)), st) == (
            st.0,
            None::<Seq<char>>,
            put_message(st.2, st.0, src, t),
        ),
{
    reveal_strlit("<translation>");
    let e = escape_spec(t);
    lemma_escape_shape(t);
    let open = "<translation>"@;
    let u = open + e + translation_close();
    assert(translation_line(t) =~= indent8() + u);
    assert(u[0] == '<');
    assert(u.last() == '>');
    lemma_trim_indented(indent8(), u);
    lemma_no_lt(e, 'n');
    assert(lt_not_before(open, 'n'));
    assert(lt_not_before(open, 's'));
    assert(lt_not_before(translation_close(), 'n'));
    assert(lt_not_before(translation_close(), 's'));
    lemma_lt_not_before_concat(open, e, 'n');
    lemma_lt_not_before_concat(open + e, translation_close(), 'n');
    lemma_lt_not_before_concat(open, e, 's');
    lemma_lt_not_before_concat(open + e, translation_close(), 's');
    lemma_no_occurrence(u, name_open(), 0);
    lemma_no_occurrence(u, source_open(), 0);
    assert(u.subrange(0, 12) =~= translation_open());
    assert(u.subrange(12, 13) =~= tag_end());
    assert forall|j: int| 0 <= j < 12 implies !#[trigger] occurs_at(u, tag_end(), j) by {
        if occurs_at(u, tag_end(), j) {
            assert(u.subrange(j, j + 1)[0] == u[j]);
        }
    }
    lemma_find_at(u, tag_end(), 0, 12);
    assert forall|j: int| 0 <= j < open.len() implies !#[trigger] occurs_at(
        u,
        translation_close(),
        j,
    ) by {
        if occurs_at(u, translation_close(), j) {
            assert(u.subrange(j, j + 14)[0] == u[j]);
            assert(u.subrange(j, j + 14)[1] == u[j + 1]);
        }
    }
    lemma_between_tags(open, e, translation_close());
    assert(between_spec(u, tag_end(), translation_close()) == Some(e));
    lemma_unescape_escape(t);
}

} // verus!

verus! {

// ---------------------------------------------------------------------------
// Messages, contexts, documents
// ---------------------------------------------------------------------------

/// The catalogue `d` followed by context `k` holding `msgs`, the context
/// left out while it holds no message yet.
pub open spec fn with_context(d: CatSeq, k: Seq<char>, msgs: MsgSeq) -> CatSeq {
    if msgs.len() == 0 {
        d
    } else {
        d.push((k, msgs))
    }
}

proof fn lemma_no_newline_concat(a: Seq<char>, b: Seq<char>)
    requires
        no_newline(a),
        no_newline(b),
    ensures
        no_newline(a + b),
{
    assert forall|i: int| 0 <= i < (a + b).len() implies #[trigger] (a + b)[i] != '\n' by {
        if i < a.len() {
            assert((a + b)[i] == a[i]);
        } else {
            assert((a + b)[i] == b[i - a.len()]);
        }
    }
}

proof fn lemma_inert_concat(x: Seq<char>, y: Seq<char>)
    requires
        inert(x),
        inert(y),
        x.len() > 0 ==> x.last() != '<',
    ensures
        inert(x + y),
{
    lemma_lt_not_before_concat(x, y, 'n');
    lemma_lt_not_before_concat(x, y, 's');
    lemma_lt_not_before_concat(x, y, 't');
}

proof fn lemma_put_message_append(d: CatSeq, k: Seq<char>, msgs: MsgSeq, s: Seq<char>, t: Seq<char>)
    requires
        keys_below(d, k),
        keys_below(msgs, s),
    ensures
        put_message(with_context(d, k, msgs), k, s, t) == with_context(d, k, msgs.push((s, t))),
{
    lemma_put_end(msgs, s, t);
    if msgs.len() == 0 {
        lemma_put_end(d, k, put(msgs, s, t));
        assert(msgs =~= Seq::<(Seq<char>, Seq<char>)>::empty());
    } else {
        lemma_put_last(d, k, msgs, msgs.push((s, t)));
    }
}

proof fn lemma_read_message(
    s: Seq<char>,
    t: Seq<char>,
    r: Seq<char>,
    k: Seq<char>,
    d: CatSeq,
    msgs: MsgSeq,
)
    requires
        keys_below(d, k),
        keys_below(msgs, s),
        no_newline(s),
        no_newline(t),
    ensures
        read_lines(render_message((s, t)) + r, (k, None, with_context(d, k, msgs))) == read_lines(
            r,
            (k, None, with_context(d, k, msgs.push((s, t)))),
        ),
{
    reveal_strlit("<message>");
    reveal_strlit("</message>");
    reveal_strlit("<translation type=\"unfinished\"></translation>");
    reveal_strlit("<translation>");
    lemma_message_lines(s, t);
    let a = indent4() + "<message>"@;
    let sl = source_line(s);
    let tl = translation_line(t);
    let b = indent4() + "</message>"@;
    let st0: ReadState = (k, None, with_context(d, k, msgs));
    let st1: ReadState = (k, Some(s), with_context(d, k, msgs));
    let st2: ReadState = (k, None, with_context(d, k, msgs.push((s, t))));
    let r3 = b + newline() + r;
    let r2 = tl + newline() + r3;
    let r1 = sl + newline() + r2;
    assert(render_message((s, t)) + r =~= a + newline() + r1);
    assert(inert(a));
    lemma_read_inert(a, r1, st0);
    lemma_escape_shape(s);
    lemma_escape_shape(t);
    assert(no_newline(indent8() + source_open()));
    lemma_no_newline_concat(indent8() + source_open(), escape_spec(s));
    lemma_no_newline_concat(indent8() + source_open() + escape_spec(s), source_close());
    assert(no_newline(sl));
    lemma_read_line_first(sl, r2, st0);
    lemma_read_source(s, st0);
    assert(read_lines(r1, st0) == read_lines(r2, st1));
    if t.len() == 0 {
        assert(no_newline(tl));
        lemma_read_line_first(tl, r3, st1);
        lemma_read_unfinished(st1, s);
        assert(t =~= Seq::<char>::empty());
        assert(read_lines(r2, st1) == read_lines(r3, (k, None::<Seq<char>>, put_message(st1.2, k, s, t))));
    } else {
        assert(no_newline(indent8() + "<translation>"@));
        lemma_no_newline_concat(indent8() + "<translation>"@, escape_spec(t));
        lemma_no_newline_concat(indent8() + "<translation>"@ + escape_spec(t), translation_close());
        lemma_read_line_first(tl, r3, st1);
        lemma_read_translated(t, st1, s);
        assert(read_lines(r2, st1) == read_lines(r3, (k, None::<Seq<char>>, put_message(st1.2, k, s, t))));
    }
    lemma_put_message_append(d, k, msgs, s, t);
    assert(read_lines(r2, st1) == read_lines(r3, st2));
    assert(inert(b));
    lemma_read_inert(b, r, st2);
}

/// A sequence of messages with line-free texts.
pub open spec fn messages_line_free(m: MsgSeq) -> bool {
    forall|i: int| 0 <= i < m.len() ==> no_newline(#[trigger] m[i].0) && no_newline(m[i].1)
}

proof fn lemma_read_messages(m: MsgSeq, r: Seq<char>, k: Seq<char>, d: CatSeq, msgs: MsgSeq)
    requires
        keys_sorted(m),
        messages_line_free(m),
        keys_below(d, k),
        forall|i: int, j: int|
            0 <= i < msgs.len() && 0 <= j < m.len() ==> key_lt(#[trigger] msgs[i].0, #[trigger] m[j].0),
    ensures
        read_lines(render_messages(m) + r, (k, None, with_context(d, k, msgs))) == read_lines(
            r,
            (k, None, with_context(d, k, msgs + m)),
        ),
    decreases m.len(),
{
    if m.len() == 0 {
        assert(render_messages(m) + r =~= r);
        assert(msgs + m =~= msgs);
    } else {
        let m0 = m.drop_last();
        let l = m.last();
        assert(render_messages(m) + r =~= render_messages(m0) + (render_message(l) + r));
        lemma_read_messages(m0, render_message(l) + r, k, d, msgs);
        let acc = msgs + m0;
        assert forall|i: int| 0 <= i < acc.len() implies key_lt(#[trigger] acc[i].0, l.0) by {
            if i < msgs.len() {
                assert(acc[i] == msgs[i]);
                assert(key_lt(msgs[i].0, m[m.len() - 1].0));
            } else {
                assert(acc[i] == m[i - msgs.len()]);
                assert(key_lt(m[i - msgs.len()].0, m[m.len() - 1].0));
            }
        }
        assert(no_newline(m[m.len() - 1].0));
        lemma_read_message(l.0, l.1, r, k, d, acc);
        assert(acc.push(l) =~= msgs + m);
    }
}

proof fn lemma_read_name(k: Seq<char>, st: ReadState)
    ensures
        read_line(trim_spec(indent4() + name_open() + escape_spec(k) + name_close()), st) == (
            k,
            st.1,
            st.2,
        ),
{
    let e = escape_spec(k);
    lemma_escape_shape(k);
    let t = name_open() + e + name_close();
    assert(indent4() + name_open() + e + name_close() =~= indent4() + t);
    assert(t[0] == '<');
    assert(t.last() == '>');
    lemma_trim_indented(indent4(), t);
    assert forall|j: int| 0 <= j < name_open().len() implies !#[trigger] occurs_at(
        t,
        name_close(),
        j,
    ) by {
        if occurs_at(t, name_close(), j) {
            assert(t.subrange(j, j + 7)[0] == t[j]);
            assert(t.subrange(j, j + 7)[1] == t[j + 1]);
        }
    }
    lemma_between_tags(name_open(), e, name_close());
    lemma_unescape_escape(k);
}

/// A context the reader can recover: a key free of line breaks, and at
/// least one message, all line-free, in key order.
pub open spec fn context_readable(c: (Seq<char>, MsgSeq)) -> bool {
    &&& no_newline(c.0)
    &&& c.1.len() > 0
    &&& keys_sorted(c.1)
    &&& messages_line_free(c.1)
}

proof fn lemma_read_context(k: Seq<char>, m: MsgSeq, r: Seq<char>, x: Seq<char>, d: CatSeq)
    requires
        keys_below(d, k),
        context_readable((k, m)),
    ensures
        read_lines(render_context((k, m)) + r, (x, None, d)) == read_lines(
            r,
            (k, None, d.push((k, m))),
        ),
{
    reveal_strlit("<context>\n");
    reveal_strlit("    <name>");
    reveal_strlit("</name>\n");
    reveal_strlit("</context>\n");
    reveal_strlit("<context>");
    reveal_strlit("</context>");
    let a = "<context>"@;
    let nl = indent4() + name_open() + escape_spec(k) + name_close();
    let b = "</context>"@;
    let empty_msgs = Seq::<(Seq<char>, Seq<char>)>::empty();
    let r2 = b + newline() + r;
    let r1 = nl + newline() + (render_messages(m) + r2);
    assert(render_context((k, m)) + r =~= a + newline() + r1);
    assert(inert(a));
    lemma_read_inert(a, r1, (x, None, d));
    lemma_escape_shape(k);
    assert(no_newline(indent4() + name_open()));
    lemma_no_newline_concat(indent4() + name_open(), escape_spec(k));
    lemma_no_newline_concat(indent4() + name_open() + escape_spec(k), name_close());
    lemma_read_line_first(nl, render_messages(m) + r2, (x, None, d));
    lemma_read_name(k, (x, None, d));
    assert(with_context(d, k, empty_msgs) == d);
    lemma_read_messages(m, r2, k, d, empty_msgs);
    assert(empty_msgs + m =~= m);
    assert(inert(b));
    lemma_read_inert(b, r, (k, None, d.push((k, m))));
}

proof fn lemma_read_contexts(c: CatSeq, r: Seq<char>, x: Seq<char>, base: CatSeq)
    requires
        keys_sorted(c),
        forall|i: int| 0 <= i < c.len() ==> context_readable(#[trigger] c[i]),
        forall|i: int, j: int|
            0 <= i < base.len() && 0 <= j < c.len() ==> key_lt(#[trigger] base[i].0, #[trigger] c[j].0),
    ensures
        read_lines(render_contexts(c) + r, (x, None, base)) == read_lines(
            r,
            (if c.len() == 0 { x } else { c.last().0 }, None, base + c),
        ),
    decreases c.len(),
{
    if c.len() == 0 {
        assert(render_contexts(c) + r =~= r);
        assert(base + c =~= base);
    } else {
        let c0 = c.drop_last();
        let l = c.last();
        assert(render_contexts(c) + r =~= render_contexts(c0) + (render_context(l) + r));
        lemma_read_contexts(c0, render_context(l) + r, x, base);
        let acc = base + c0;
        assert forall|i: int| 0 <= i < acc.len() implies key_lt(#[trigger] acc[i].0, l.0) by {
            if i < base.len() {
                assert(acc[i] == base[i]);
                assert(key_lt(base[i].0, c[c.len() - 1].0));
            } else {
                assert(acc[i] == c[i - base.len()]);
                assert(key_lt(c[i - base.len()].0, c[c.len() - 1].0));
            }
        }
        assert(context_readable(c[c.len() - 1]));
        lemma_read_context(l.0, l.1, r, if c0.len() == 0 { x } else { c0.last().0 }, acc);
        assert(acc.push(l) =~= base + c);
    }
}

/// A catalogue that survives a write and a read unchanged: sorted at both
/// levels, every context non-empty, and every context name, source and
/// translation free of line breaks.
pub open spec fn roundtrip_safe(c: CatSeq) -> bool {
    &&& catalog_wf(c)
    &&& forall|i: int| 0 <= i < c.len() ==> context_readable(#[trigger] c[i])
}

/// Rendering a catalogue as a `.ts` document and parsing that document gives
/// the catalogue back, whatever the language tag; this is what lets a merge
/// keep the translations already filled in.
pub proof fn law_parse_render_roundtrip(lang: Seq<char>, c: CatSeq)
    requires
        roundtrip_safe(c),
    ensures
        parse_ts_spec(render_ts_spec(lang, c)) == c,
{
    reveal_strlit("<?xml version=\"1.0\" encoding=\"utf-8\"?>\n");
    reveal_strlit("<!DOCTYPE TS>\n");
    reveal_strlit("<TS version=\"2.1\" language=\"");
    reveal_strlit("\">\n");
    reveal_strlit("</TS>\n");
    reveal_strlit("<?xml version=\"1.0\" encoding=\"utf-8\"?>");
    reveal_strlit("<!DOCTYPE TS>");
    reveal_strlit("\">");
    reveal_strlit("</TS>");
    let p1 = "<?xml version=\"1.0\" encoding=\"utf-8\"?>"@;
    let p2 = "<!DOCTYPE TS>"@;
    let p3 = "<TS version=\"2.1\" language=\""@;
    let a = attr_spec(lang);
    let p4 = "\">"@;
    let h = p1 + newline() + p2 + newline() + p3 + a + p4;
    assert(ts_header(lang) =~= h + newline());
    let close = "</TS>"@;
    let z = Seq::<char>::empty();
    let body = render_contexts(c) + (close + newline() + z);
    assert(render_ts_spec(lang, c) =~= h + newline() + body);
    assert(inert(p1));
    assert(inert(newline()));
    assert(inert(p2));
    assert(inert(p3));
    assert(inert(p4));
    lemma_attr_shape(lang);
    lemma_no_lt(a, 'n');
    lemma_inert_concat(p1, newline());
    lemma_inert_concat(p1 + newline(), p2);
    lemma_inert_concat(p1 + newline() + p2, newline());
    lemma_inert_concat(p1 + newline() + p2 + newline(), p3);
    lemma_inert_concat(p1 + newline() + p2 + newline() + p3, a);
    if a.len() > 0 {
        assert(a.last() == a[a.len() - 1]);
    }
    lemma_inert_concat(p1 + newline() + p2 + newline() + p3 + a, p4);
    let st0: ReadState = (crate::i18n::extract::default_context(), None, Seq::empty());
    lemma_read_inert(h, body, st0);
    let empty_cat = Seq::<(Seq<char>, MsgSeq)>::empty();
    lemma_read_contexts(c, close + newline() + z, st0.0, empty_cat);
    assert(empty_cat + c =~= c);
    let x = if c.len() == 0 { st0.0 } else { c.last().0 };
    assert(inert(close));
    lemma_read_inert(close, z, (x, None, c));
    lemma_read_empty((x, None, c));
}

} // verus!

verus! {

proof fn lemma_fill_context(prior: CatSeq, ctx: Seq<char>, srcs: Seq<Seq<char>>, s: Seq<char>)
    ensures
        keys_sorted(fill_context(prior, ctx, srcs)),
        lookup(fill_context(prior, ctx, srcs), s) == if srcs.contains(s) {
            Some(translation_of(prior, ctx, s))
        } else {
            None
        },
    decreases srcs.len(),
{
    if srcs.len() == 0 {
        assert(!srcs.contains(s));
        assert(lookup(Seq::<(Seq<char>, Seq<char>)>::empty(), s) is None);
    } else {
        let m0 = fill_context(prior, ctx, srcs.drop_last());
        lemma_fill_context(prior, ctx, srcs.drop_last(), s);
        lemma_put(m0, srcs.last(), translation_of(prior, ctx, srcs.last()));
        if s != srcs.last() {
            assert(srcs.contains(s) == srcs.drop_last().contains(s)) by {
                if srcs.contains(s) {
                    let i = choose|i: int| 0 <= i < srcs.len() && srcs[i] == s;
                    assert(srcs.drop_last()[i] == s);
                }
                if srcs.drop_last().contains(s) {
                    let i = choose|i: int| 0 <= i < srcs.drop_last().len() && srcs.drop_last()[i] == s;
                    assert(srcs[i] == s);
                }
            }
        } else {
            assert(srcs[srcs.len() - 1] == s);
        }
    }
}

/// Merging freshly found strings with the document a catalogue was written
/// to keeps every translation that catalogue held: each found source of each
/// found context gets its earlier translation (empty when it had none), and
/// the merged catalogue lists exactly the found sources.
pub proof fn law_merge_keeps_translations(found: FoundSeq, lang: Seq<char>, prev: CatSeq)
    requires
        keys_sorted(found),
        roundtrip_safe(prev),
    ensures
        merge_spec(found, prior_of(Some(render_ts_spec(lang, prev)))) == merge_spec(found, prev),
        forall|i: int, s: Seq<char>|
            0 <= i < found.len() ==> #[trigger] lookup(merge_spec(found, prev)[i].1, s) == if found[i].1.contains(s) {
                Some(translation_of(prev, found[i].0, s))
            } else {
                None
            },
{
    law_parse_render_roundtrip(lang, prev);
    assert forall|i: int, s: Seq<char>|
        0 <= i < found.len() implies #[trigger] lookup(merge_spec(found, prev)[i].1, s) == if found[i].1.contains(s) {
            Some(translation_of(prev, found[i].0, s))
        } else {
            None
        } by {
        lemma_fill_context(prev, found[i].0, found[i].1, s);
    }
}

/// A translation line gives the message awaiting it the text between the
/// end of its opening tag and `</translation>`, unescaped, whatever
/// attributes the tag carries (such as `type="unfinished"` on a translation
/// typed but not yet marked done): after a source `src`, the line
/// `<translation A>T</translation>` records `src -> unescape(T)` in the
/// current context, for any attribute text `A` and text `T` free of tags.
pub proof fn law_translation_line_keeps_its_text(
    attrs: Seq<char>,
    t: Seq<char>,
    st: ReadState,
    src: Seq<char>,
)
    requires
        st.1 == Some(src),
        forall|i: int| 0 <= i < attrs.len() ==> #[trigger] attrs[i] != '<' && attrs[i] != '>',
        forall|i: int| 0 <= i < t.len() ==> #[trigger] t[i] != '<',
    ensures
        read_line(translation_open() + attrs + tag_end() + t + translation_close(), st) == (
            st.0,
            None::<Seq<char>>,
            put_message(st.2, st.0, src, unescape_spec(t)),
        ),
        catalog_wf(st.2) ==> translation_of(
            read_line(translation_open() + attrs + tag_end() + t + translation_close(), st).2,
            st.0,
            src,
        ) == unescape_spec(t),
{
    let o = translation_open();
    let c = translation_close();
    let head = o + attrs + tag_end();
    let line = head + t + c;
    assert(line =~= o + attrs + tag_end() + t + translation_close());
    // No `<` of the line opens a `<n…` or `<s…` tag.
    assert forall|i: int| 0 <= i < line.len() - 1 && #[trigger] line[i] == '<' implies line[i + 1]
        != 'n' && line[i + 1] != 's' by {
        if i == 0 {
            assert(line[1] == o[1]);
        } else if i < o.len() {
            assert(line[i] == o[i]);
        } else if i < o.len() + attrs.len() {
            assert(line[i] == attrs[i - o.len()]);
        } else if i < head.len() {
            assert(line[i] == '>');
        } else if i < head.len() + t.len() {
            assert(line[i] == t[i - head.len()]);
        } else {
            assert(line[i] == c[i - head.len() - t.len()]);
            assert(i == head.len() + t.len());
            assert(line[i + 1] == c[1]);
        }
    }
    assert(lt_not_before(line, 'n'));
    assert(lt_not_before(line, 's'));
    lemma_no_occurrence(line, name_open(), 0);
    lemma_no_occurrence(line, source_open(), 0);
    assert(line.subrange(0, 12) =~= o);
    // The first `>` ends the opening tag.
    let p: int = (o.len() + attrs.len()) as int;
    assert(line.subrange(p, p + 1) =~= tag_end());
    assert forall|j: int| 0 <= j < p implies !#[trigger] occurs_at(line, tag_end(), j) by {
        if occurs_at(line, tag_end(), j) {
            assert(line.subrange(j, j + 1)[0] == line[j]);
            if j < o.len() {
                assert(line[j] == o[j]);
            } else {
                assert(line[j] == attrs[j - o.len()]);
            }
        }
    }
    lemma_find_at(line, tag_end(), 0, p);
    // The first `</translation>` after it closes the text.
    let q: int = (head.len() + t.len()) as int;
    assert(line.subrange(q, q + 14) =~= c);
    assert forall|j: int| p + 1 <= j < q implies !#[trigger] occurs_at(line, c, j) by {
        if occurs_at(line, c, j) {
            assert(line.subrange(j, j + 14)[0] == line[j]);
            assert(line[j] == t[j - head.len()]);
        }
    }
    lemma_find_at(line, c, p + 1, q);
    assert(line.subrange(p + 1, q) =~= t);
    if catalog_wf(st.2) {
        let inner = match lookup(st.2, st.0) {
            Some(m) => m,
            None => Seq::empty(),
        };
        crate::i18n::sorted::lemma_position(st.2, st.0);
        let pp = position(st.2, st.0);
        if pp < st.2.len() && st.2[pp].0 == st.0 {
            assert(keys_sorted(st.2[pp].1));
        }
        assert(keys_sorted(inner));
        lemma_put(st.2, st.0, put(inner, src, unescape_spec(t)));
        lemma_put(inner, src, unescape_spec(t));
        crate::i18n::ts::lemma_put_message(st.2, st.0, src, unescape_spec(t));
    }
}

/// A source line opens a message: `<source>T</source>` makes `unescape(T)`
/// the source awaiting its translation, whatever came before, for any text
/// `T` free of tags.
pub proof fn law_source_line_sets_the_source(t: Seq<char>, st: ReadState)
    requires
        forall|i: int| 0 <= i < t.len() ==> #[trigger] t[i] != '<',
    ensures
        read_line(source_open() + t + source_close(), st) == (st.0, Some(unescape_spec(t)), st.2),
{
    let line = source_open() + t + source_close();
    lemma_no_lt(t, 'n');
    lemma_lt_not_before_concat(source_open(), t, 'n');
    lemma_lt_not_before_concat(source_open() + t, source_close(), 'n');
    lemma_no_occurrence(line, name_open(), 0);
    assert forall|j: int| 0 <= j < source_open().len() implies !#[trigger] occurs_at(
        line,
        source_close(),
        j,
    ) by {
        if occurs_at(line, source_close(), j) {
            assert(line.subrange(j, j + 9)[0] == line[j]);
            assert(line.subrange(j, j + 9)[1] == line[j + 1]);
        }
    }
    lemma_between_tags(source_open(), t, source_close());
}

/// A name line opens a context: `<name>N</name>` makes `unescape(N)` the
/// current context, keeping any source awaiting a translation, for any
/// name `N` free of tags.
pub proof fn law_name_line_sets_the_context(t: Seq<char>, st: ReadState)
    requires
        forall|i: int| 0 <= i < t.len() ==> #[trigger] t[i] != '<',
    ensures
        read_line(name_open() + t + name_close(), st) == (unescape_spec(t), st.1, st.2),
{
    let line = name_open() + t + name_close();
    assert forall|j: int| 0 <= j < name_open().len() implies !#[trigger] occurs_at(
        line,
        name_close(),
        j,
    ) by {
        if occurs_at(line, name_close(), j) {
            assert(line.subrange(j, j + 7)[0] == line[j]);
            assert(line.subrange(j, j + 7)[1] == line[j + 1]);
        }
    }
    lemma_between_tags(name_open(), t, name_close());
}

} // verus!
