//! The small amount of XML text handling the `.ts` format needs: entity
//! escaping and unescaping, line trimming, and tag extraction.

use vstd::prelude::*;
use crate::text::{
    is_unicode_space, is_unicode_space_exec, occurs_at, occurs_at_exec, find_from, find_exec,
    lemma_find_from_bounds,
};

verus! {

pub open spec fn amp_entity() -> Seq<char> {
    seq!['&', 'a', 'm', 'p', ';']
}

pub open spec fn lt_entity() -> Seq<char> {
    seq!['&', 'l', 't', ';']
}

pub open spec fn gt_entity() -> Seq<char> {
    seq!['&', 'g', 't', ';']
}

pub open spec fn quot_entity() -> Seq<char> {
    seq!['&', 'q', 'u', 'o', 't', ';']
}

/// What one character of element text becomes: `&`, `<`, `>` as entities.
pub open spec fn escape_char(c: char) -> Seq<char> {
    if c == '&' {
        amp_entity()
    } else if c == '<' {
        lt_entity()
    } else if c == '>' {
        gt_entity()
    } else {
        seq![c]
    }
}

/// What one character of an attribute value becomes: additionally `"`.
pub open spec fn attr_char(c: char) -> Seq<char> {
    if c == '"' {
        quot_entity()
    } else {
        escape_char(c)
    }
}

/// `s` with `&`, `<` and `>` replaced by their entities.
pub open spec fn escape_spec(s: Seq<char>) -> Seq<char>
    decreases s.len(),
{
    if s.len() == 0 {
        Seq::empty()
    } else {
        escape_spec(s.drop_last()) + escape_char(s.last())
    }
}

/// `s` escaped for use inside a double-quoted attribute.
pub open spec fn attr_spec(s: Seq<char>) -> Seq<char>
    decreases s.len(),
{
    if s.len() == 0 {
        Seq::empty()
    } else {
        attr_spec(s.drop_last()) + attr_char(s.last())
    }
}

/// `s` with every non-overlapping occurrence of `pat`, found left to right,
/// replaced by `rep` (what `str::replace` does for a non-empty pattern).
pub open spec fn replace_all(s: Seq<char>, pat: Seq<char>, rep: Seq<char>) -> Seq<char>
    decreases s.len(),
{
    if s.len() == 0 {
        Seq::empty()
    } else if pat.len() > 0 && pat.len() <= s.len() && s.take(pat.len() as int) == pat {
        rep + replace_all(s.skip(pat.len() as int), pat, rep)
    } else {
        seq![s[0]] + replace_all(s.drop_first(), pat, rep)
    }
}

/// The entities `&lt;`, `&gt;`, `&quot;` and `&amp;` decoded, in that order.
pub open spec fn unescape_spec(s: Seq<char>) -> Seq<char> {
    replace_all(
        replace_all(
            replace_all(replace_all(s, lt_entity(), seq!['<']), gt_entity(), seq!['>']),
            quot_entity(),
            seq!['"'],
        ),
        amp_entity(),
        seq!['&'],
    )
}

/// `s` without leading Unicode whitespace.
pub open spec fn trim_start(s: Seq<char>) -> Seq<char>
    decreases s.len(),
{
    if s.len() > 0 && is_unicode_space(s[0]) {
        trim_start(s.drop_first())
    } else {
        s
    }
}

/// `s` without trailing Unicode whitespace.
pub open spec fn trim_end(s: Seq<char>) -> Seq<char>
    decreases s.len(),
{
    if s.len() > 0 && is_unicode_space(s.last()) {
        trim_end(s.drop_last())
    } else {
        s
    }
}

/// `s` without leading or trailing Unicode whitespace (`str::trim`).
pub open spec fn trim_spec(s: Seq<char>) -> Seq<char> {
    trim_end(trim_start(s))
}

/// The text between the first `open` and the first `close` after it.
pub open spec fn between_spec(s: Seq<char>, open: Seq<char>, close: Seq<char>) -> Option<
    Seq<char>,
> {
    match find_from(s, open, 0) {
        None => None,
        Some(p) => match find_from(s, close, p + open.len()) {
            None => None,
            Some(q) => Some(s.subrange(p + open.len(), q)),
        },
    }
}

// ---------------------------------------------------------------------------
// Implementation
// ---------------------------------------------------------------------------

fn push_seq(out: &mut Vec<char>, add: &[char])
    ensures
        final(out)@ == old(out)@ + add@,
{
    let ghost start = out@;
    let mut i: usize = 0;
    while i < add.len()
        invariant
            i <= add@.len(),
            out@ == start + add@.take(i as int),
        decreases add@.len() - i,
    {
        out.push(add[i]);
        i = i + 1;
        assert(add@.take(i as int) == add@.take(i - 1).push(add@[i - 1]));
    }
    assert(add@.take(add@.len() as int) == add@);
}

/// Escapes `&`, `<`, `>` (and, when `attr`, `"`) in `s`.
fn escape_chars(s: &Vec<char>, attr: bool) -> (out: Vec<char>)
    ensures
        attr ==> out@ == attr_spec(s@),
        !attr ==> out@ == escape_spec(s@),
{
    let mut out: Vec<char> = Vec::new();
    let mut i: usize = 0;
    while i < s.len()
        invariant
            i <= s@.len(),
            attr ==> out@ == attr_spec(s@.take(i as int)),
            !attr ==> out@ == escape_spec(s@.take(i as int)),
        decreases s@.len() - i,
    {
        let c = s[i];
        proof {
            assert(s@.take(i + 1).drop_last() == s@.take(i as int));
            assert(s@.take(i + 1).last() == c);
        }
        if attr && c == '"' {
            push_seq(&mut out, &['&', 'q', 'u', 'o', 't', ';']);
        } else if c == '&' {
            push_seq(&mut out, &['&', 'a', 'm', 'p', ';']);
        } else if c == '<' {
            push_seq(&mut out, &['&', 'l', 't', ';']);
        } else if c == '>' {
            push_seq(&mut out, &['&', 'g', 't', ';']);
        } else {
            out.push(c);
        }
        i = i + 1;
    }
    assert(s@.take(s@.len() as int) == s@);
    out
}

pub fn escape_xml_chars(s: &Vec<char>) -> (out: Vec<char>)
    ensures
        out@ == escape_spec(s@),
{
    escape_chars(s, false)
}

pub fn xml_attr_chars(s: &Vec<char>) -> (out: Vec<char>)
    ensures
        out@ == attr_spec(s@),
{
    escape_chars(s, true)
}

/// Replaces every non-overlapping `pat` in `s` by `rep`, left to right.
fn replace_chars(s: &Vec<char>, pat: &Vec<char>, rep: &Vec<char>) -> (out: Vec<char>)
    requires
        pat@.len() > 0,
    ensures
        out@ == replace_all(s@, pat@, rep@),
{
    let mut out: Vec<char> = Vec::new();
    let mut i: usize = 0;
    assert(s@.skip(0) == s@);
    while i < s.len()
        invariant
            i <= s@.len(),
            pat@.len() > 0,
            replace_all(s@, pat@, rep@) == out@ + replace_all(s@.skip(i as int), pat@, rep@),
        decreases s@.len() - i,
    {
        let ghost rest = s@.skip(i as int);
        if occurs_at_exec(s, pat, i) {
            proof {
                assert(rest.take(pat@.len() as int) == s@.subrange(i as int, i + pat@.len()));
                assert(rest.skip(pat@.len() as int) == s@.skip(i + pat@.len()));
            }
            let ghost out0 = out@;
            push_seq(&mut out, rep.as_slice());
            i = i + pat.len();
            proof {
                let x = replace_all(s@.skip(i as int), pat@, rep@);
                assert(out0 + (rep@ + x) =~= out@ + x);
            }
        } else {
            proof {
                if pat@.len() <= rest.len() {
                    assert(rest.take(pat@.len() as int) == s@.subrange(i as int, i + pat@.len()));
                }
                assert(rest.drop_first() == s@.skip(i + 1));
                assert(rest[0] == s@[i as int]);
            }
            let ghost out0 = out@;
            out.push(s[i]);
            i = i + 1;
            proof {
                let x = replace_all(s@.skip(i as int), pat@, rep@);
                assert(out0 + (seq![rest[0]] + x) =~= out@ + x);
            }
        }
    }
    assert(s@.skip(s@.len() as int) =~= Seq::<char>::empty());
    out
}

pub fn unescape_xml_chars(s: &Vec<char>) -> (out: Vec<char>)
    ensures
        out@ == unescape_spec(s@),
{
    let lt = vec!['&', 'l', 't', ';'];
    let gt = vec!['&', 'g', 't', ';'];
    let quot = vec!['&', 'q', 'u', 'o', 't', ';'];
    let amp = vec!['&', 'a', 'm', 'p', ';'];
    let l = vec!['<'];
    let g = vec!['>'];
    let q = vec!['"'];
    let m = vec!['&'];
    assert(l@ == seq!['<']);
    assert(g@ == seq!['>']);
    assert(q@ == seq!['"']);
    assert(m@ == seq!['&']);
    let a = replace_chars(s, &lt, &l);
    let b = replace_chars(&a, &gt, &g);
    let c = replace_chars(&b, &quot, &q);
    let d = replace_chars(&c, &amp, &m);
    assert(lt@ == lt_entity());
    assert(gt@ == gt_entity());
    assert(quot@ == quot_entity());
    assert(amp@ == amp_entity());
    d
}

proof fn lemma_trim_start_skip(s: Seq<char>, i: int)
    requires
        0 <= i <= s.len(),
        forall|k: int| 0 <= k < i ==> is_unicode_space(#[trigger] s[k]),
    ensures
        trim_start(s) == trim_start(s.skip(i)),
    decreases i,
{
    if i > 0 {
        assert(s.drop_first().skip(i - 1) == s.skip(i));
        lemma_trim_start_skip(s.drop_first(), i - 1);
    } else {
        assert(s.skip(0) == s);
    }
}

proof fn lemma_trim_end_take(s: Seq<char>, j: int)
    requires
        0 <= j <= s.len(),
        forall|k: int| j <= k < s.len() ==> is_unicode_space(#[trigger] s[k]),
    ensures
        trim_end(s) == trim_end(s.take(j)),
    decreases s.len() - j,
{
    if j < s.len() {
        assert(s.drop_last().take(j) == s.take(j));
        lemma_trim_end_take(s.drop_last(), j);
    } else {
        assert(s.take(j) == s);
    }
}

/// The bounds `(a, b)` of `s[from..to]` with surrounding whitespace removed.
pub fn trim_range(s: &Vec<char>, from: usize, to: usize) -> (r: (usize, usize))
    requires
        from <= to <= s@.len(),
    ensures
        from <= r.0 <= r.1 <= to,
        s@.subrange(r.0 as int, r.1 as int) == trim_spec(s@.subrange(from as int, to as int)),
{
    let ghost line = s@.subrange(from as int, to as int);
    let mut a = from;
    while a < to && is_unicode_space_exec(s[a])
        invariant
            from <= a <= to <= s@.len(),
            forall|k: int| from <= k < a ==> is_unicode_space(#[trigger] s@[k]),
        decreases to - a,
    {
        a = a + 1;
    }
    proof {
        assert forall|k: int| 0 <= k < a - from implies is_unicode_space(#[trigger] line[k]) by {
            assert(line[k] == s@[from + k]);
        }
        lemma_trim_start_skip(line, a - from);
        assert(line.skip(a - from) == s@.subrange(a as int, to as int));
        let rest = s@.subrange(a as int, to as int);
        if a < to {
            assert(rest[0] == s@[a as int]);
        }
        assert(trim_start(rest) == rest);
    }
    let mut b = to;
    while b > a && is_unicode_space_exec(s[b - 1])
        invariant
            from <= a <= b <= to <= s@.len(),
            forall|k: int| b <= k < to ==> is_unicode_space(#[trigger] s@[k]),
        decreases b - a,
    {
        b = b - 1;
    }
    proof {
        let rest = s@.subrange(a as int, to as int);
        assert forall|k: int| b - a <= k < rest.len() implies is_unicode_space(
            #[trigger] rest[k],
        ) by {
            assert(rest[k] == s@[a + k]);
        }
        lemma_trim_end_take(rest, b - a);
        let kept = rest.take(b - a);
        assert(kept == s@.subrange(a as int, b as int));
        if b > a {
            assert(kept.last() == s@[b - 1]);
        }
        assert(trim_end(kept) == kept);
    }
    (a, b)
}

/// The text between the first `open` and the next `close` in `s`.
pub fn between_chars(s: &Vec<char>, open: &Vec<char>, close: &Vec<char>) -> (r: Option<Vec<char>>)
    ensures
        match r {
            Some(v) => between_spec(s@, open@, close@) == Some(v@),
            None => between_spec(s@, open@, close@) is None,
        },
{
    let n = s.len();
    match find_exec(s, open, 0) {
        None => None,
        Some(p) => {
            proof {
                lemma_find_from_bounds(s@, open@, 0);
            }
            let a = p + open.len();
            match find_exec(s, close, a) {
                None => None,
                Some(q) => {
                    proof {
                        lemma_find_from_bounds(s@, close@, a as int);
                    }
                    let mut v: Vec<char> = Vec::new();
                    let mut m = a;
                    while m < q
                        invariant
                            a <= m <= q,
                            q + close@.len() <= s@.len(),
                            v@ == s@.subrange(a as int, m as int),
                        decreases q - m,
                    {
                        v.push(s[m]);
                        m = m + 1;
                        assert(v@ == s@.subrange(a as int, m as int));
                    }
                    Some(v)
                },
            }
        },
    }
}

/// Whether `s` begins with `pre`.
pub fn starts_with_chars(s: &Vec<char>, pre: &Vec<char>) -> (b: bool)
    ensures
        b == occurs_at(s@, pre@, 0),
{
    occurs_at_exec(s, pre, 0)
}

} // verus!
