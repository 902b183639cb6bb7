//! Qt Linguist `.ts` catalogues: reading, writing, and merging freshly
//! extracted strings with translations already provided.

use vstd::prelude::*;
use crate::text::{chars_of, string_of, find_from, find_exec, lemma_find_from_bounds, occurs_at};
use crate::i18n::extract::{default_context, extract_spec, extract_tr};
use crate::i18n::sorted::{SortedMap, keys_sorted, lookup, put, lemma_put};
use crate::i18n::xml::{
    escape_spec, attr_spec, unescape_spec, trim_spec, between_spec, escape_xml_chars,
    xml_attr_chars, unescape_xml_chars, trim_range, between_chars, starts_with_chars,
};

verus! {

/// Source text to translation, in ascending source order.
pub type Messages = SortedMap<String>;

/// Context to messages, in ascending context order.
pub type Catalog = SortedMap<Messages>;

/// Context to the source strings found in it, in first-seen order.
pub type Found = SortedMap<Vec<String>>;

/// The model of [`Messages`].
pub type MsgSeq = Seq<(Seq<char>, Seq<char>)>;

/// The model of [`Catalog`].
pub type CatSeq = Seq<(Seq<char>, MsgSeq)>;

/// The model of [`Found`].
pub type FoundSeq = Seq<(Seq<char>, Seq<Seq<char>>)>;

/// Both levels of a catalogue are sorted by key.
pub open spec fn catalog_wf(c: CatSeq) -> bool {
    &&& keys_sorted(c)
    &&& forall|i: int| 0 <= i < c.len() ==> keys_sorted(#[trigger] c[i].1)
}

/// `c` with `src` translated as `tr` in context `ctx` (creating the context
/// when missing).
pub open spec fn put_message(c: CatSeq, ctx: Seq<char>, src: Seq<char>, tr: Seq<char>) -> CatSeq {
    let inner = match lookup(c, ctx) {
        Some(m) => m,
        None => Seq::empty(),
    };
    put(c, ctx, put(inner, src, tr))
}

/// The translation of `src` in context `ctx`, or empty when there is none.
pub open spec fn translation_of(c: CatSeq, ctx: Seq<char>, src: Seq<char>) -> Seq<char> {
    match lookup(c, ctx) {
        Some(m) => match lookup(m, src) {
            Some(t) => t,
            None => Seq::empty(),
        },
        None => Seq::empty(),
    }
}

pub proof fn lemma_put_message(c: CatSeq, ctx: Seq<char>, src: Seq<char>, tr: Seq<char>)
    requires
        catalog_wf(c),
    ensures
        catalog_wf(put_message(c, ctx, src, tr)),
{
    let inner = match lookup(c, ctx) {
        Some(m) => m,
        None => Seq::empty(),
    };
    crate::i18n::sorted::lemma_position(c, ctx);
    assert(keys_sorted(inner));
    lemma_put(inner, src, tr);
    lemma_put(c, ctx, put(inner, src, tr));
    let r = put_message(c, ctx, src, tr);
    let p = crate::i18n::sorted::position(c, ctx);
    assert forall|i: int| 0 <= i < r.len() implies keys_sorted(#[trigger] r[i].1) by {
        if p < c.len() && c[p].0 == ctx {
            if i != p {
                assert(r[i] == c[i]);
            }
        } else if i < p {
            assert(r[i] == c[i]);
        } else if i > p {
            assert(r[i] == c[i - 1]);
        }
    }
}

// ---------------------------------------------------------------------------
// Reading
// ---------------------------------------------------------------------------

pub open spec fn newline() -> Seq<char> {
    seq!['\n']
}

pub open spec fn name_open() -> Seq<char> {
    seq!['<', 'n', 'a', 'm', 'e', '>']
}

pub open spec fn name_close() -> Seq<char> {
    seq!['<', '/', 'n', 'a', 'm', 'e', '>']
}

pub open spec fn source_open() -> Seq<char> {
    seq!['<', 's', 'o', 'u', 'r', 'c', 'e', '>']
}

pub open spec fn source_close() -> Seq<char> {
    seq!['<', '/', 's', 'o', 'u', 'r', 'c', 'e', '>']
}

pub open spec fn translation_open() -> Seq<char> {
    seq!['<', 't', 'r', 'a', 'n', 's', 'l', 'a', 't', 'i', 'o', 'n']
}

pub open spec fn translation_close() -> Seq<char> {
    seq!['<', '/', 't', 'r', 'a', 'n', 's', 'l', 'a', 't', 'i', 'o', 'n', '>']
}

pub open spec fn tag_end() -> Seq<char> {
    seq!['>']
}

/// What the reader carries from line to line: the current context, the
/// source awaiting its translation, and the catalogue so far.
pub type ReadState = (Seq<char>, Option<Seq<char>>, CatSeq);

/// The effect of one trimmed line on the reader.
pub open spec fn read_line(line: Seq<char>, st: ReadState) -> ReadState {
    match between_spec(line, name_open(), name_close()) {
        Some(name) => (unescape_spec(name), st.1, st.2),
        None => match between_spec(line, source_open(), source_close()) {
            Some(src) => (st.0, Some(unescape_spec(src)), st.2),
            None => if occurs_at(line, translation_open(), 0) && st.1 is Some {
                let tr = match between_spec(line, tag_end(), translation_close()) {
                    Some(x) => unescape_spec(x),
                    None => Seq::empty(),
                };
                (st.0, None, put_message(st.2, st.0, st.1.unwrap(), tr))
            } else {
                st
            },
        },
    }
}

/// The reader's state after every line of `t`.
pub open spec fn read_lines(t: Seq<char>, st: ReadState) -> ReadState
    decreases t.len(),
{
    match find_from(t, newline(), 0) {
        Some(e) => {
            proof {
                lemma_find_from_bounds(t, newline(), 0);
            }
            read_lines(t.skip(e + 1), read_line(trim_spec(t.take(e)), st))
        },
        None => read_line(trim_spec(t), st),
    }
}

/// The catalogue a `.ts` text describes.
pub open spec fn parse_ts_spec(t: Seq<char>) -> CatSeq {
    read_lines(t, (default_context(), None, Seq::empty())).2
}

pub proof fn lemma_find_skip(t: Seq<char>, pat: Seq<char>, i: int, j: int)
    requires
        0 <= i <= t.len(),
        0 <= j,
    ensures
        find_from(t.skip(i), pat, j) == match find_from(t, pat, i + j) {
            Some(p) => Some(p - i),
            None => None::<int>,
        },
    decreases t.len() + 1 - (i + j),
{
    let s = t.skip(i);
    if j + pat.len() > s.len() {
    } else {
        assert(s.subrange(j, j + pat.len()) == t.subrange(i + j, i + j + pat.len()));
        if !occurs_at(s, pat, j) {
            lemma_find_skip(t, pat, i, j + 1);
        }
    }
}

pub(crate) fn copy_chars(b: &Vec<char>, from: usize, to: usize) -> (s: Vec<char>)
    requires
        from <= to <= b@.len(),
    ensures
        s@ == b@.subrange(from as int, to as int),
{
    let mut s: Vec<char> = Vec::new();
    let mut m = from;
    while m < to
        invariant
            from <= m <= to <= b@.len(),
            s@ == b@.subrange(from as int, m as int),
        decreases to - m,
    {
        s.push(b[m]);
        m = m + 1;
        assert(s@ == b@.subrange(from as int, m as int));
    }
    s
}

pub closed spec fn opt_chars(o: Option<Vec<char>>) -> Option<Seq<char>> {
    match o {
        Some(v) => Some(v@),
        None => None,
    }
}

fn clone_messages(m: &Messages) -> (r: Messages)
    ensures
        r.deep_view() == m.deep_view(),
        r.wf() == m.wf(),
{
    let mut r: Messages = SortedMap::new();
    let e = m.entries();
    let mut i: usize = 0;
    while i < e.len()
        invariant
            i <= e@.len(),
            e.deep_view() == m.deep_view(),
            r.deep_view() == m.deep_view().take(i as int),
        decreases e@.len() - i,
    {
        let k = e[i].0.clone();
        let v = e[i].1.clone();
        r.push_last(k, v);
        i = i + 1;
        assert(r.deep_view() =~= m.deep_view().take(i as int));
    }
    assert(m.deep_view().take(e@.len() as int) =~= m.deep_view());
    r
}

/// Records `tr` as the translation of `src` in `ctx`.
fn add_message(cat: &mut Catalog, ctx: &Vec<char>, src: &Vec<char>, tr: &Vec<char>)
    ensures
        final(cat).deep_view() == put_message(old(cat).deep_view(), ctx@, src@, tr@),
{
    let key = string_of(ctx);
    let mut inner: Messages = match cat.get(key.as_str()) {
        Some(m) => clone_messages(m),
        None => SortedMap::new(),
    };
    inner.insert(string_of(src), string_of(tr));
    cat.insert(key, inner);
}

/// Best-effort extraction of (context -> source -> translation) from a `.ts`
/// document. Messages seen before any `<name>` go to the default context; a
/// `<translation>` line applies to the most recent unconsumed `<source>`.
pub fn parse_ts(text: &str) -> (cat: Catalog)
    ensures
        cat.deep_view() == parse_ts_spec(text@),
        catalog_wf(cat.deep_view()),
{
    let t = chars_of(text);
    let nl = vec!['\n'];
    let name_o = vec!['<', 'n', 'a', 'm', 'e', '>'];
    let name_c = vec!['<', '/', 'n', 'a', 'm', 'e', '>'];
    let src_o = vec!['<', 's', 'o', 'u', 'r', 'c', 'e', '>'];
    let src_c = vec!['<', '/', 's', 'o', 'u', 'r', 'c', 'e', '>'];
    let tr_o = vec!['<', 't', 'r', 'a', 'n', 's', 'l', 'a', 't', 'i', 'o', 'n'];
    let tr_c = vec!['<', '/', 't', 'r', 'a', 'n', 's', 'l', 'a', 't', 'i', 'o', 'n', '>'];
    let gt = vec!['>'];
    let mut cat: Catalog = SortedMap::new();
    let mut ctx: Vec<char> = vec!['d', 'e', 'f', 'a', 'u', 'l', 't'];
    let mut cur: Option<Vec<char>> = None;
    let mut i: usize = 0;
    let n = t.len();
    proof {
        assert(t@.skip(0) == t@);
        assert(ctx@ == default_context());
        assert(opt_chars(cur) == None::<Seq<char>>);
    }
    loop
        invariant
            t@ == text@,
            t@.len() <= usize::MAX,
            nl@ == newline(),
            name_o@ == name_open(),
            name_c@ == name_close(),
            src_o@ == source_open(),
            src_c@ == source_close(),
            tr_o@ == translation_open(),
            tr_c@ == translation_close(),
            gt@ == tag_end(),
            i <= t@.len(),
            parse_ts_spec(t@) == read_lines(
                t@.skip(i as int),
                (ctx@, opt_chars(cur), cat.deep_view()),
            ).2,
            catalog_wf(cat.deep_view()),
        decreases t@.len() - i,
    {
        let found_nl = find_exec(&t, &nl, i);
        proof {
            lemma_find_skip(t@, newline(), i as int, 0);
            lemma_find_from_bounds(t@, newline(), i as int);
        }
        let e = match found_nl {
            Some(p) => p,
            None => t.len(),
        };
        let (a, b) = trim_range(&t, i, e);
        let line = copy_chars(&t, a, b);
        proof {
            assert(t@.skip(i as int).take(e - i) == t@.subrange(i as int, e as int));
            if found_nl is None {
                assert(t@.skip(i as int) == t@.subrange(i as int, e as int));
            }
        }
        let ghost st = (ctx@, opt_chars(cur), cat.deep_view());
        let ghost next = read_line(line@, st);
        match between_chars(&line, &name_o, &name_c) {
            Some(name) => {
                ctx = unescape_xml_chars(&name);
            },
            None => match between_chars(&line, &src_o, &src_c) {
                Some(src) => {
                    cur = Some(unescape_xml_chars(&src));
                },
                None => {
                    if starts_with_chars(&line, &tr_o) && cur.is_some() {
                        let src = match cur {
                            Some(s) => s,
                            None => Vec::new(),
                        };
                        let tr = match between_chars(&line, &gt, &tr_c) {
                            Some(x) => unescape_xml_chars(&x),
                            None => Vec::new(),
                        };
                        proof {
                            lemma_put_message(cat.deep_view(), ctx@, src@, tr@);
                        }
                        add_message(&mut cat, &ctx, &src, &tr);
                        cur = None;
                    }
                },
            },
        }
        assert((ctx@, opt_chars(cur), cat.deep_view()) == next);
        match found_nl {
            Some(p) => {
                assert(t@.skip(i as int).skip(p - i + 1) == t@.skip(p + 1));
                i = p + 1;
            },
            None => {
                return cat;
            },
        }
    }
}

// ---------------------------------------------------------------------------
// Writing
// ---------------------------------------------------------------------------

pub open spec fn render_message(m: (Seq<char>, Seq<char>)) -> Seq<char> {
    "    <message>\n"@ + "        <source>"@ + escape_spec(m.0) + "</source>\n"@ + (if m.1.len()
        == 0 {
        "        <translation type=\"unfinished\"></translation>\n"@
    } else {
        "        <translation>"@ + escape_spec(m.1) + "</translation>\n"@
    }) + "    </message>\n"@
}

pub open spec fn render_messages(m: MsgSeq) -> Seq<char>
    decreases m.len(),
{
    if m.len() == 0 {
        Seq::empty()
    } else {
        render_messages(m.drop_last()) + render_message(m.last())
    }
}

pub open spec fn render_context(c: (Seq<char>, MsgSeq)) -> Seq<char> {
    "<context>\n"@ + "    <name>"@ + escape_spec(c.0) + "</name>\n"@ + render_messages(c.1)
        + "</context>\n"@
}

pub open spec fn render_contexts(c: CatSeq) -> Seq<char>
    decreases c.len(),
{
    if c.len() == 0 {
        Seq::empty()
    } else {
        render_contexts(c.drop_last()) + render_context(c.last())
    }
}

pub open spec fn ts_header(lang: Seq<char>) -> Seq<char> {
    "<?xml version=\"1.0\" encoding=\"utf-8\"?>\n"@ + "<!DOCTYPE TS>\n"@
        + "<TS version=\"2.1\" language=\""@ + attr_spec(lang) + "\">\n"@
}

/// The `.ts` document for `lang` listing `c`.
pub open spec fn render_ts_spec(lang: Seq<char>, c: CatSeq) -> Seq<char> {
    ts_header(lang) + render_contexts(c) + "</TS>\n"@
}

/// Escapes `&`, `<` and `>` for XML element text.
pub fn escape_xml(s: &str) -> (r: String)
    ensures
        r@ == escape_spec(s@),
{
    string_of(&escape_xml_chars(&chars_of(s)))
}

/// Escapes `s` for a double-quoted XML attribute (also `"`).
pub fn xml_attr(s: &str) -> (r: String)
    ensures
        r@ == attr_spec(s@),
{
    string_of(&xml_attr_chars(&chars_of(s)))
}

/// Decodes `&lt;`, `&gt;`, `&quot;` and `&amp;`, in that order.
pub fn unescape_xml(s: &str) -> (r: String)
    ensures
        r@ == unescape_spec(s@),
{
    string_of(&unescape_xml_chars(&chars_of(s)))
}

/// The text between the first `open` and the next `close` in `s`.
pub fn between(s: &str, open: &str, close: &str) -> (r: Option<String>)
    ensures
        match r {
            Some(v) => between_spec(s@, open@, close@) == Some(v@),
            None => between_spec(s@, open@, close@) is None,
        },
{
    match between_chars(&chars_of(s), &chars_of(open), &chars_of(close)) {
        Some(v) => Some(string_of(&v)),
        None => None,
    }
}

fn append_message(s: &mut String, src: &String, tr: &String)
    ensures
        final(s)@ == old(s)@ + render_message((src@, tr@)),
{
    let ghost s0 = s@;
    let esc_src = escape_xml(src.as_str());
    s.append("    <message>\n");
    s.append("        <source>");
    s.append(esc_src.as_str());
    s.append("</source>\n");
    let ghost s1 = s@;
    if tr.as_str().is_empty() {
        s.append("        <translation type=\"unfinished\"></translation>\n");
    } else {
        let esc_tr = escape_xml(tr.as_str());
        s.append("        <translation>");
        s.append(esc_tr.as_str());
        s.append("</translation>\n");
    }
    s.append("    </message>\n");
    assert(s@ =~= s0 + render_message((src@, tr@)));
}

fn append_context(s: &mut String, ctx: &String, msgs: &Messages)
    ensures
        final(s)@ == old(s)@ + render_context((ctx@, msgs.deep_view())),
{
    let ghost s0 = s@;
    let esc = escape_xml(ctx.as_str());
    s.append("<context>\n");
    s.append("    <name>");
    s.append(esc.as_str());
    s.append("</name>\n");
    let ghost s1 = s@;
    let e = msgs.entries();
    let mut j: usize = 0;
    while j < e.len()
        invariant
            j <= e@.len(),
            e.deep_view() == msgs.deep_view(),
            s@ == s1 + render_messages(msgs.deep_view().take(j as int)),
        decreases e@.len() - j,
    {
        let ghost before = s@;
        append_message(s, &e[j].0, &e[j].1);
        proof {
            let m = msgs.deep_view();
            assert(m.take(j + 1).drop_last() =~= m.take(j as int));
            assert(m.take(j + 1).last() == (e@[j as int].0@, e@[j as int].1@));
            assert(s@ =~= s1 + render_messages(m.take(j + 1)));
        }
        j = j + 1;
    }
    s.append("</context>\n");
    proof {
        let m = msgs.deep_view();
        assert(m.take(e@.len() as int) =~= m);
        assert(s@ =~= s0 + render_context((ctx@, m)));
    }
}

/// Renders a `.ts` XML document for `lang` from `cat`.
pub fn render_ts(lang: &str, cat: &Catalog) -> (s: String)
    ensures
        s@ == render_ts_spec(lang@, cat.deep_view()),
{
    let mut s = String::new();
    s.append("<?xml version=\"1.0\" encoding=\"utf-8\"?>\n");
    s.append("<!DOCTYPE TS>\n");
    s.append("<TS version=\"2.1\" language=\"");
    let attr = xml_attr(lang);
    s.append(attr.as_str());
    s.append("\">\n");
    let ghost h = s@;
    assert(h =~= ts_header(lang@));
    let e = cat.entries();
    let mut i: usize = 0;
    while i < e.len()
        invariant
            i <= e@.len(),
            e.deep_view() == cat.deep_view(),
            h == ts_header(lang@),
            s@ == h + render_contexts(cat.deep_view().take(i as int)),
        decreases e@.len() - i,
    {
        append_context(&mut s, &e[i].0, &e[i].1);
        proof {
            let c = cat.deep_view();
            assert(c.take(i + 1).drop_last() =~= c.take(i as int));
            assert(c.take(i + 1).last() == (e@[i as int].0@, e@[i as int].1.deep_view()));
            assert(s@ =~= h + render_contexts(c.take(i + 1)));
        }
        i = i + 1;
    }
    s.append("</TS>\n");
    proof {
        let c = cat.deep_view();
        assert(c.take(e@.len() as int) =~= c);
        assert(s@ =~= render_ts_spec(lang@, c));
    }
    s
}

} // verus!

verus! {

// ---------------------------------------------------------------------------
// Collecting and merging
// ---------------------------------------------------------------------------

/// `f` after recording `src` under `ctx` (once; first-seen order kept).
pub open spec fn add_found(f: FoundSeq, ctx: Seq<char>, src: Seq<char>) -> FoundSeq {
    let b = match lookup(f, ctx) {
        Some(v) => v,
        None => Seq::empty(),
    };
    put(f, ctx, if b.contains(src) { b } else { b.push(src) })
}

/// `f` after recording every pair of `pairs`, in order.
pub open spec fn add_all_found(f: FoundSeq, pairs: Seq<(Seq<char>, Seq<char>)>) -> FoundSeq
    decreases pairs.len(),
{
    if pairs.len() == 0 {
        f
    } else {
        add_found(add_all_found(f, pairs.drop_last()), pairs.last().0, pairs.last().1)
    }
}

/// The messages of one context: each source of `srcs` with its translation
/// in `prior`, or empty.
pub open spec fn fill_context(prior: CatSeq, ctx: Seq<char>, srcs: Seq<Seq<char>>) -> MsgSeq
    decreases srcs.len(),
{
    if srcs.len() == 0 {
        Seq::empty()
    } else {
        put(fill_context(prior, ctx, srcs.drop_last()), srcs.last(), translation_of(prior, ctx, srcs.last()))
    }
}

/// The merged catalogue: every context of `found`, in order, each source
/// paired with the translation `prior` holds for it (empty when none).
pub open spec fn merge_spec(found: FoundSeq, prior: CatSeq) -> CatSeq {
    Seq::new(found.len(), |i: int| (found[i].0, fill_context(prior, found[i].0, found[i].1)))
}

/// The catalogue an optional existing `.ts` text contributes.
pub open spec fn prior_of(existing: Option<Seq<char>>) -> CatSeq {
    match existing {
        Some(t) => parse_ts_spec(t),
        None => Seq::empty(),
    }
}

pub closed spec fn opt_str(o: Option<&str>) -> Option<Seq<char>> {
    match o {
        Some(s) => Some(s@),
        None => None,
    }
}

proof fn lemma_fill_sorted(prior: CatSeq, ctx: Seq<char>, srcs: Seq<Seq<char>>)
    ensures
        keys_sorted(fill_context(prior, ctx, srcs)),
    decreases srcs.len(),
{
    if srcs.len() > 0 {
        lemma_fill_sorted(prior, ctx, srcs.drop_last());
        lemma_put(fill_context(prior, ctx, srcs.drop_last()), srcs.last(), translation_of(prior, ctx, srcs.last()));
    }
}

fn copy_strings(v: &Vec<String>) -> (r: Vec<String>)
    ensures
        r.deep_view() == v.deep_view(),
{
    let mut r: Vec<String> = Vec::new();
    let mut i: usize = 0;
    while i < v.len()
        invariant
            i <= v@.len(),
            r.deep_view() == v.deep_view().take(i as int),
        decreases v@.len() - i,
    {
        let s = v[i].clone();
        let ghost r0 = r.deep_view();
        r.push(s);
        i = i + 1;
        assert(r.deep_view() =~= r0.push(v@[i - 1]@));
        assert(v.deep_view().take(i as int) =~= v.deep_view().take(i - 1).push(v@[i - 1]@));
    }
    assert(v.deep_view().take(v@.len() as int) =~= v.deep_view());
    r
}

fn contains_string(v: &Vec<String>, s: &String) -> (b: bool)
    ensures
        b == v.deep_view().contains(s@),
{
    let mut i: usize = 0;
    while i < v.len()
        invariant
            i <= v@.len(),
            forall|k: int| 0 <= k < i ==> v.deep_view()[k] != s@,
        decreases v@.len() - i,
    {
        if v[i] == *s {
            assert(v.deep_view()[i as int] == s@);
            return true;
        }
        i = i + 1;
    }
    false
}

/// Records the `tr!` strings of one source text into `found`: each
/// (context, source) pair once per context, in first-seen order.
pub fn scan_text(found: &mut Found, text: &str)
    ensures
        final(found).deep_view() == add_all_found(old(found).deep_view(), extract_spec(text@)),
        old(found).wf() ==> final(found).wf(),
{
    let ghost was_wf = found.wf();
    let pairs = extract_tr(text);
    let ghost ps = pairs.deep_view();
    let ghost f0 = found.deep_view();
    let mut i: usize = 0;
    while i < pairs.len()
        invariant
            i <= pairs@.len(),
            ps == pairs.deep_view(),
            ps == extract_spec(text@),
            found.deep_view() == add_all_found(f0, ps.take(i as int)),
            was_wf ==> found.wf(),
        decreases pairs@.len() - i,
    {
        let ctx = &pairs[i].0;
        let src = &pairs[i].1;
        let mut bucket: Vec<String> = match found.get(ctx.as_str()) {
            Some(b) => copy_strings(b),
            None => Vec::new(),
        };
        if !contains_string(&bucket, src) {
            bucket.push(src.clone());
        }
        let ghost b0 = match lookup(found.deep_view(), ctx@) {
            Some(v) => v,
            None => Seq::<Seq<char>>::empty(),
        };
        assert(bucket.deep_view() =~= (if b0.contains(src@) { b0 } else { b0.push(src@) }));
        found.insert(ctx.clone(), bucket);
        proof {
            assert(ps.take(i + 1).drop_last() =~= ps.take(i as int));
            assert(ps.take(i + 1).last() == (ctx@, src@));
        }
        i = i + 1;
    }
    assert(ps.take(pairs@.len() as int) =~= ps);
}

/// Combines freshly extracted strings with the translations of an existing
/// `.ts` document, keeping every translation already provided. Each context
/// of `found` lists its sources with the prior translation, or an empty one.
pub fn merge_catalog(found: &Found, existing: Option<&str>) -> (cat: Catalog)
    requires
        found.wf(),
    ensures
        cat.deep_view() == merge_spec(found.deep_view(), prior_of(opt_str(existing))),
        catalog_wf(cat.deep_view()),
{
    let prior: Catalog = match existing {
        Some(t) => parse_ts(t),
        None => SortedMap::new(),
    };
    let ghost pr = prior.deep_view();
    assert(pr == prior_of(opt_str(existing)));
    let mut cat: Catalog = SortedMap::new();
    let e = found.entries();
    let ghost fs = found.deep_view();
    let mut i: usize = 0;
    while i < e.len()
        invariant
            i <= e@.len(),
            e.deep_view() == fs,
            fs == found.deep_view(),
            keys_sorted(fs),
            pr == prior.deep_view(),
            cat.deep_view() == merge_spec(fs.take(i as int), pr),
        decreases e@.len() - i,
    {
        let ctx = &e[i].0;
        let srcs = &e[i].1;
        let mut inner: Messages = SortedMap::new();
        let mut j: usize = 0;
        assert(srcs.deep_view().take(0) =~= Seq::<Seq<char>>::empty());
        while j < srcs.len()
            invariant
                j <= srcs@.len(),
                pr == prior.deep_view(),
                inner.deep_view() == fill_context(pr, ctx@, srcs.deep_view().take(j as int)),
            decreases srcs@.len() - j,
        {
            let src = &srcs[j];
            let tr: String = match prior.get(ctx.as_str()) {
                Some(m) => match m.get(src.as_str()) {
                    Some(t) => t.clone(),
                    None => String::new(),
                },
                None => String::new(),
            };
            assert(tr@ == translation_of(pr, ctx@, src@));
            inner.insert(src.clone(), tr);
            proof {
                let ss = srcs.deep_view();
                assert(ss.take(j + 1).drop_last() =~= ss.take(j as int));
                assert(ss.take(j + 1).last() == src@);
            }
            j = j + 1;
        }
        assert(srcs.deep_view().take(srcs@.len() as int) =~= srcs.deep_view());
        assert(fs[i as int] == (ctx@, srcs.deep_view()));
        cat.push_last(ctx.clone(), inner);
        assert(cat.deep_view() =~= merge_spec(fs.take(i + 1), pr));
        i = i + 1;
    }
    assert(fs.take(e@.len() as int) =~= fs);
    proof {
        let c = cat.deep_view();
        assert(keys_sorted(c)) by {
            assert forall|a: int, b: int| 0 <= a < b < c.len() implies crate::i18n::sorted::key_lt(
                #[trigger] c[a].0,
                #[trigger] c[b].0,
            ) by {
                assert(c[a].0 == fs[a].0);
                assert(c[b].0 == fs[b].0);
            }
        }
        assert forall|k: int| 0 <= k < c.len() implies keys_sorted(#[trigger] c[k].1) by {
            lemma_fill_sorted(pr, fs[k].0, fs[k].1);
        }
    }
    cat
}

} // verus!
