//! Locating Qt's command-line tools (`rcc`, `lrelease`) across the names and
//! install directories different distributions use.
//!
//! A search tries each candidate in order: an absolute candidate is probed
//! as is, a bare command name in every directory of the `PATH` list. The
//! first probe that exists wins. Which probes exist is the caller's to find
//! out; this module decides what to probe and which hit wins.

use vstd::prelude::*;
use crate::text::{chars_of, push_char, texts};
use crate::qt_build::paths::{path_join, join_path};

verus! {

/// A path is absolute when it starts at the root (`/`).
pub open spec fn is_absolute(p: Seq<char>) -> bool {
    p.len() > 0 && p[0] == '/'
}

fn is_absolute_exec(p: &str) -> (b: bool)
    ensures
        b == is_absolute(p@),
{
    let cs = chars_of(p);
    cs.len() > 0 && cs[0] == '/'
}

/// The pieces of `s` between the separators `sep`, in order (text without a
/// separator is one piece; empty text is one empty piece).
pub open spec fn split_on(s: Seq<char>, sep: char) -> Seq<Seq<char>>
    decreases s.len(),
{
    if s.len() == 0 {
        seq![Seq::empty()]
    } else {
        let parts = split_on(s.drop_last(), sep);
        if s.last() == sep {
            parts.push(Seq::empty())
        } else {
            parts.update(parts.len() - 1, parts.last().push(s.last()))
        }
    }
}

pub proof fn lemma_split_on_nonempty(s: Seq<char>, sep: char)
    ensures
        split_on(s, sep).len() >= 1,
    decreases s.len(),
{
    if s.len() > 0 {
        lemma_split_on_nonempty(s.drop_last(), sep);
    }
}

/// The entries of a `PATH`-style list: the text between `:` separators.
pub open spec fn split_colon(s: Seq<char>) -> Seq<Seq<char>> {
    split_on(s, ':')
}

/// Splits a `PATH`-style list at each `:`.
pub fn split_path_list(list: &str) -> (parts: Vec<String>)
    ensures
        texts(parts@) == split_colon(list@),
{
    split_text(list, ':')
}

/// Splits `s` at each `sep`.
pub fn split_text(s: &str, sep: char) -> (parts: Vec<String>)
    ensures
        texts(parts@) == split_on(s@, sep),
{
    let list = s;
    let cs = chars_of(list);
    let n = cs.len();
    let mut parts: Vec<String> = Vec::new();
    let mut cur = String::new();
    let mut i: usize = 0;
    while i < n
        invariant
            n == cs@.len(),
            i <= n,
            texts(parts@).push(cur@) == split_on(cs@.take(i as int), sep),
        decreases n - i,
    {
        let ghost pre = cs@.take(i as int);
        proof {
            lemma_split_on_nonempty(pre, sep);
            assert(cs@.take(i + 1).drop_last() == pre);
        }
        if cs[i] == sep {
            let done = cur;
            parts.push(done);
            cur = String::new();
            assert(texts(parts@).push(cur@) =~= split_on(pre, sep).push(Seq::empty()));
        } else {
            push_char(&mut cur, cs[i]);
            assert(texts(parts@).push(cur@) =~= split_on(pre, sep).update(
                split_on(pre, sep).len() - 1,
                split_on(pre, sep).last().push(cs@[i as int]),
            ));
        }
        i = i + 1;
    }
    parts.push(cur);
    assert(cs@.take(n as int) == cs@);
    assert(texts(parts@) =~= split_on(cs@, sep));
    parts
}

/// What to probe for one candidate: itself when absolute, else the
/// candidate adjoined to each directory of the search list.
pub open spec fn probes_of(c: Seq<char>, dirs: Seq<Seq<char>>) -> Seq<Seq<char>> {
    if is_absolute(c) {
        seq![c]
    } else {
        dirs.map_values(|d: Seq<char>| path_join(d, c))
    }
}

/// Everything to probe, candidate by candidate.
pub open spec fn probe_list(cands: Seq<Seq<char>>, dirs: Seq<Seq<char>>) -> Seq<Seq<char>>
    decreases cands.len(),
{
    if cands.len() == 0 {
        Seq::empty()
    } else {
        probe_list(cands.drop_last(), dirs) + probes_of(cands.last(), dirs)
    }
}

/// Everything to probe for `cands` on the search list `path_list`, in order.
pub fn probes(cands: &Vec<String>, path_list: &str) -> (r: Vec<String>)
    ensures
        texts(r@) == probe_list(texts(cands@), split_colon(path_list@)),
{
    let dirs = split_path_list(path_list);
    let ghost ds = split_colon(path_list@);
    let mut r: Vec<String> = Vec::new();
    let n = cands.len();
    let mut i: usize = 0;
    while i < n
        invariant
            n == cands@.len(),
            i <= n,
            texts(dirs@) == ds,
            texts(r@) == probe_list(texts(cands@).take(i as int), ds),
        decreases n - i,
    {
        let ghost before = texts(r@);
        let c = &cands[i];
        let ghost cs = texts(cands@).take(i + 1);
        assert(cs.drop_last() == texts(cands@).take(i as int));
        assert(cs.last() == c@);
        if is_absolute_exec(c.as_str()) {
            r.push(c.clone());
            assert(texts(r@) =~= before + probes_of(c@, ds));
        } else {
            let m = dirs.len();
            let mut j: usize = 0;
            while j < m
                invariant
                    m == dirs@.len(),
                    j <= m,
                    texts(dirs@) == ds,
                    texts(r@) == before + ds.take(j as int).map_values(
                        |d: Seq<char>| path_join(d, c@),
                    ),
                decreases m - j,
            {
                let p = join_path(dirs[j].as_str(), c.as_str());
                assert(dirs@[j as int]@ == ds[j as int]);
                let ghost rb = r@;
                r.push(p);
                assert(texts(r@) =~= texts(rb).push(path_join(ds[j as int], c@)));
                assert(ds.take(j + 1).map_values(|d: Seq<char>| path_join(d, c@)) =~= ds.take(
                    j as int,
                ).map_values(|d: Seq<char>| path_join(d, c@)).push(path_join(ds[j as int], c@)));
                assert(texts(r@) =~= before + ds.take(j + 1).map_values(
                    |d: Seq<char>| path_join(d, c@),
                ));
                j = j + 1;
            }
            assert(ds.take(m as int) == ds);
        }
        i = i + 1;
    }
    assert(texts(cands@).take(n as int) == texts(cands@));
    r
}

/// Probe `i` was found to exist.
pub open spec fn present(found: Seq<bool>, i: int) -> bool {
    0 <= i < found.len() && found[i]
}

/// The first probe that exists, given which do (`found[i]` for probe `i`; a
/// probe past the end of `found` counts as missing).
pub fn first_present(probes: &Vec<String>, found: &Vec<bool>) -> (r: Option<String>)
    ensures
        r matches Some(p) ==> exists|i: int|
            0 <= i < probes@.len() && present(found@, i) && p@ == probes@[i]@ && forall|j: int|
                0 <= j < i ==> !present(found@, j),
        r is None ==> forall|i: int| 0 <= i < probes@.len() ==> !present(found@, i),
{
    let n = probes.len();
    let mut i: usize = 0;
    while i < n
        invariant
            n == probes@.len(),
            i <= n,
            forall|j: int| 0 <= j < i ==> !present(found@, j),
        decreases n - i,
    {
        if i < found.len() && found[i] {
            let p = probes[i].clone();
            assert(present(found@, i as int));
            assert(p@ == probes@[i as int]@);
            return Some(p);
        }
        i = i + 1;
    }
    None
}

pub open spec fn rcc_candidates_spec() -> Seq<Seq<char>> {
    seq![
        "rcc"@,
        "rcc-qt6"@,
        "rcc-qax"@,
        "/usr/lib/qt6/bin/rcc"@,
        "/usr/lib/qt6/rcc"@,
        "/usr/lib/qax/rcc"@,
    ]
}

pub open spec fn lrelease_candidates_spec() -> Seq<Seq<char>> {
    seq![
        "lrelease"@,
        "lrelease-qt6"@,
        "lrelease6"@,
        "/usr/lib/qt6/bin/lrelease"@,
        "/usr/lib/qt6/lrelease"@,
    ]
}

/// The names and install paths Qt's resource compiler goes by.
pub fn rcc_candidates() -> (v: Vec<String>)
    ensures
        texts(v@) == rcc_candidates_spec(),
{
    let mut v: Vec<String> = Vec::new();
    v.push("rcc".to_owned());
    v.push("rcc-qt6".to_owned());
    v.push("rcc-qax".to_owned());
    v.push("/usr/lib/qt6/bin/rcc".to_owned());
    v.push("/usr/lib/qt6/rcc".to_owned());
    v.push("/usr/lib/qax/rcc".to_owned());
    assert(texts(v@) =~= rcc_candidates_spec());
    v
}

/// The names and install paths Qt's translation compiler goes by.
pub fn lrelease_candidates() -> (v: Vec<String>)
    ensures
        texts(v@) == lrelease_candidates_spec(),
{
    let mut v: Vec<String> = Vec::new();
    v.push("lrelease".to_owned());
    v.push("lrelease-qt6".to_owned());
    v.push("lrelease6".to_owned());
    v.push("/usr/lib/qt6/bin/lrelease".to_owned());
    v.push("/usr/lib/qt6/lrelease".to_owned());
    assert(texts(v@) =~= lrelease_candidates_spec());
    v
}

/// The first of `probes` that exists, by `found`.
pub open spec fn first_found(probes: Seq<Seq<char>>, found: Seq<bool>, p: Seq<char>) -> bool {
    exists|i: int|
        0 <= i < probes.len() && present(found, i) && p == probes[i] && forall|j: int|
            0 <= j < i ==> !present(found, j)
}

pub open spec fn none_found(probes: Seq<Seq<char>>, found: Seq<bool>) -> bool {
    forall|i: int| 0 <= i < probes.len() ==> !present(found, i)
}

/// The first of `candidates` that exists: an absolute candidate is probed
/// as it is, a bare name in each directory of the search list `path_list`,
/// in order; `found[i]` tells whether probe `i` (see [`probes`]) exists.
pub fn which(candidates: &Vec<String>, path_list: &str, found: &Vec<bool>) -> (r: Option<String>)
    ensures
        r matches Some(p) ==> first_found(
            probe_list(texts(candidates@), split_colon(path_list@)),
            found@,
            p@,
        ),
        r is None ==> none_found(
            probe_list(texts(candidates@), split_colon(path_list@)),
            found@,
        ),
{
    let ps = probes(candidates, path_list);
    let r = first_present(&ps, found);
    let ghost gr = r;
    proof {
        match gr {
            Some(p) => {
                let i = choose|i: int|
                    0 <= i < ps@.len() && present(found@, i) && p@ == ps@[i]@ && forall|j: int|
                        0 <= j < i ==> !present(found@, j);
                assert(texts(ps@)[i] == ps@[i]@);
            },
            None => {},
        }
    }
    r
}

/// Locates `rcc` on the search list `path_list`, given which of its probes
/// (see [`rcc_candidates`], [`probes`]) exist.
pub fn find_rcc(path_list: &str, found: &Vec<bool>) -> (r: Option<String>)
    ensures
        r matches Some(p) ==> first_found(
            probe_list(rcc_candidates_spec(), split_colon(path_list@)),
            found@,
            p@,
        ),
        r is None ==> none_found(probe_list(rcc_candidates_spec(), split_colon(path_list@)), found@),
{
    which(&rcc_candidates(), path_list, found)
}

/// Locates `lrelease` on the search list `path_list`, given which of its
/// probes (see [`lrelease_candidates`], [`probes`]) exist.
pub fn find_lrelease(path_list: &str, found: &Vec<bool>) -> (r: Option<String>)
    ensures
        r matches Some(p) ==> first_found(
            probe_list(lrelease_candidates_spec(), split_colon(path_list@)),
            found@,
            p@,
        ),
        r is None ==> none_found(
            probe_list(lrelease_candidates_spec(), split_colon(path_list@)),
            found@,
        ),
{
    which(&lrelease_candidates(), path_list, found)
}

} // verus!
