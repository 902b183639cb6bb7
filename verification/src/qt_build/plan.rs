//! What a build compiles: one directory of translation catalogues and any
//! number of resource files, described up front and run from a build script.

use vstd::prelude::*;
use crate::text::{texts, str_eq};
use crate::qt_build::paths::{path_extension, extension};

verus! {

/// A description of the translation and resource compilation to run during
/// a build. Paths are kept as text, as given.
pub struct Build {
    /// The directory whose `.ts` catalogues are compiled; only one is kept.
    pub translations: Option<String>,
    /// The `.qrc` files to compile, in the order added.
    pub resources: Vec<String>,
}

impl Build {
    /// An empty build with nothing configured.
    pub fn new() -> (b: Self)
        ensures
            b.translations is None,
            b.resources@.len() == 0,
    {
        Build { translations: None, resources: Vec::new() }
    }

    /// Compiles every `.ts` catalogue in `dir`. The languages are accepted
    /// for documentation only: whatever catalogues `dir` holds are compiled.
    /// A later call replaces an earlier directory.
    pub fn translations(self, dir: &str, _langs: Vec<String>) -> (b: Self)
        ensures
            b.translations matches Some(d) && d@ == dir@,
            b.resources == self.resources,
    {
        Build { translations: Some(dir.to_owned()), ..self }
    }

    /// Adds a `.qrc` file to compile.
    pub fn resource(self, qrc: &str) -> (b: Self)
        ensures
            b.translations == self.translations,
            b.resources@.len() == self.resources@.len() + 1,
            b.resources@.drop_last() == self.resources@,
            b.resources@.last()@ == qrc@,
    {
        let mut b = self;
        b.resources.push(qrc.to_owned());
        b
    }

    /// Adds several `.qrc` files at once, in order.
    pub fn resources(self, qrcs: Vec<String>) -> (b: Self)
        ensures
            b.translations == self.translations,
            texts(b.resources@) == texts(self.resources@) + texts(qrcs@),
    {
        let mut b = self;
        let ghost start = texts(b.resources@);
        let n = qrcs.len();
        let mut i: usize = 0;
        while i < n
            invariant
                n == qrcs@.len(),
                i <= n,
                b.translations == self.translations,
                texts(b.resources@) == start + texts(qrcs@).take(i as int),
            decreases n - i,
        {
            let ghost rb = b.resources@;
            b.resources.push(qrcs[i].clone());
            assert(texts(b.resources@) =~= texts(rb).push(qrcs@[i as int]@));
            assert(texts(qrcs@).take(i + 1) =~= texts(qrcs@).take(i as int).push(qrcs@[i as int]@));
            i = i + 1;
        }
        assert(texts(qrcs@).take(n as int) =~= texts(qrcs@));
        b
    }
}

/// `p` names a translation catalogue: its extension is `ts`.
pub open spec fn is_catalog(p: Seq<char>) -> bool {
    path_extension(p) == Some("ts"@)
}

/// The catalogues among the entries of a translations directory, in order.
pub fn catalog_files(entries: &Vec<String>) -> (r: Vec<String>)
    ensures
        texts(r@) == texts(entries@).filter(|p: Seq<char>| is_catalog(p)),
{
    let mut r: Vec<String> = Vec::new();
    let n = entries.len();
    let mut i: usize = 0;
    while i < n
        invariant
            n == entries@.len(),
            i <= n,
            texts(r@) == texts(entries@).take(i as int).filter(|p: Seq<char>| is_catalog(p)),
        decreases n - i,
    {
        let ghost pre = texts(entries@).take(i as int);
        let ghost next = texts(entries@).take(i + 1);
        assert(next.drop_last() =~= pre);
        assert(next.last() == entries@[i as int]@);
        let ghost rb = r@;
        let ext = extension(entries[i].as_str());
        let keep = match &ext {
            Some(e) => str_eq(e.as_str(), "ts"),
            None => false,
        };
        assert(keep == is_catalog(entries@[i as int]@));
        proof {
            reveal(Seq::filter);
        }
        if keep {
            r.push(entries[i].clone());
            assert(texts(r@) =~= texts(rb).push(entries@[i as int]@));
        }
        i = i + 1;
    }
    assert(texts(entries@).take(n as int) =~= texts(entries@));
    r
}

} // verus!
