//! The file-path operations the build helpers rely on, as `std::path`
//! computes them on paths given as text.

use vstd::prelude::*;

verus! {

/// `base` with `part` adjoined (`Path::join`).
pub uninterp spec fn path_join(base: Seq<char>, part: Seq<char>) -> Seq<char>;

/// The file name of `p` without its extension (`Path::file_stem`).
pub uninterp spec fn path_file_stem(p: Seq<char>) -> Option<Seq<char>>;

/// `p` with its extension replaced by, or extended with, `ext`
/// (`Path::with_extension`).
pub uninterp spec fn path_with_extension(p: Seq<char>, ext: Seq<char>) -> Seq<char>;

/// The extension of the file name of `p` (`Path::extension`).
pub uninterp spec fn path_extension(p: Seq<char>) -> Option<Seq<char>>;

/// `Path::join` on text paths: the result is a function of the two paths,
/// named [`path_join`]; nothing more is stated of it.
#[verifier::external_body]
pub(crate) fn join_path(base: &str, part: &str) -> (r: String)
    ensures
        r@ == path_join(base@, part@),
{
    std::path::Path::new(base).join(part).to_string_lossy().into_owned()
}

/// `Path::file_stem` on a text path, named [`path_file_stem`].
#[verifier::external_body]
pub(crate) fn file_stem(p: &str) -> (r: Option<String>)
    ensures
        r matches Some(s) ==> path_file_stem(p@) == Some(s@),
        r is None ==> path_file_stem(p@) is None,
{
    std::path::Path::new(p).file_stem().map(|s| s.to_string_lossy().into_owned())
}

/// `Path::with_extension` on a text path, named [`path_with_extension`].
/// The call panics when `ext` holds a path separator, so such extensions
/// are excluded.
#[verifier::external_body]
pub(crate) fn with_extension(p: &str, ext: &str) -> (r: String)
    requires
        !ext@.contains('/'),
    ensures
        r@ == path_with_extension(p@, ext@),
{
    std::path::Path::new(p).with_extension(ext).to_string_lossy().into_owned()
}

/// `Path::extension` on a text path, named [`path_extension`].
#[verifier::external_body]
pub(crate) fn extension(p: &str) -> (r: Option<String>)
    ensures
        r matches Some(s) ==> path_extension(p@) == Some(s@),
        r is None ==> path_extension(p@) is None,
{
    std::path::Path::new(p).extension().map(|s| s.to_string_lossy().into_owned())
}

} // verus!
