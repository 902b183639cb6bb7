//! Compiling Qt Linguist `.ts` catalogues into runtime `.qm` files with
//! `lrelease`: where the output goes, what the tool is given, and finding it.

use vstd::prelude::*;
use crate::qt_build::paths::{
    path_file_stem, path_join, path_with_extension, file_stem, join_path, with_extension,
};
use crate::qt_build::tools::{
    find_lrelease, first_found, none_found, probe_list, lrelease_candidates_spec, split_colon,
};

verus! {

/// Where the `.qm` compiled from `ts` goes in `out_dir`: the stem of `ts`,
/// with extension `qm`; an error naming `ts` when it has no file stem.
pub open spec fn qm_output_spec(ts: Seq<char>, out_dir: Seq<char>) -> Result<Seq<char>, Seq<char>> {
    match path_file_stem(ts) {
        Some(stem) => Ok(path_with_extension(path_join(out_dir, stem), "qm"@)),
        None => Err(ts + ": no file stem"@),
    }
}

/// The path of the `.qm` compiled from `ts` into `out_dir`.
pub fn qm_output(ts: &str, out_dir: &str) -> (r: Result<String, String>)
    ensures
        r matches Ok(p) ==> qm_output_spec(ts@, out_dir@) == Ok::<Seq<char>, Seq<char>>(p@),
        r matches Err(e) ==> qm_output_spec(ts@, out_dir@) == Err::<Seq<char>, Seq<char>>(e@),
{
    match file_stem(ts) {
        Some(stem) => {
            let joined = join_path(out_dir, stem.as_str());
            proof {
                reveal_strlit("qm");
                assert(!"qm"@.contains('/'));
            }
            Ok(with_extension(joined.as_str(), "qm"))
        },
        None => {
            let mut e = ts.to_owned();
            e.append(": no file stem");
            Err(e)
        },
    }
}

/// The arguments `lrelease` is run with to compile `ts` into `qm`.
pub fn lrelease_args(ts: &str, qm: &str) -> (args: Vec<String>)
    ensures
        args@.len() == 3,
        args@[0]@ == ts@,
        args@[1]@ == "-qm"@,
        args@[2]@ == qm@,
{
    let mut args: Vec<String> = Vec::new();
    args.push(ts.to_owned());
    args.push("-qm".to_owned());
    args.push(qm.to_owned());
    args
}

/// Locates `lrelease` on the search list `path_list`, given which of its
/// probes exist, or says that it is missing.
pub fn locate(path_list: &str, found: &Vec<bool>) -> (r: Result<String, String>)
    ensures
        r matches Ok(p) ==> first_found(
            probe_list(lrelease_candidates_spec(), split_colon(path_list@)),
            found@,
            p@,
        ),
        r matches Err(e) ==> e@ == "lrelease not found on PATH"@ && none_found(
            probe_list(lrelease_candidates_spec(), split_colon(path_list@)),
            found@,
        ),
{
    match find_lrelease(path_list, found) {
        Some(p) => Ok(p),
        None => Err("lrelease not found on PATH".to_owned()),
    }
}

} // verus!
