//! Compiling `.qrc` resource files into binary `.rcc` bundles with Qt's
//! `rcc`: where the output goes, what the tool is given, and finding it.

use vstd::prelude::*;
use crate::qt_build::paths::{
    path_file_stem, path_join, path_with_extension, file_stem, join_path, with_extension,
};
use crate::qt_build::tools::{
    find_rcc, first_found, none_found, probe_list, rcc_candidates_spec, split_colon,
};

verus! {

/// Where the bundle compiled from `qrc` goes in `out_dir`: the stem of `qrc`
/// (empty when it has none) with extension `rcc`.
pub open spec fn rcc_output_spec(qrc: Seq<char>, out_dir: Seq<char>) -> Seq<char> {
    let stem = match path_file_stem(qrc) {
        Some(s) => s,
        None => Seq::empty(),
    };
    path_with_extension(path_join(out_dir, stem), "rcc"@)
}

/// The path of the bundle compiled from `qrc` into `out_dir`.
pub fn rcc_output(qrc: &str, out_dir: &str) -> (p: String)
    ensures
        p@ == rcc_output_spec(qrc@, out_dir@),
{
    let stem = match file_stem(qrc) {
        Some(s) => s,
        None => String::new(),
    };
    let joined = join_path(out_dir, stem.as_str());
    proof {
        reveal_strlit("rcc");
        assert(!"rcc"@.contains('/'));
    }
    with_extension(joined.as_str(), "rcc")
}

/// The arguments `rcc` is run with to compile `qrc` into the bundle `out`.
pub fn rcc_args(qrc: &str, out: &str) -> (args: Vec<String>)
    ensures
        args@.len() == 4,
        args@[0]@ == "--binary"@,
        args@[1]@ == qrc@,
        args@[2]@ == "-o"@,
        args@[3]@ == out@,
{
    let mut args: Vec<String> = Vec::new();
    args.push("--binary".to_owned());
    args.push(qrc.to_owned());
    args.push("-o".to_owned());
    args.push(out.to_owned());
    args
}

/// Locates `rcc` on the search list `path_list`, given which of its probes
/// exist, or says that it is missing.
pub fn locate(path_list: &str, found: &Vec<bool>) -> (r: Result<String, String>)
    ensures
        r matches Ok(p) ==> first_found(
            probe_list(rcc_candidates_spec(), split_colon(path_list@)),
            found@,
            p@,
        ),
        r matches Err(e) ==> e@ == "rcc not found on PATH"@ && none_found(
            probe_list(rcc_candidates_spec(), split_colon(path_list@)),
            found@,
        ),
{
    match find_rcc(path_list, found) {
        Some(p) => Ok(p),
        None => Err("rcc not found on PATH".to_owned()),
    }
}

} // verus!
