//! What a build script does for each configured input, decided from what it
//! finds on disk and which tools it locates. Compilation is best effort: a
//! missing input or tool is skipped with one warning, and the script runs
//! the steps and warns once for each compilation that fails.

use vstd::prelude::*;
use crate::text::texts;
use crate::qt_build::plan::{catalog_files, is_catalog};
use crate::qt_build::rcc::{rcc_output, rcc_output_spec};

verus! {

/// One thing a build script does.
pub enum BuildStep {
    /// Asks Cargo to rerun the script when this path changes.
    RerunIfChanged(String),
    /// Shows a warning (`cargo:warning=`).
    Warning(String),
    /// Compiles catalogue `ts` into the output directory with `tool`.
    CompileTs { tool: String, ts: String },
    /// Compiles resource file `input` into bundle `output` with `tool`.
    CompileQrc { tool: String, input: String, output: String },
}

/// A build step with its texts as character sequences.
pub enum StepView {
    RerunIfChanged(Seq<char>),
    Warning(Seq<char>),
    CompileTs { tool: Seq<char>, ts: Seq<char> },
    CompileQrc { tool: Seq<char>, input: Seq<char>, output: Seq<char> },
}

pub open spec fn step_view(s: BuildStep) -> StepView {
    match s {
        BuildStep::RerunIfChanged(p) => StepView::RerunIfChanged(p@),
        BuildStep::Warning(w) => StepView::Warning(w@),
        BuildStep::CompileTs { tool, ts } => StepView::CompileTs { tool: tool@, ts: ts@ },
        BuildStep::CompileQrc { tool, input, output } => StepView::CompileQrc {
            tool: tool@,
            input: input@,
            output: output@,
        },
    }
}

pub open spec fn steps_view(v: Seq<BuildStep>) -> Seq<StepView> {
    v.map_values(|s: BuildStep| step_view(s))
}

/// The text of a build warning about `msg`.
pub open spec fn warning_spec(msg: Seq<char>) -> Seq<char> {
    "qax-build: "@ + msg
}

/// The warning given when the translation compiler is missing (`e` says why).
pub open spec fn no_lrelease_spec(e: Seq<char>) -> Seq<char> {
    warning_spec(e + "; skipping .ts -> .qm (translations won't be built)"@)
}

/// The warning given when the resource compiler is missing for `qrc`.
pub open spec fn no_rcc_spec(e: Seq<char>, qrc: Seq<char>) -> Seq<char> {
    warning_spec(e + "; skipping .qrc -> .rcc ("@ + qrc + " won't be embedded)"@)
}

/// The warning given when resource file `qrc` does not exist.
pub open spec fn missing_qrc_spec(qrc: Seq<char>) -> Seq<char> {
    warning_spec("resource "@ + qrc + " not found"@)
}

/// The text of a build warning about `msg`, such as a failed compilation.
pub fn warning(msg: &str) -> (w: String)
    ensures
        w@ == warning_spec(msg@),
{
    let mut w = "qax-build: ".to_owned();
    w.append(msg);
    w
}

/// The catalogues to compile from a translations directory: none when it is
/// not a directory (`is_dir`), cannot be read (`entries` is none) or holds
/// no `.ts` file; otherwise its `.ts` entries, in order.
pub fn translation_inputs(is_dir: bool, entries: Option<Vec<String>>) -> (r: Option<Vec<String>>)
    ensures
        r is None <==> (!is_dir || entries is None || texts(entries->0@).filter(
            |p: Seq<char>| is_catalog(p),
        ).len() == 0),
        r matches Some(v) ==> texts(v@) == texts(entries->0@).filter(|p: Seq<char>| is_catalog(p)),
{
    if !is_dir {
        return None;
    }
    match entries {
        None => None,
        Some(e) => {
            let ts = catalog_files(&e);
            if ts.len() == 0 {
                None
            } else {
                Some(ts)
            }
        },
    }
}

/// For each catalogue, in order: rerun when it changes, then compile it.
pub open spec fn catalog_steps(tool: Seq<char>, ts: Seq<Seq<char>>) -> Seq<StepView>
    decreases ts.len(),
{
    if ts.len() == 0 {
        Seq::empty()
    } else {
        catalog_steps(tool, ts.drop_last()) + seq![
            StepView::RerunIfChanged(ts.last()),
            StepView::CompileTs { tool, ts: ts.last() },
        ]
    }
}

/// The steps for catalogues `ts`, given the outcome of locating the
/// translation compiler: one warning when it is missing, else each catalogue
/// watched and compiled in turn.
pub fn translation_steps(ts: Vec<String>, lrelease: Result<String, String>) -> (s: Vec<BuildStep>)
    ensures
        lrelease matches Err(e) ==> steps_view(s@) == seq![StepView::Warning(no_lrelease_spec(e@))],
        lrelease matches Ok(t) ==> steps_view(s@) == catalog_steps(t@, texts(ts@)),
{
    let mut s: Vec<BuildStep> = Vec::new();
    match lrelease {
        Err(e) => {
            let mut m = e;
            m.append("; skipping .ts -> .qm (translations won't be built)");
            s.push(BuildStep::Warning(warning(m.as_str())));
            assert(steps_view(s@) =~= seq![StepView::Warning(no_lrelease_spec(e@))]);
        },
        Ok(t) => {
            let n = ts.len();
            let mut i: usize = 0;
            while i < n
                invariant
                    n == ts@.len(),
                    i <= n,
                    steps_view(s@) == catalog_steps(t@, texts(ts@).take(i as int)),
                decreases n - i,
            {
                let ghost before = s@;
                s.push(BuildStep::RerunIfChanged(ts[i].clone()));
                s.push(BuildStep::CompileTs { tool: t.clone(), ts: ts[i].clone() });
                proof {
                    let k = texts(ts@).take(i + 1);
                    assert(k.drop_last() =~= texts(ts@).take(i as int));
                    assert(k.last() == ts@[i as int]@);
                    assert(steps_view(s@) =~= steps_view(before) + seq![
                        StepView::RerunIfChanged(ts@[i as int]@),
                        StepView::CompileTs { tool: t@, ts: ts@[i as int]@ },
                    ]);
                }
                i = i + 1;
            }
            assert(texts(ts@).take(n as int) =~= texts(ts@));
        },
    }
    s
}

/// The steps for resource file `qrc`, compiled into `out_dir`: always
/// rerun when it changes; then a warning when it does not exist (`is_file`),
/// else, by the outcome of locating the resource compiler (`rcc`, looked up
/// only for an existing file), a warning when it is missing or the
/// compilation into the bundle named by [`rcc_output`].
pub fn resource_steps(qrc: &str, out_dir: &str, is_file: bool, rcc: Option<Result<String, String>>) -> (s:
    Vec<BuildStep>)
    ensures
        !is_file ==> steps_view(s@) == seq![
            StepView::RerunIfChanged(qrc@),
            StepView::Warning(missing_qrc_spec(qrc@)),
        ],
        is_file && rcc is None ==> steps_view(s@) == seq![StepView::RerunIfChanged(qrc@)],
        is_file ==> (rcc matches Some(Err(e)) ==> steps_view(s@) == seq![
            StepView::RerunIfChanged(qrc@),
            StepView::Warning(no_rcc_spec(e@, qrc@)),
        ]),
        is_file ==> (rcc matches Some(Ok(t)) ==> steps_view(s@) == seq![
            StepView::RerunIfChanged(qrc@),
            StepView::CompileQrc { tool: t@, input: qrc@, output: rcc_output_spec(qrc@, out_dir@) },
        ]),
{
    let mut s: Vec<BuildStep> = Vec::new();
    s.push(BuildStep::RerunIfChanged(qrc.to_owned()));
    if !is_file {
        let mut m = "resource ".to_owned();
        m.append(qrc);
        m.append(" not found");
        s.push(BuildStep::Warning(warning(m.as_str())));
        assert(steps_view(s@) =~= seq![
            StepView::RerunIfChanged(qrc@),
            StepView::Warning(missing_qrc_spec(qrc@)),
        ]);
        return s;
    }
    match rcc {
        None => {
            assert(steps_view(s@) =~= seq![StepView::RerunIfChanged(qrc@)]);
        },
        Some(Err(e)) => {
            let mut m = e;
            m.append("; skipping .qrc -> .rcc (");
            m.append(qrc);
            m.append(" won't be embedded)");
            s.push(BuildStep::Warning(warning(m.as_str())));
            assert(steps_view(s@) =~= seq![
                StepView::RerunIfChanged(qrc@),
                StepView::Warning(no_rcc_spec(e@, qrc@)),
            ]);
        },
        Some(Ok(t)) => {
            let out = rcc_output(qrc, out_dir);
            s.push(BuildStep::CompileQrc { tool: t, input: qrc.to_owned(), output: out });
            assert(steps_view(s@) =~= seq![
                StepView::RerunIfChanged(qrc@),
                StepView::CompileQrc {
                    tool: t@,
                    input: qrc@,
                    output: rcc_output_spec(qrc@, out_dir@),
                },
            ]);
        },
    }
    s
}

} // verus!
