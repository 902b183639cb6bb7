use qax::cli::{
    catalog_path, crate_name, parse_command, parse_i18n_args, parse_qrc_args, split_langs,
    ArgError, Command,
};
use qax::locale::FloatFormat;
use qax::qt_build::plan::{catalog_files, Build};
use qax::qt_build::tools::{
    find_lrelease, find_rcc, first_present, lrelease_candidates, probes, rcc_candidates,
    split_path_list, which,
};
use qax::qt_build::steps::{resource_steps, translation_inputs, translation_steps, warning, BuildStep};
use qax::qt_build::{qm, rcc};

fn strings(v: &[&str]) -> Vec<String> {
    v.iter().map(|s| s.to_string()).collect()
}

#[test]
fn path_lists_split_at_colons() {
    assert_eq!(split_path_list("/usr/bin:/bin"), strings(&["/usr/bin", "/bin"]));
    assert_eq!(split_path_list(""), strings(&[""]));
    assert_eq!(split_path_list("a::b:"), strings(&["a", "", "b", ""]));
}

#[test]
fn probes_try_each_candidate_in_every_directory() {
    assert_eq!(
        probes(&rcc_candidates(), "/x:/y"),
        strings(&[
            "/x/rcc",
            "/y/rcc",
            "/x/rcc-qt6",
            "/y/rcc-qt6",
            "/x/rcc-qax",
            "/y/rcc-qax",
            "/usr/lib/qt6/bin/rcc",
            "/usr/lib/qt6/rcc",
            "/usr/lib/qax/rcc",
        ])
    );
    assert_eq!(lrelease_candidates().len(), 5);
}

#[test]
fn the_first_existing_probe_wins() {
    assert_eq!(find_rcc("/x:/y", &vec![false, false, true, true]), Some("/x/rcc-qt6".to_string()));
    assert_eq!(find_rcc("/x", &vec![false, false, false, true]), Some("/usr/lib/qt6/bin/rcc".to_string()));
    assert_eq!(find_rcc("/x", &vec![]), None);
    assert_eq!(find_lrelease("/opt/qt", &vec![false, true]), Some("/opt/qt/lrelease-qt6".to_string()));
    assert_eq!(first_present(&strings(&["a", "b"]), &vec![false, true, true]), Some("b".to_string()));
    assert_eq!(first_present(&strings(&["a"]), &vec![false, true]), None);
}

#[test]
fn locate_reports_missing_tools() {
    assert_eq!(rcc::locate("/x", &vec![]), Err("rcc not found on PATH".to_string()));
    assert_eq!(qm::locate("/x", &vec![]), Err("lrelease not found on PATH".to_string()));
    assert_eq!(qm::locate("/x", &vec![true]), Ok("/x/lrelease".to_string()));
    assert_eq!(rcc::locate("/q", &vec![true]), Ok("/q/rcc".to_string()));
}

#[test]
fn compiled_outputs_and_tool_arguments() {
    assert_eq!(qm::qm_output("translations/app_ru.ts", "/out"), Ok("/out/app_ru.qm".to_string()));
    assert_eq!(qm::qm_output("", "/out"), Err(": no file stem".to_string()));
    assert_eq!(qm::lrelease_args("a.ts", "a.qm"), strings(&["a.ts", "-qm", "a.qm"]));
    assert_eq!(rcc::rcc_output("assets/resources.qrc", "/out"), "/out/resources.rcc");
    assert_eq!(rcc::rcc_args("r.qrc", "r.rcc"), strings(&["--binary", "r.qrc", "-o", "r.rcc"]));
}

#[test]
fn build_keeps_one_translations_dir_and_all_resources() {
    let b = Build::new()
        .translations("translations", strings(&["ru", "en"]))
        .resource("a.qrc")
        .resources(strings(&["b.qrc", "c.qrc"]))
        .translations("i18n", vec![]);
    assert_eq!(b.translations.as_deref(), Some("i18n"));
    assert_eq!(b.resources, strings(&["a.qrc", "b.qrc", "c.qrc"]));
    assert!(Build::new().translations.is_none());
}

#[test]
fn only_ts_files_are_catalogues() {
    assert_eq!(
        catalog_files(&strings(&["a.ts", "b.qm", "c.ts.bak", "dir/d.ts", "ts"])),
        strings(&["a.ts", "dir/d.ts"])
    );
}

#[test]
fn subcommands() {
    assert!(matches!(parse_command(strings(&["qax", "i18n", "--lang", "ru"])), Command::I18n(a) if a == strings(&["--lang", "ru"])));
    assert!(matches!(parse_command(strings(&["qrc", "x.qrc"])), Command::Qrc(a) if a == strings(&["x.qrc"])));
    assert!(matches!(parse_command(strings(&[])), Command::Help));
    assert!(matches!(parse_command(strings(&["qax"])), Command::Help));
    assert!(matches!(parse_command(strings(&["--help"])), Command::Help));
    assert!(matches!(parse_command(strings(&["-h", "i18n"])), Command::Help));
    assert!(matches!(parse_command(strings(&["build"])), Command::Unknown(s) if s == "build"));
}

#[test]
fn i18n_arguments() {
    let o = parse_i18n_args(&strings(&[])).ok().unwrap();
    assert_eq!((o.src.as_str(), o.out.as_str(), o.langs), ("src", "translations", strings(&["ru"])));
    let o = parse_i18n_args(&strings(&["--src", "lib", "--lang", "de, fr ,", "--out", "t", "--src", "app"]))
        .ok()
        .unwrap();
    assert_eq!((o.src.as_str(), o.out.as_str(), o.langs), ("app", "t", strings(&["de", "fr"])));
    assert!(matches!(parse_i18n_args(&strings(&["--out"])), Err(ArgError::MissingValue(f)) if f == "--out"));
    assert!(matches!(parse_i18n_args(&strings(&["--src", "a", "-x"])), Err(ArgError::Unexpected(a)) if a == "-x"));
    assert_eq!(split_langs(" ru , ,en,"), strings(&["ru", "en"]));
    assert_eq!(split_langs(""), Vec::<String>::new());
}

#[test]
fn qrc_arguments() {
    let o = parse_qrc_args(&strings(&["assets/app.qrc"])).ok().unwrap();
    assert_eq!((o.input.as_str(), o.output.as_str()), ("assets/app.qrc", "assets/app.rcc"));
    let o = parse_qrc_args(&strings(&["-o", "x.rcc", "a.qrc", "b.qrc"])).ok().unwrap();
    assert_eq!((o.input.as_str(), o.output.as_str()), ("b.qrc", "x.rcc"));
    let o = parse_qrc_args(&strings(&["in", "--output", "out.bin"])).ok().unwrap();
    assert_eq!((o.input.as_str(), o.output.as_str()), ("in", "out.bin"));
    assert!(matches!(parse_qrc_args(&strings(&["a.qrc", "--output"])), Err(ArgError::MissingValue(f)) if f == "-o"));
    assert!(matches!(parse_qrc_args(&strings(&["--verbose"])), Err(ArgError::Unexpected(a)) if a == "--verbose"));
    assert!(matches!(parse_qrc_args(&strings(&[])), Err(ArgError::MissingInput)));
    assert!(matches!(parse_qrc_args(&strings(&["-o", "x.rcc"])), Err(ArgError::MissingInput)));
}

#[test]
fn package_name_from_manifest() {
    let manifest = "[workspace]\nname = \"ws\"\n\n[package]\r\nedition = \"2021\"\n  name = \"my-app\"  \nversion = \"0.1.0\"\n";
    assert_eq!(crate_name(manifest), Some("my-app".to_string()));
    assert_eq!(crate_name("[package]\nname=\"x\""), Some("x".to_string()));
    assert_eq!(crate_name("[package]\nnamespace = 'y'"), Some("space = 'y'".to_string()));
    assert_eq!(crate_name("[dependencies]\nname = \"dep\"\n"), None);
    assert_eq!(crate_name("name = \"top\"\n[package]\nversion = \"1\""), None);
    assert_eq!(crate_name(""), None);
}

#[test]
fn catalogue_paths() {
    assert_eq!(catalog_path("translations", "app", "ru"), "translations/app_ru.ts");
    assert_eq!(catalog_path("", "x", "de"), "x_de.ts");
}

#[test]
fn float_format_codes() {
    assert_eq!(FloatFormat::Fixed.code(), b'f');
    assert_eq!(FloatFormat::Scientific.code(), b'e');
    assert_eq!(FloatFormat::General.code(), b'g');
}

#[test]
fn which_probes_absolute_candidates_as_given_and_names_per_directory() {
    let cands = strings(&["/opt/tool", "tool"]);
    assert_eq!(probes(&cands, "/a:/b"), strings(&["/opt/tool", "/a/tool", "/b/tool"]));
    assert_eq!(which(&cands, "/a:/b", &vec![false, false, true]), Some("/b/tool".to_string()));
    assert_eq!(which(&cands, "/a:/b", &vec![true, true, true]), Some("/opt/tool".to_string()));
    assert_eq!(which(&cands, "/a:/b", &vec![false, false, false]), None);
}

#[test]
fn translation_steps_skip_missing_inputs_and_warn_once_without_the_tool() {
    assert!(translation_inputs(false, Some(strings(&["t/a_ru.ts"]))).is_none());
    assert!(translation_inputs(true, None).is_none());
    assert!(translation_inputs(true, Some(strings(&["t/readme.md"]))).is_none());
    let ts = translation_inputs(true, Some(strings(&["t/a_ru.ts", "t/x.md", "t/a_de.ts"]))).unwrap();
    assert_eq!(ts, strings(&["t/a_ru.ts", "t/a_de.ts"]));
    let steps = translation_steps(ts.clone(), Err("lrelease not found on PATH".to_string()));
    assert_eq!(steps.len(), 1);
    assert!(matches!(&steps[0], BuildStep::Warning(w)
        if w == "qax-build: lrelease not found on PATH; skipping .ts -> .qm (translations won't be built)"));
    let steps = translation_steps(ts, Ok("/bin/lrelease".to_string()));
    let shown: Vec<String> = steps
        .iter()
        .map(|s| match s {
            BuildStep::RerunIfChanged(p) => format!("rerun {p}"),
            BuildStep::CompileTs { tool, ts } => format!("{tool} {ts}"),
            _ => "other".to_string(),
        })
        .collect();
    assert_eq!(
        shown,
        strings(&["rerun t/a_ru.ts", "/bin/lrelease t/a_ru.ts", "rerun t/a_de.ts", "/bin/lrelease t/a_de.ts"])
    );
}

#[test]
fn resource_steps_warn_or_compile_into_the_out_dir() {
    let s = resource_steps("res/app.qrc", "/out", false, None);
    assert!(matches!(&s[..], [BuildStep::RerunIfChanged(p), BuildStep::Warning(w)]
        if p == "res/app.qrc" && w == "qax-build: resource res/app.qrc not found"));
    let s = resource_steps("res/app.qrc", "/out", true, Some(Err("rcc not found on PATH".to_string())));
    assert!(matches!(&s[..], [BuildStep::RerunIfChanged(_), BuildStep::Warning(w)]
        if w == "qax-build: rcc not found on PATH; skipping .qrc -> .rcc (res/app.qrc won't be embedded)"));
    let s = resource_steps("res/app.qrc", "/out", true, Some(Ok("/bin/rcc".to_string())));
    assert!(matches!(&s[..], [BuildStep::RerunIfChanged(_), BuildStep::CompileQrc { tool, input, output }]
        if tool == "/bin/rcc" && input == "res/app.qrc" && output == "/out/app.rcc"));
    assert_eq!(warning("boom"), "qax-build: boom");
}
