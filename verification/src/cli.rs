//! The decisions of the `cargo qax` command line: which subcommand runs, what
//! its arguments mean, the package name read from a manifest, and where the
//! catalogues and bundles it writes go.

use vstd::prelude::*;
use crate::text::{texts, str_eq, chars_of, string_of_range, find_exec, find_from, occurs_at,
    occurs_at_exec, lemma_find_from_bounds};
use crate::i18n::xml::{trim_spec, trim_range};
use crate::i18n::ts::{lemma_find_skip, copy_chars};
use crate::qt_build::tools::{split_on, split_text};
use crate::qt_build::paths::{path_join, path_with_extension, join_path, with_extension};

verus! {

// ---------------------------------------------------------------------------
// Subcommands
// ---------------------------------------------------------------------------

/// The subcommand a command line asks for, with its own arguments.
pub enum Command {
    I18n(Vec<String>),
    Qrc(Vec<String>),
    Help,
    Unknown(String),
}

/// What [`Command`] holds, as characters.
pub enum CommandView {
    I18n(Seq<Seq<char>>),
    Qrc(Seq<Seq<char>>),
    Help,
    Unknown(Seq<char>),
}

pub open spec fn command_view(c: Command) -> CommandView {
    match c {
        Command::I18n(a) => CommandView::I18n(texts(a@)),
        Command::Qrc(a) => CommandView::Qrc(texts(a@)),
        Command::Help => CommandView::Help,
        Command::Unknown(s) => CommandView::Unknown(s@),
    }
}

/// The subcommand of `args` (the arguments after the program name; a
/// leading `qax`, which cargo inserts, is dropped): `i18n` and `qrc` with the
/// arguments after them, help for `-h`, `--help` or nothing, and anything
/// else unknown.
pub open spec fn command_spec(args: Seq<Seq<char>>) -> CommandView {
    let a = if args.len() > 0 && args[0] == "qax"@ {
        args.drop_first()
    } else {
        args
    };
    if a.len() == 0 {
        CommandView::Help
    } else if a[0] == "i18n"@ {
        CommandView::I18n(a.drop_first())
    } else if a[0] == "qrc"@ {
        CommandView::Qrc(a.drop_first())
    } else if a[0] == "-h"@ || a[0] == "--help"@ {
        CommandView::Help
    } else {
        CommandView::Unknown(a[0])
    }
}

/// `v` without its first element.
fn drop_first_string(v: Vec<String>) -> (r: Vec<String>)
    requires
        v@.len() > 0,
    ensures
        r@ == v@.drop_first(),
{
    let mut v = v;
    let ghost all = v@;
    v.remove(0);
    assert(v@ =~= all.drop_first());
    v
}

/// Reads the subcommand off the command line.
pub fn parse_command(args: Vec<String>) -> (c: Command)
    ensures
        command_view(c) == command_spec(texts(args@)),
{
    let ghost all = texts(args@);
    let a = if args.len() > 0 && str_eq(args[0].as_str(), "qax") {
        let r = drop_first_string(args);
        assert(texts(r@) =~= all.drop_first());
        r
    } else {
        args
    };
    if a.len() == 0 {
        return Command::Help;
    }
    let first = a[0].clone();
    assert(texts(a@)[0] == first@);
    if str_eq(first.as_str(), "i18n") {
        let rest = drop_first_string(a);
        assert(texts(rest@) =~= texts(a@).drop_first());
        Command::I18n(rest)
    } else if str_eq(first.as_str(), "qrc") {
        let rest = drop_first_string(a);
        assert(texts(rest@) =~= texts(a@).drop_first());
        Command::Qrc(rest)
    } else if str_eq(first.as_str(), "-h") || str_eq(first.as_str(), "--help") {
        Command::Help
    } else {
        Command::Unknown(first)
    }
}

// ---------------------------------------------------------------------------
// Arguments
// ---------------------------------------------------------------------------

/// A refused command line.
pub enum ArgError {
    /// A flag came last, without its value.
    MissingValue(String),
    /// An argument the subcommand does not take.
    Unexpected(String),
    /// `qrc` was given no input file.
    MissingInput,
}

pub enum ArgFault {
    MissingValue(Seq<char>),
    Unexpected(Seq<char>),
    MissingInput,
}

pub open spec fn fault_of(e: ArgError) -> ArgFault {
    match e {
        ArgError::MissingValue(f) => ArgFault::MissingValue(f@),
        ArgError::Unexpected(a) => ArgFault::Unexpected(a@),
        ArgError::MissingInput => ArgFault::MissingInput,
    }
}

/// The options of `cargo qax i18n`.
pub struct I18nOptions {
    /// The directory scanned for sources.
    pub src: String,
    /// The directory the catalogues are written to.
    pub out: String,
    /// The languages, one catalogue each.
    pub langs: Vec<String>,
}

/// `(src, out, langs)` as characters.
pub type I18nView = (Seq<char>, Seq<char>, Seq<Seq<char>>);

/// The languages a `--lang` value names: the comma-separated entries,
/// trimmed, empty ones left out.
pub open spec fn langs_spec(s: Seq<char>) -> Seq<Seq<char>> {
    split_on(s, ',').map_values(|x: Seq<char>| trim_spec(x)).filter(|x: Seq<char>| x.len() > 0)
}

/// The defaults: sources in `src`, catalogues in `translations`, Russian.
pub open spec fn i18n_defaults() -> I18nView {
    ("src"@, "translations"@, seq!["ru"@])
}

/// The options `args[i..]` leave after `st`: `--src`, `--out` and `--lang`
/// each take the next argument as value (a later one wins); anything else
/// is refused.
pub open spec fn i18n_scan(args: Seq<Seq<char>>, i: int, st: I18nView) -> Result<I18nView, ArgFault>
    decreases args.len() - i,
{
    if i < 0 || i >= args.len() {
        Ok(st)
    } else if args[i] == "--src"@ || args[i] == "--out"@ || args[i] == "--lang"@ {
        if i + 1 >= args.len() {
            Err(ArgFault::MissingValue(args[i]))
        } else {
            let v = args[i + 1];
            let next = if args[i] == "--src"@ {
                (v, st.1, st.2)
            } else if args[i] == "--out"@ {
                (st.0, v, st.2)
            } else {
                (st.0, st.1, langs_spec(v))
            };
            i18n_scan(args, i + 2, next)
        }
    } else {
        Err(ArgFault::Unexpected(args[i]))
    }
}

/// The trimmed text of `s`.
fn trim_text(s: &str) -> (r: String)
    ensures
        r@ == trim_spec(s@),
{
    let cs = chars_of(s);
    let n = cs.len();
    let (a, b) = trim_range(&cs, 0, n);
    assert(cs@.subrange(0, n as int) == cs@);
    string_of_range(&cs, a, b)
}

/// The languages a `--lang` value names.
pub fn split_langs(s: &str) -> (r: Vec<String>)
    ensures
        texts(r@) == langs_spec(s@),
{
    let parts = split_text(s, ',');
    let ghost trimmed = texts(parts@).map_values(|x: Seq<char>| trim_spec(x));
    let mut r: Vec<String> = Vec::new();
    let n = parts.len();
    let mut i: usize = 0;
    while i < n
        invariant
            n == parts@.len(),
            i <= n,
            trimmed == texts(parts@).map_values(|x: Seq<char>| trim_spec(x)),
            texts(r@) == trimmed.take(i as int).filter(|x: Seq<char>| x.len() > 0),
        decreases n - i,
    {
        let t = trim_text(parts[i].as_str());
        assert(trimmed[i as int] == t@);
        assert(trimmed.take(i + 1).drop_last() =~= trimmed.take(i as int));
        proof {
            reveal(Seq::filter);
        }
        let ghost rb = r@;
        if !t.as_str().is_empty() {
            r.push(t);
            assert(texts(r@) =~= texts(rb).push(trimmed[i as int]));
        }
        i = i + 1;
    }
    assert(trimmed.take(n as int) =~= trimmed);
    r
}

/// Reads the options of `cargo qax i18n`.
pub fn parse_i18n_args(args: &Vec<String>) -> (r: Result<I18nOptions, ArgError>)
    ensures
        r matches Ok(o) ==> i18n_scan(texts(args@), 0, i18n_defaults()) == Ok::<
            I18nView,
            ArgFault,
        >((o.src@, o.out@, texts(o.langs@))),
        r matches Err(e) ==> i18n_scan(texts(args@), 0, i18n_defaults()) == Err::<
            I18nView,
            ArgFault,
        >(fault_of(e)),
{
    let ghost a = texts(args@);
    let mut src = "src".to_owned();
    let mut out = "translations".to_owned();
    let mut langs: Vec<String> = Vec::new();
    langs.push("ru".to_owned());
    assert(texts(langs@) =~= seq!["ru"@]);
    let n = args.len();
    let mut i: usize = 0;
    while i < n
        invariant
            n == args@.len(),
            a == texts(args@),
            i18n_scan(a, 0, i18n_defaults()) == i18n_scan(a, i as int, (src@, out@, texts(langs@))),
        decreases n - i,
    {
        let arg = &args[i];
        assert(a[i as int] == arg@);
        let is_src = str_eq(arg.as_str(), "--src");
        let is_out = str_eq(arg.as_str(), "--out");
        let is_lang = str_eq(arg.as_str(), "--lang");
        if is_src || is_out || is_lang {
            if i + 1 >= n {
                return Err(ArgError::MissingValue(arg.clone()));
            }
            let v = &args[i + 1];
            assert(a[i + 1] == v@);
            if is_src {
                src = v.clone();
            } else if is_out {
                out = v.clone();
            } else {
                langs = split_langs(v.as_str());
            }
            i = i + 2;
        } else {
            return Err(ArgError::Unexpected(arg.clone()));
        }
    }
    Ok(I18nOptions { src, out, langs })
}

/// The options of `cargo qax qrc`.
pub struct QrcOptions {
    pub input: String,
    /// Where the bundle goes; by default the input with extension `rcc`.
    pub output: String,
}

/// The input and output `args[i..]` leave after `(input, output)`: `-o` and
/// `--output` take the next argument as the output, an argument not starting
/// with `-` is the input (a later one wins), anything else is refused.
pub open spec fn qrc_scan(
    args: Seq<Seq<char>>,
    i: int,
    input: Option<Seq<char>>,
    output: Option<Seq<char>>,
) -> Result<(Option<Seq<char>>, Option<Seq<char>>), ArgFault>
    decreases args.len() - i,
{
    if i < 0 || i >= args.len() {
        Ok((input, output))
    } else if args[i] == "-o"@ || args[i] == "--output"@ {
        if i + 1 >= args.len() {
            Err(ArgFault::MissingValue("-o"@))
        } else {
            qrc_scan(args, i + 2, input, Some(args[i + 1]))
        }
    } else if !(args[i].len() > 0 && args[i][0] == '-') {
        qrc_scan(args, i + 1, Some(args[i]), output)
    } else {
        Err(ArgFault::Unexpected(args[i]))
    }
}

/// The options of `cargo qax qrc`: the input is required.
pub open spec fn qrc_spec(args: Seq<Seq<char>>) -> Result<(Seq<char>, Seq<char>), ArgFault> {
    match qrc_scan(args, 0, None, None) {
        Err(e) => Err(e),
        Ok((None, _)) => Err(ArgFault::MissingInput),
        Ok((Some(inp), out)) => Ok(
            (
                inp,
                match out {
                    Some(o) => o,
                    None => path_with_extension(inp, "rcc"@),
                },
            ),
        ),
    }
}

pub open spec fn opt_chars(o: Option<String>) -> Option<Seq<char>> {
    match o {
        Some(s) => Some(s@),
        None => None,
    }
}

/// Reads the options of `cargo qax qrc`.
pub fn parse_qrc_args(args: &Vec<String>) -> (r: Result<QrcOptions, ArgError>)
    ensures
        r matches Ok(o) ==> qrc_spec(texts(args@)) == Ok::<(Seq<char>, Seq<char>), ArgFault>(
            (o.input@, o.output@),
        ),
        r matches Err(e) ==> qrc_spec(texts(args@)) == Err::<(Seq<char>, Seq<char>), ArgFault>(
            fault_of(e),
        ),
{
    let ghost a = texts(args@);
    let mut input: Option<String> = None;
    let mut output: Option<String> = None;
    let n = args.len();
    let mut i: usize = 0;
    while i < n
        invariant
            n == args@.len(),
            a == texts(args@),
            qrc_scan(a, 0, None, None) == qrc_scan(a, i as int, opt_chars(input), opt_chars(output)),
        decreases n - i,
    {
        let arg = &args[i];
        assert(a[i as int] == arg@);
        if str_eq(arg.as_str(), "-o") || str_eq(arg.as_str(), "--output") {
            if i + 1 >= n {
                proof {
                    reveal_strlit("-o");
                }
                return Err(ArgError::MissingValue("-o".to_owned()));
            }
            assert(a[i + 1] == args@[i + 1]@);
            output = Some(args[i + 1].clone());
            i = i + 2;
        } else {
            let cs = chars_of(arg.as_str());
            if !(cs.len() > 0 && cs[0] == '-') {
                input = Some(arg.clone());
                i = i + 1;
            } else {
                return Err(ArgError::Unexpected(arg.clone()));
            }
        }
    }
    match input {
        None => Err(ArgError::MissingInput),
        Some(inp) => {
            let out = match output {
                Some(o) => o,
                None => {
                    proof {
                        reveal_strlit("rcc");
                        assert(!"rcc"@.contains('/'));
                    }
                    with_extension(inp.as_str(), "rcc")
                },
            };
            Ok(QrcOptions { input: inp, output: out })
        },
    }
}

// ---------------------------------------------------------------------------
// Outputs
// ---------------------------------------------------------------------------

/// The catalogue for `lang` in `out`: `<crate>_<lang>.ts`.
pub open spec fn catalog_path_spec(out: Seq<char>, crate_name: Seq<char>, lang: Seq<char>) -> Seq<
    char,
> {
    path_join(out, crate_name + "_"@ + lang + ".ts"@)
}

pub fn catalog_path(out: &str, crate_name: &str, lang: &str) -> (p: String)
    ensures
        p@ == catalog_path_spec(out@, crate_name@, lang@),
{
    let mut f = crate_name.to_owned();
    f.append("_");
    f.append(lang);
    f.append(".ts");
    join_path(out, f.as_str())
}

// ---------------------------------------------------------------------------
// The package name in a manifest
// ---------------------------------------------------------------------------

/// `s` without leading spaces and `=` signs.
pub open spec fn skip_assign(s: Seq<char>) -> Seq<char>
    decreases s.len(),
{
    if s.len() > 0 && (s[0] == ' ' || s[0] == '=') {
        skip_assign(s.drop_first())
    } else {
        s
    }
}

/// `s` without leading double quotes.
pub open spec fn skip_quotes(s: Seq<char>) -> Seq<char>
    decreases s.len(),
{
    if s.len() > 0 && s[0] == '"' {
        skip_quotes(s.drop_first())
    } else {
        s
    }
}

/// `s` without trailing double quotes.
pub open spec fn drop_quotes(s: Seq<char>) -> Seq<char>
    decreases s.len(),
{
    if s.len() > 0 && s.last() == '"' {
        drop_quotes(s.drop_last())
    } else {
        s
    }
}

/// The value after `name` on a manifest line: past the spaces and `=` signs,
/// trimmed, without surrounding double quotes.
pub open spec fn name_value(rest: Seq<char>) -> Seq<char> {
    drop_quotes(skip_quotes(trim_spec(skip_assign(rest))))
}

/// The effect of one trimmed manifest line: whether the following lines are
/// in the `[package]` table, and the name it gives, if it is a `name` line
/// of that table.
pub open spec fn manifest_line(line: Seq<char>, in_package: bool) -> (bool, Option<Seq<char>>) {
    if line.len() > 0 && line[0] == '[' {
        (line == "[package]"@, None)
    } else if in_package && occurs_at(line, "name"@, 0) {
        (in_package, Some(name_value(line.skip(4))))
    } else {
        (in_package, None)
    }
}

/// The package name of the first `name` line of the `[package]` table among
/// the lines of `t`.
pub open spec fn manifest_name(t: Seq<char>, in_package: bool) -> Option<Seq<char>>
    decreases t.len(),
{
    match find_from(t, seq!['\n'], 0) {
        Some(e) => {
            proof {
                lemma_find_from_bounds(t, seq!['\n'], 0);
            }
            let (p, found) = manifest_line(trim_spec(t.take(e)), in_package);
            if found is Some {
                found
            } else {
                manifest_name(t.skip(e + 1), p)
            }
        },
        None => manifest_line(trim_spec(t), in_package).1,
    }
}

fn skip_assign_exec(s: &Vec<char>, from: usize) -> (i: usize)
    requires
        from <= s@.len(),
    ensures
        from <= i <= s@.len(),
        s@.skip(i as int) == skip_assign(s@.skip(from as int)),
{
    let mut i = from;
    while i < s.len() && (s[i] == ' ' || s[i] == '=')
        invariant
            from <= i <= s@.len(),
            skip_assign(s@.skip(from as int)) == skip_assign(s@.skip(i as int)),
        decreases s@.len() - i,
    {
        assert(s@.skip(i as int).drop_first() == s@.skip(i + 1));
        i = i + 1;
    }
    i
}

fn strip_quotes(s: &Vec<char>) -> (r: (usize, usize))
    ensures
        r.0 <= r.1 <= s@.len(),
        s@.subrange(r.0 as int, r.1 as int) == drop_quotes(skip_quotes(s@)),
{
    let mut a: usize = 0;
    assert(s@.skip(0) == s@);
    while a < s.len() && s[a] == '"'
        invariant
            a <= s@.len(),
            skip_quotes(s@) == skip_quotes(s@.skip(a as int)),
        decreases s@.len() - a,
    {
        assert(s@.skip(a as int).drop_first() == s@.skip(a + 1));
        a = a + 1;
    }
    assert(s@.skip(a as int) == s@.subrange(a as int, s@.len() as int));
    let mut b = s.len();
    while b > a && s[b - 1] == '"'
        invariant
            a <= b <= s@.len(),
            drop_quotes(skip_quotes(s@)) == drop_quotes(s@.subrange(a as int, b as int)),
        decreases b - a,
    {
        assert(s@.subrange(a as int, b as int).drop_last() == s@.subrange(a as int, b - 1));
        b = b - 1;
    }
    (a, b)
}

/// The package name a manifest (`Cargo.toml`) declares: the first `name` line
/// of its `[package]` table.
pub fn crate_name(manifest: &str) -> (r: Option<String>)
    ensures
        r matches Some(s) ==> manifest_name(manifest@, false) == Some(s@),
        r is None ==> manifest_name(manifest@, false) is None,
{
    let t = chars_of(manifest);
    let nl = vec!['\n'];
    let package: Vec<char> = vec!['[', 'p', 'a', 'c', 'k', 'a', 'g', 'e', ']'];
    let name: Vec<char> = vec!['n', 'a', 'm', 'e'];
    proof {
        reveal_strlit("[package]");
        reveal_strlit("name");
        assert(package@ == "[package]"@);
        assert(name@ == "name"@);
        assert(t@.skip(0) == t@);
    }
    let mut in_package = false;
    let mut i: usize = 0;
    let _n = t.len();
    loop
        invariant
            t@ == manifest@,
            nl@ == seq!['\n'],
            package@ == "[package]"@,
            name@ == "name"@,
            name@.len() == 4,
            t@.len() <= usize::MAX,
            i <= t@.len(),
            manifest_name(t@, false) == manifest_name(t@.skip(i as int), in_package),
        decreases t@.len() - i,
    {
        let found_nl = find_exec(&t, &nl, i);
        proof {
            lemma_find_skip(t@, seq!['\n'], i as int, 0);
            lemma_find_from_bounds(t@, seq!['\n'], i as int);
        }
        let e = match found_nl {
            Some(p) => p,
            None => t.len(),
        };
        let (a, b) = trim_range(&t, i, e);
        let line = copy_chars(&t, a, b);
        proof {
            assert(t@.skip(i as int).take(e - i) == t@.subrange(i as int, e as int));
            if found_nl is None {
                assert(t@.skip(i as int) == t@.subrange(i as int, e as int));
            }
        }
        let ghost step = manifest_line(line@, in_package);
        let mut found: Option<String> = None;
        if line.len() > 0 && line[0] == '[' {
            let same = line.len() == package.len() && occurs_at_exec(&line, &package, 0);
            proof {
                if same {
                    assert(line@.subrange(0, package@.len() as int) == line@);
                }
                if line@ == package@ {
                    assert(line@.subrange(0, package@.len() as int) == line@);
                }
            }
            in_package = same;
        } else if in_package && occurs_at_exec(&line, &name, 0) {
            let k = skip_assign_exec(&line, 4);
            let n = line.len();
            let (c, d) = trim_range(&line, k, n);
            let v = copy_chars(&line, c, d);
            proof {
                assert(line@.skip(k as int) == line@.subrange(k as int, n as int));
            }
            let (x, y) = strip_quotes(&v);
            found = Some(string_of_range(&v, x, y));
        }
        match found {
            Some(s) => {
                return Some(s);
            },
            None => {},
        }
        match found_nl {
            Some(p) => {
                assert(t@.skip(i as int).skip(p - i + 1) == t@.skip(p + 1));
                i = p + 1;
            },
            None => {
                return None;
            },
        }
    }
}

} // verus!
