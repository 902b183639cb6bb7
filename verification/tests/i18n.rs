use qax::i18n::extract::{extract_tr, DEFAULT_CONTEXT};
use qax::i18n::sorted::SortedMap;
use qax::i18n::ts::{
    between, escape_xml, merge_catalog, parse_ts, render_ts, scan_text, unescape_xml, xml_attr,
    Catalog, Found, Messages,
};

fn pairs(v: &[(&str, &str)]) -> Vec<(String, String)> {
    v.iter().map(|(a, b)| (a.to_string(), b.to_string())).collect()
}

fn catalog(entries: &[(&str, &[(&str, &str)])]) -> Catalog {
    let mut cat: Catalog = SortedMap::new();
    for (ctx, msgs) in entries {
        let mut m: Messages = SortedMap::new();
        for (s, t) in msgs.iter() {
            m.insert(s.to_string(), t.to_string());
        }
        cat.insert(ctx.to_string(), m);
    }
    cat
}

fn flatten(cat: &Catalog) -> Vec<(String, String, String)> {
    let mut out = Vec::new();
    for (ctx, msgs) in cat.entries() {
        for (s, t) in msgs.entries() {
            out.push((ctx.clone(), s.clone(), t.clone()));
        }
    }
    out
}

#[test]
fn extract_default_context_form() {
    assert_eq!(extract_tr(r#"let t = tr!("Now playing");"#), pairs(&[("default", "Now playing")]));
    assert_eq!(DEFAULT_CONTEXT, "default");
}

#[test]
fn extract_explicit_context_form() {
    assert_eq!(
        extract_tr(r#"tr!("Menu", "Open file…")"#),
        pairs(&[("Menu", "Open file…")])
    );
}

#[test]
fn extract_rejects_identifiers_ending_in_tr() {
    assert_eq!(extract_tr(r#"attr!("x"); str!("y"); my_tr!("z"); xtr!("w")"#), pairs(&[]));
    assert_eq!(extract_tr(r#"a(tr!("ok"))"#), pairs(&[("default", "ok")]));
}

#[test]
fn extract_raw_strings_and_escapes() {
    assert_eq!(
        extract_tr(r###"tr!(r#"a "quoted" b"#)"###),
        pairs(&[("default", "a \"quoted\" b")])
    );
    assert_eq!(extract_tr(r#"tr!(r"plain")"#), pairs(&[("default", "plain")]));
    assert_eq!(
        extract_tr(r#"tr!("line\nnext \"q\" \\ \t\0")"#),
        pairs(&[("default", "line\nnext \"q\" \\ \t\0")])
    );
    assert_eq!(extract_tr(r#"tr!("\x")"#), pairs(&[("default", "x")]));
}

#[test]
fn extract_whitespace_and_non_literals() {
    assert_eq!(extract_tr("tr! (\n  \"spaced\" \n)"), pairs(&[("default", "spaced")]));
    assert_eq!(extract_tr("tr!(name)"), pairs(&[]));
    assert_eq!(extract_tr(r#"tr!("a" + b)"#), pairs(&[]));
    assert_eq!(extract_tr(r#"tr!("ctx", name)"#), pairs(&[]));
    assert_eq!(extract_tr(r#"tr!("unterminated"#), pairs(&[]));
    assert_eq!(
        extract_tr(r#"tr!("−"); tr!("A", "…")"#),
        pairs(&[("default", "−"), ("A", "…")])
    );
}

#[test]
fn xml_escaping_exact() {
    assert_eq!(escape_xml("a<b>&c\"d"), "a&lt;b&gt;&amp;c\"d");
    assert_eq!(xml_attr("say \"<hi>\""), "say &quot;&lt;hi&gt;&quot;");
    assert_eq!(unescape_xml("&lt;&amp;lt;&quot;&gt;"), "<&lt;\">");
}

#[test]
fn unescape_undoes_escape() {
    for s in ["", "plain", "a<b>&c", "&amp;", "&lt;&gt;", "x & y < z > w"] {
        assert_eq!(unescape_xml(&escape_xml(s)), s);
    }
}

#[test]
fn between_takes_the_first_enclosed_text() {
    assert_eq!(between("<name>Menu</name>", "<name>", "</name>"), Some("Menu".to_string()));
    assert_eq!(between("a[b]c[d]", "[", "]"), Some("b".to_string()));
    assert_eq!(between("no open here", "<name>", "</name>"), None);
    assert_eq!(between("<name>open only", "<name>", "</name>"), None);
}

#[test]
fn render_ts_exact_document() {
    let cat = catalog(&[("Menu", &[("Open", "Открыть"), ("A<B", "")])]);
    let expected = [
        "<?xml version=\"1.0\" encoding=\"utf-8\"?>",
        "<!DOCTYPE TS>",
        "<TS version=\"2.1\" language=\"ru\">",
        "<context>",
        "    <name>Menu</name>",
        "    <message>",
        "        <source>A&lt;B</source>",
        "        <translation type=\"unfinished\"></translation>",
        "    </message>",
        "    <message>",
        "        <source>Open</source>",
        "        <translation>Открыть</translation>",
        "    </message>",
        "</context>",
        "</TS>",
        "",
    ]
    .join("\n");
    assert_eq!(render_ts("ru", &cat), expected);
}

#[test]
fn parse_ts_reads_what_render_ts_writes() {
    let cat = catalog(&[
        ("default", &[("Hello", "Привет"), ("Bye", "")]),
        ("Menu", &[("Open & close", "<o>")]),
    ]);
    let text = render_ts("de", &cat);
    assert_eq!(flatten(&parse_ts(&text)), flatten(&cat));
}

#[test]
fn parse_ts_without_context_uses_default() {
    let text = "<message>\n<source>Hi</source>\n<translation>Salut</translation>\n</message>\n";
    assert_eq!(
        flatten(&parse_ts(text)),
        vec![("default".to_string(), "Hi".to_string(), "Salut".to_string())]
    );
    assert_eq!(flatten(&parse_ts("<translation>orphan</translation>")), vec![]);
}

#[test]
fn merge_keeps_existing_translations() {
    let mut found: Found = SortedMap::new();
    scan_text(&mut found, r#"tr!("Hello"); tr!("World"); tr!("Menu", "Open")"#);
    let existing = render_ts("ru", &catalog(&[("default", &[("Hello", "Привет"), ("Gone", "x")])]));
    let merged = merge_catalog(&found, Some(&existing));
    assert_eq!(
        flatten(&merged),
        vec![
            ("Menu".to_string(), "Open".to_string(), "".to_string()),
            ("default".to_string(), "Hello".to_string(), "Привет".to_string()),
            ("default".to_string(), "World".to_string(), "".to_string()),
        ]
    );
    let fresh = merge_catalog(&found, None);
    assert_eq!(fresh.len(), 2);
}

#[test]
fn scan_text_dedups_in_first_seen_order() {
    let mut found: Found = SortedMap::new();
    scan_text(&mut found, r#"tr!("b"); tr!("a"); tr!("b")"#);
    scan_text(&mut found, r#"tr!("c"); tr!("a")"#);
    assert_eq!(
        found.get("default").cloned(),
        Some(vec!["b".to_string(), "a".to_string(), "c".to_string()])
    );
}

#[test]
fn merge_keeps_translations_of_contexts_with_markup_in_their_names() {
    let mut found: Found = SortedMap::new();
    scan_text(&mut found, r#"tr!("A&B", "Hi"); tr!("<x>", "Yo")"#);
    let existing = render_ts("ru", &catalog(&[("A&B", &[("Hi", "Privet")]), ("<x>", &[("Yo", "Ey")])]));
    assert!(existing.contains("<name>A&amp;B</name>"));
    let merged = merge_catalog(&found, Some(&existing));
    assert_eq!(
        flatten(&merged),
        vec![
            ("<x>".to_string(), "Yo".to_string(), "Ey".to_string()),
            ("A&B".to_string(), "Hi".to_string(), "Privet".to_string()),
        ]
    );
    let text = "<context>\n<name>A&amp;B</name>\n<message>\n<source>Hi</source>\n<translation>Privet</translation>\n</message>\n</context>\n";
    assert_eq!(
        flatten(&parse_ts(text)),
        vec![("A&B".to_string(), "Hi".to_string(), "Privet".to_string())]
    );
}
