use launchedit::environment::Environment;
use launchedit::aliases::parse_alias_line;
use launchedit::mime::MimeCache;
use launchedit::packages::{choose_description, package_descriptions};
use launchedit::xml::{XmlAttribute, XmlNode};

fn strings(v: &[&str]) -> Vec<String> {
    v.iter().map(|s| s.to_string()).collect()
}

const MARKDOWN: &str = r#"<?xml version="1.0" encoding="UTF-8"?>
<mime-info xmlns="http://www.freedesktop.org/standards/shared-mime-info">
  <mime-type type="text/markdown">
    <comment xml:lang="fr">Texte</comment>
    <comment xml:lang="en">Markdown text</comment>
  </mime-type>
</mime-info>
"#;

const GENERIC: &str = r#"<?xml version="1.0" encoding="UTF-8"?>
<mime-info xmlns="http://www.freedesktop.org/standards/shared-mime-info">
  <mime-type type="text/markdown">
    <comment xml:lang="fr">Texte</comment>
    <comment xml:lang="en">Markdown text</comment>
    <comment>Generic text</comment>
  </mime-type>
</mime-info>
"#;

fn scanned(langs: &[&str], aliases: &[&str], packages: &[&str]) -> MimeCache {
    let mut cache = MimeCache::new();
    cache.scan(&strings(langs), &strings(aliases), &strings(packages));
    cache
}

#[test]
fn preferred_language_wins() {
    let cache = scanned(&["en", "fr"], &[], &[MARKDOWN]);
    assert_eq!(cache.lookup("text/markdown").map(|s| s.as_str()), Some("Markdown text"));
    let cache = scanned(&["fr", "en"], &[], &[MARKDOWN]);
    assert_eq!(cache.lookup("text/markdown").map(|s| s.as_str()), Some("Texte"));
}

#[test]
fn unlocalized_fallback() {
    let cache = scanned(&["de"], &[], &[GENERIC]);
    assert_eq!(cache.lookup("text/markdown").map(|s| s.as_str()), Some("Generic text"));
}

#[test]
fn no_matching_language_and_no_fallback() {
    let cache = scanned(&["de"], &[], &[MARKDOWN]);
    assert_eq!(cache.lookup("text/markdown"), None);
}

#[test]
fn alias_receives_description() {
    let cache = scanned(
        &["en", "fr"],
        &["# aliases\n\ntext/markdown text/x-markdown\n"],
        &[MARKDOWN],
    );
    assert_eq!(cache.lookup("text/x-markdown").map(|s| s.as_str()), Some("Markdown text"));
    assert_eq!(cache.lookup("text/markdown").map(|s| s.as_str()), Some("Markdown text"));
}

#[test]
fn alias_does_not_override_direct_description() {
    let direct = r#"<mime-info><mime-type type="text/x-markdown"><comment>Direct</comment></mime-type></mime-info>"#;
    let cache = scanned(&["en"], &["text/markdown text/x-markdown"], &[direct, MARKDOWN]);
    assert_eq!(cache.lookup("text/x-markdown").map(|s| s.as_str()), Some("Direct"));
}

#[test]
fn malformed_file_is_skipped() {
    let broken = "<mime-info><mime-type type=\"a/b\"><comment>Broken";
    let cache = scanned(&["en"], &[], &[broken, MARKDOWN]);
    assert_eq!(cache.lookup("text/markdown").map(|s| s.as_str()), Some("Markdown text"));
    assert_eq!(cache.lookup("a/b"), None);
}

#[test]
fn rescan_rebuilds() {
    let mut cache = MimeCache::new();
    cache.scan(&strings(&["en"]), &Vec::new(), &strings(&[MARKDOWN]));
    assert!(cache.lookup("text/markdown").is_some());
    let other = r#"<mime-info><mime-type type="image/png"><comment>PNG image</comment></mime-type></mime-info>"#;
    cache.scan(&strings(&["en"]), &Vec::new(), &strings(&[other]));
    assert_eq!(cache.lookup("text/markdown"), None);
    assert_eq!(cache.lookup("image/png").map(|s| s.as_str()), Some("PNG image"));
}

#[test]
fn first_file_wins_and_text_is_trimmed() {
    let a = r#"<mime-info><mime-type type="image/png"><comment>  First  </comment></mime-type></mime-info>"#;
    let b = r#"<mime-info><mime-type type="image/png"><comment>Second</comment></mime-type></mime-info>"#;
    let cache = scanned(&[], &[], &[a, b]);
    assert_eq!(cache.lookup("image/png").map(|s| s.as_str()), Some("First"));
}

#[test]
fn empty_comments_and_missing_type_are_ignored() {
    let x = r#"<mime-info>
        <mime-type><comment>No type</comment></mime-type>
        <mime-type type="a/empty"><comment>   </comment></mime-type>
        <mime-type type="a/last"><comment>One</comment><comment>Two</comment></mime-type>
    </mime-info>"#;
    let cache = scanned(&[], &[], &[x]);
    assert_eq!(cache.lookup("a/empty"), None);
    assert_eq!(cache.lookup("a/last").map(|s| s.as_str()), Some("Two"));
    assert_eq!(cache.lookup(""), None);
}

#[test]
fn equal_rank_keeps_first() {
    let x = r#"<mime-info><mime-type type="a/b"><comment xml:lang="en">One</comment><comment xml:lang="en">Two</comment></mime-type></mime-info>"#;
    let cache = scanned(&["en"], &[], &[x]);
    assert_eq!(cache.lookup("a/b").map(|s| s.as_str()), Some("One"));
}

#[test]
fn lookup_is_exact() {
    let cache = scanned(&["en"], &[], &[MARKDOWN]);
    assert_eq!(cache.lookup("Text/Markdown"), None);
    assert_eq!(cache.lookup("text/markdown "), None);
}

#[test]
fn alias_lines() {
    assert_eq!(
        parse_alias_line("  text/markdown \t text/x-markdown \r"),
        Some(("text/markdown".to_string(), "text/x-markdown".to_string()))
    );
    assert_eq!(parse_alias_line("# comment"), None);
    assert_eq!(parse_alias_line("   "), None);
    assert_eq!(parse_alias_line("single"), None);
}

#[test]
fn alias_table_later_line_wins() {
    let t = MimeCache::get_mime_aliases(&strings(&["a/b c/d\nx/y z/w\n", "a/b e/f"]));
    assert_eq!(t.get("a/b").map(|s| s.as_str()), Some("e/f"));
    assert_eq!(t.get("x/y").map(|s| s.as_str()), Some("z/w"));
    assert_eq!(t.get("c/d"), None);
}

#[test]
fn candidate_dirs() {
    assert_eq!(
        MimeCache::candidate_mime_dirs(false),
        strings(&["/usr/share/mime/packages", "/usr/local/share/mime/packages"])
    );
    assert_eq!(
        MimeCache::candidate_mime_dirs(true),
        strings(&[
            "/run/host/usr/share/mime/packages",
            "/run/host/share/mime/packages",
            "/usr/share/mime/packages",
        ])
    );
}

#[test]
fn alias_paths() {
    let mut env = Environment {
        languages: Vec::new(),
        sandboxed: false,
        data_home: None,
        home: None,
        data_dirs: None,
        runtime_dir: Some("/rt".to_string()),
    };
    assert_eq!(
        MimeCache::alias_file_paths(&env),
        strings(&["/usr/share/mime/aliases", "/usr/local/share/mime/aliases"])
    );
    env.sandboxed = true;
    assert_eq!(
        MimeCache::alias_file_paths(&env),
        strings(&[
            "/usr/share/mime/aliases",
            "/usr/local/share/mime/aliases",
            "/rt/mime/aliases",
            "/app/share/mime/aliases",
            "/usr/share/mime/aliases",
        ])
    );
}

fn element(name: &str, attrs: &[(Option<&str>, &str, &str)], text: Option<&str>, children: &[usize]) -> XmlNode {
    XmlNode {
        name: name.to_string(),
        attributes: attrs
            .iter()
            .map(|(ns, n, v)| XmlAttribute {
                namespace: ns.map(|s| s.to_string()),
                name: n.to_string(),
                value: v.to_string(),
            })
            .collect(),
        text: text.map(|s| s.to_string()),
        children: children.to_vec(),
    }
}

const XML_NS: &str = "http://www.w3.org/XML/1998/namespace";

#[test]
fn descriptions_from_nodes() {
    let nodes = vec![
        element("", &[], None, &[1]),
        element("mime-info", &[], None, &[2]),
        element("mime-type", &[(None, "type", "text/markdown")], None, &[3, 4, 9]),
        element("comment", &[(Some(XML_NS), "lang", "fr")], Some("Texte"), &[]),
        element("comment", &[(Some(XML_NS), "lang", "en")], Some(" Markdown text "), &[]),
    ];
    let got = package_descriptions(&nodes, &strings(&["en", "fr"]));
    assert_eq!(got, vec![("text/markdown".to_string(), "Markdown text".to_string())]);
    let got = choose_description(&nodes, &vec![3, 4], &strings(&["fr"]));
    assert_eq!(got.as_deref(), Some("Texte"));
    // a "lang" attribute outside the xml namespace is not a language, so
    // the comment counts as the unlocalized fallback
    let plain = vec![element("comment", &[(None, "lang", "de")], Some("Plain"), &[])];
    let got = choose_description(&plain, &vec![0], &strings(&["en"]));
    assert_eq!(got.as_deref(), Some("Plain"));
}

#[test]
fn table_rows_for_entry() {
    let cache = scanned(&["en"], &[], &[MARKDOWN]);
    let rows = cache.describe(&strings(&["text/markdown", "", "x/unknown"]));
    assert_eq!(rows.len(), 2);
    assert_eq!(rows[0].name, "text/markdown");
    assert_eq!(rows[0].description, "Markdown text");
    assert_eq!(rows[1].name, "x/unknown");
    assert_eq!(rows[1].description, "");
}
