use launchedit::desktop::{
    exec_command, join_list, prepend_mime_type, quote_path, suggested_file_name, DesktopEntryType,
    DesktopKey, Editing, PickKind,
};
use launchedit::paths::{file_name_of, join_path, split_extension};
use launchedit::table::{compare_text, MimeCategory, MimeItem};
use launchedit::text::{split, trim};
use std::cmp::Ordering;

#[test]
fn entry_type_names() {
    assert_eq!(DesktopEntryType::Application.as_str(), "Application");
    assert_eq!(DesktopEntryType::parse("Link"), Some(DesktopEntryType::Link));
    assert_eq!(DesktopEntryType::parse("Directory"), Some(DesktopEntryType::Directory));
    assert_eq!(DesktopEntryType::parse("link"), None);
    assert_eq!(DesktopEntryType::default(), DesktopEntryType::Application);
    assert_eq!("Directory".parse::<DesktopEntryType>(), Ok(DesktopEntryType::Directory));
    assert!("Dir".parse::<DesktopEntryType>().is_err());
}

#[test]
fn key_names() {
    assert_eq!(DesktopKey::Url.key_str(), "URL");
    assert_eq!(DesktopKey::StartupWMClass.key_str(), "StartupWMClass");
    assert_eq!(DesktopKey::Unknown("X-Custom".to_string()).key_str(), "X-Custom");
}

#[test]
fn pick_titles_and_keys() {
    assert_eq!(PickKind::DesktopFile.title(), "select-desktop");
    assert_eq!(PickKind::TryExecutable.title(), "select-executable");
    assert_eq!(PickKind::IconFile.title(), "select-icon");
    assert_eq!(PickKind::TryExecutable.exec_key().key_str(), "TryExec");
    assert_eq!(PickKind::Executable.exec_key().key_str(), "Exec");
}

#[test]
fn command_values() {
    assert_eq!(quote_path("/opt/my app/run"), "\"/opt/my app/run\"");
    assert_eq!(quote_path("/usr/bin/run"), "/usr/bin/run");
    assert_eq!(exec_command("/opt/my app/run", Some("%U")), "\"/opt/my app/run\" %U");
    assert_eq!(exec_command("/usr/bin/run", Some("")), "/usr/bin/run");
    assert_eq!(exec_command("/usr/bin/run", None), "/usr/bin/run");
    let items = vec!["text/plain".to_string(), "text/markdown".to_string()];
    assert_eq!(join_list(&items), "text/plain;text/markdown");
    assert_eq!(join_list(&Vec::new()), "");
}

#[test]
fn path_pieces() {
    assert_eq!(join_path("/usr/share", "icons"), "/usr/share/icons");
    assert_eq!(join_path("/usr/share/", "icons"), "/usr/share/icons");
    assert_eq!(join_path("", "icons"), "icons");
    assert_eq!(file_name_of("/a/b/c.tar.gz"), "c.tar.gz");
    assert_eq!(split_extension("c.tar.gz"), ("c.tar".to_string(), Some("gz".to_string())));
    assert_eq!(split_extension(".bashrc"), (".bashrc".to_string(), None));
    assert_eq!(split_extension(".."), ("..".to_string(), None));
    assert_eq!(split_extension("a."), ("a".to_string(), Some(String::new())));
}

#[test]
fn text_pieces() {
    assert_eq!(trim("\u{3000} a b \t\n"), "a b");
    assert_eq!(trim("   "), "");
    assert_eq!(split("a::b", ':'), vec!["a".to_string(), String::new(), "b".to_string()]);
    assert_eq!(split("", ':'), vec![String::new()]);
}

#[test]
fn table_rows() {
    let a = MimeItem { name: "Text/Plain".to_string(), description: "b".to_string() };
    let b = MimeItem { name: "text/markdown".to_string(), description: "A".to_string() };
    assert_eq!(a.get_text(MimeCategory::Name), "Text/Plain");
    assert_eq!(a.get_text(MimeCategory::Description), "b");
    // case is ignored: "text/plain" > "text/markdown", "b" > "a"
    assert_eq!(a.compare(&b, MimeCategory::Name), Ordering::Greater);
    assert_eq!(a.compare(&b, MimeCategory::Description), Ordering::Greater);
    assert_eq!(compare_text("B", "a"), Ordering::Less);
    assert_eq!(compare_text("ab", "ab"), Ordering::Equal);
    assert_eq!(compare_text("a", "ab"), Ordering::Less);
    assert_eq!(MimeCategory::Description.name(), "Description");
    assert_eq!(MimeCategory::default(), MimeCategory::Name);
}

#[test]
fn toggle_flips_one_field() {
    let mut e = Editing::default();
    e.toggle(&DesktopKey::Exec);
    assert!(e.exec_line);
    assert!(!e.name && !e.try_exec && !e.url);
    e.toggle(&DesktopKey::Url);
    e.toggle(&DesktopKey::Exec);
    assert!(!e.exec_line);
    assert!(e.url);
    e.toggle(&DesktopKey::StartupWMClass);
    assert!(e.startupwmclass);
}

#[test]
fn suggested_names() {
    assert_eq!(
        suggested_file_name(Some("My Cool App"), "application", DesktopEntryType::Application),
        "my-cool-app.desktop"
    );
    assert_eq!(
        suggested_file_name(Some("Games"), "directory", DesktopEntryType::Directory),
        "games.directory"
    );
    assert_eq!(
        suggested_file_name(None, "link", DesktopEntryType::Link),
        "link.desktop"
    );
}

#[test]
fn prepend_drops_empty_entries() {
    let existing = vec!["text/plain".to_string(), String::new(), "image/png".to_string()];
    assert_eq!(
        prepend_mime_type("text/markdown", &existing),
        vec!["text/markdown".to_string(), "text/plain".to_string(), "image/png".to_string()]
    );
    assert_eq!(prepend_mime_type("a/b", &Vec::new()), vec!["a/b".to_string()]);
}
