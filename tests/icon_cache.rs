use launchedit::environment::Environment;
use launchedit::icons::IconCache;

fn strings(v: &[&str]) -> Vec<String> {
    v.iter().map(|s| s.to_string()).collect()
}

fn env() -> Environment {
    Environment {
        languages: Vec::new(),
        sandboxed: false,
        data_home: None,
        home: None,
        data_dirs: None,
        runtime_dir: None,
    }
}

#[test]
fn icon_found_by_file_name_and_stem() {
    let mut cache = IconCache::new();
    let files = strings(&["/icons/cosmic/scalable/apps/foo.svg"]);
    cache.scan(&files);
    assert_eq!(
        cache.lookup("foo.svg").map(|s| s.as_str()),
        Some("/icons/cosmic/scalable/apps/foo.svg")
    );
    assert_eq!(
        cache.lookup("foo").map(|s| s.as_str()),
        Some("/icons/cosmic/scalable/apps/foo.svg")
    );
    assert_eq!(cache.lookup("bar"), None);
}

#[test]
fn first_scanned_base_wins() {
    let mut cache = IconCache::new();
    let files = strings(&[
        "/base1/hicolor/48x48/apps/foo.png",
        "/base2/hicolor/48x48/apps/foo.png",
    ]);
    cache.scan(&files);
    assert_eq!(
        cache.lookup("foo.png").map(|s| s.as_str()),
        Some("/base1/hicolor/48x48/apps/foo.png")
    );
    assert_eq!(
        cache.lookup("foo").map(|s| s.as_str()),
        Some("/base1/hicolor/48x48/apps/foo.png")
    );
}

#[test]
fn other_extensions_are_not_indexed() {
    let mut cache = IconCache::new();
    let files = strings(&[
        "/icons/hicolor/scalable/apps/readme.txt",
        "/icons/hicolor/scalable/apps/noext",
        "/icons/hicolor/scalable/apps/.hidden",
        "/icons/hicolor/scalable/apps/image.PNG",
    ]);
    cache.scan(&files);
    assert_eq!(cache.lookup("readme.txt"), None);
    assert_eq!(cache.lookup("readme"), None);
    assert_eq!(cache.lookup("noext"), None);
    assert_eq!(cache.lookup(".hidden"), None);
    assert_eq!(cache.lookup("image"), None);
}

#[test]
fn every_allowed_extension_is_indexed() {
    let mut cache = IconCache::new();
    let files = strings(&[
        "/p/a.png", "/p/b.svg", "/p/c.xpm", "/p/d.ico", "/p/e.jpg", "/p/f.jpeg",
    ]);
    cache.scan(&files);
    for (name, path) in [("a", "/p/a.png"), ("b", "/p/b.svg"), ("c", "/p/c.xpm"),
        ("d", "/p/d.ico"), ("e", "/p/e.jpg"), ("f", "/p/f.jpeg")] {
        assert_eq!(cache.lookup(name).map(|s| s.as_str()), Some(path));
    }
}

#[test]
fn exact_name_wins_over_stem() {
    let mut cache = IconCache::new();
    let files = strings(&["/p/foo.png.svg", "/p/foo.png"]);
    cache.scan(&files);
    // "foo.png" is the stem of the first file and the full name of the second.
    assert_eq!(cache.lookup("foo.png").map(|s| s.as_str()), Some("/p/foo.png"));
    assert_eq!(cache.lookup("foo").map(|s| s.as_str()), Some("/p/foo.png"));
}

#[test]
fn rescan_drops_old_entries() {
    let mut cache = IconCache::new();
    cache.scan(&strings(&["/p/old.png"]));
    assert!(cache.lookup("old").is_some());
    cache.scan(&strings(&["/p/new.svg"]));
    assert_eq!(cache.lookup("old"), None);
    assert_eq!(cache.lookup("old.png"), None);
    assert_eq!(cache.lookup("new").map(|s| s.as_str()), Some("/p/new.svg"));
}

#[test]
fn empty_scan_finds_nothing() {
    let mut cache = IconCache::new();
    cache.scan(&Vec::new());
    assert_eq!(cache.lookup(""), None);
    assert_eq!(cache.lookup("foo"), None);
}

#[test]
fn search_dirs_default() {
    let dirs = IconCache::icon_search_dirs(&env());
    assert_eq!(
        dirs,
        strings(&["/usr/local/share/icons", "/usr/share/icons", "/usr/share/pixmaps"])
    );
}

#[test]
fn search_dirs_from_environment() {
    let mut e = env();
    e.home = Some("/home/u".to_string());
    e.data_dirs = Some("/a:/b/".to_string());
    e.sandboxed = true;
    let dirs = IconCache::icon_search_dirs(&e);
    assert_eq!(
        dirs,
        strings(&[
            "/home/u/.local/share/icons",
            "/a/icons",
            "/b/icons",
            "/run/host/usr/share/icons",
            "/run/host/share/icons",
            "/usr/share/pixmaps",
        ])
    );
    e.data_home = Some("/data".to_string());
    let dirs = IconCache::icon_search_dirs(&e);
    assert_eq!(dirs[0], "/data/icons");
}

#[test]
fn base_roots_cover_themes_sizes_contexts() {
    let roots = IconCache::base_roots("/usr/share/icons");
    assert_eq!(roots.len(), 109);
    assert_eq!(roots[0], "/usr/share/icons/cosmic/scalable/apps");
    assert_eq!(roots[1], "/usr/share/icons/cosmic/scalable/places");
    assert_eq!(roots[4], "/usr/share/icons/cosmic/512x512/apps");
    assert_eq!(roots[36], "/usr/share/icons/Adwaita/scalable/apps");
    assert_eq!(roots[107], "/usr/share/icons/hicolor/16x16/actions");
    assert_eq!(roots[108], "/usr/share/icons/pixmaps");
}

#[test]
fn icon_file_predicate() {
    assert!(IconCache::is_icon_file("/x/y.jpeg"));
    assert!(!IconCache::is_icon_file("/x/y.jpeg/z"));
    assert!(!IconCache::is_icon_file("/x/.png"));
    assert!(IconCache::is_icon_file("/x/..png"));
}

#[test]
fn many_icons_all_resolve() {
    let files: Vec<String> = (0..6000).map(|i| format!("/p/hicolor/48x48/apps/icon{i}.png")).collect();
    let mut cache = IconCache::new();
    cache.scan(&files);
    for i in (0..6000).step_by(97) {
        let want = format!("/p/hicolor/48x48/apps/icon{i}.png");
        assert_eq!(cache.lookup(&format!("icon{i}")), Some(&want));
        assert_eq!(cache.lookup(&format!("icon{i}.png")), Some(&want));
    }
    assert_eq!(cache.lookup("icon6000"), None);
}
