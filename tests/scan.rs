use equinox::session::Session;
use equinox::template::RenderError;
use equinox::site::{classify, join, EntryInfo, EntryKind, ScanError, SiteStructure};

fn entry(name: &str, kind: EntryKind) -> EntryInfo {
    EntryInfo { name: name.to_string(), kind }
}

fn scan_ok(root: &str, entries: Vec<EntryInfo>) -> SiteStructure {
    match classify(root, EntryKind::Dir, Some(entries)) {
        Ok(s) => s,
        Err(e) => panic!("scan failed: {:?}", e),
    }
}

#[test]
fn scan_mixed_directory() {
    let s = scan_ok(
        "/proj",
        vec![
            entry("index.html", EntryKind::File),
            entry("tech", EntryKind::Dir),
            entry("assets", EntryKind::Dir),
            entry(".git", EntryKind::Dir),
        ],
    );
    assert_eq!(s.root_path, "/proj");
    assert_eq!(s.index_path, Some("/proj/index.html".to_string()));
    assert_eq!(s.assets_path, Some("/proj/assets".to_string()));
    assert_eq!(s.categories, vec!["tech".to_string()]);
}

#[test]
fn scan_without_index_has_no_index_path() {
    let s = scan_ok("/proj", vec![entry("about.html", EntryKind::File), entry("life", EntryKind::Dir)]);
    assert_eq!(s.index_path, None);
    let empty = scan_ok("/proj", vec![]);
    assert_eq!(empty.index_path, None);
    assert_eq!(empty.assets_path, None);
    assert!(empty.categories.is_empty());
}

#[test]
fn scan_index_name_is_case_sensitive_and_must_be_a_file() {
    let s = scan_ok("/proj", vec![entry("Index.html", EntryKind::File), entry("INDEX.HTML", EntryKind::File)]);
    assert_eq!(s.index_path, None);
    let d = scan_ok("/proj", vec![entry("index.html", EntryKind::Dir)]);
    assert_eq!(d.index_path, None);
    assert_eq!(d.categories, vec!["index.html".to_string()]);
}

#[test]
fn scan_assets_is_never_a_category() {
    let s = scan_ok("/p", vec![entry("anime", EntryKind::Dir), entry("assets", EntryKind::Dir)]);
    assert_eq!(s.assets_path, Some("/p/assets".to_string()));
    assert_eq!(s.categories, vec!["anime".to_string()]);
    let f = scan_ok("/p", vec![entry("assets", EntryKind::File)]);
    assert_eq!(f.assets_path, None);
    assert!(f.categories.is_empty());
    let upper = scan_ok("/p", vec![entry("Assets", EntryKind::Dir)]);
    assert_eq!(upper.assets_path, None);
    assert_eq!(upper.categories, vec!["Assets".to_string()]);
}

#[test]
fn scan_skips_hidden_directories() {
    let s = scan_ok(
        "/p",
        vec![entry(".git", EntryKind::Dir), entry(".", EntryKind::Dir), entry("a.b", EntryKind::Dir)],
    );
    assert_eq!(s.categories, vec!["a.b".to_string()]);
}

#[test]
fn scan_keeps_listing_order_and_ignores_files() {
    let s = scan_ok(
        "/p",
        vec![
            entry("zeta", EntryKind::Dir),
            entry("notes.txt", EntryKind::File),
            entry("alpha", EntryKind::Dir),
            entry("link", EntryKind::Other),
            entry("mid", EntryKind::Dir),
        ],
    );
    assert_eq!(s.categories, vec!["zeta".to_string(), "alpha".to_string(), "mid".to_string()]);
}

#[test]
fn scan_non_directory_fails() {
    let r = classify("/p/file.txt", EntryKind::File, None);
    assert_eq!(r.err(), Some(ScanError::NotADirectory));
    let r2 = classify("/p/dev", EntryKind::Other, Some(vec![entry("tech", EntryKind::Dir)]));
    assert_eq!(r2.err(), Some(ScanError::NotADirectory));
}

#[test]
fn scan_unreadable_directory_fails() {
    let r = classify("/p", EntryKind::Dir, None);
    assert_eq!(r.err(), Some(ScanError::DirectoryReadError));
}

#[test]
fn join_paths() {
    assert_eq!(join("/p", "index.html"), "/p/index.html");
    assert_eq!(join("/p/", "assets"), "/p/assets");
    assert_eq!(join("", "assets"), "assets");
}

#[test]
fn scan_error_messages() {
    assert_eq!(ScanError::NotADirectory.message(), "not a directory");
    assert_eq!(ScanError::DirectoryReadError.message(), "could not read the directory entries");
}

#[test]
fn copy_keeps_the_structure() {
    let s = scan_ok("/p", vec![entry("index.html", EntryKind::File), entry("tech", EntryKind::Dir)]);
    let c = s.copy();
    assert_eq!(c.root_path, s.root_path);
    assert_eq!(c.index_path, s.index_path);
    assert_eq!(c.categories, s.categories);
    assert_eq!(c.assets_path, s.assets_path);
}

#[test]
fn session_selects_on_successful_scan_only() {
    let mut session = Session::new();
    assert!(session.current.is_none());
    assert_eq!(session.template_path(), Err(RenderError::NoProjectSelected));
    let ok = session.scan("/site", EntryKind::Dir, Some(vec![entry("tech", EntryKind::Dir)]));
    assert!(ok.is_ok());
    assert_eq!(session.template_path(), Ok("/site/index.html".to_string()));
    let bad = session.scan("/other", EntryKind::File, None);
    assert_eq!(bad.err(), Some(ScanError::NotADirectory));
    assert_eq!(session.current.as_ref().map(|s| s.root_path.clone()), Some("/site".to_string()));
    let again = session.scan("/next/", EntryKind::Dir, Some(vec![]));
    assert!(again.is_ok());
    assert_eq!(session.template_path(), Ok("/next/index.html".to_string()));
}
