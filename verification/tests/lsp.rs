use std::path::PathBuf;
use zeek_language_server::created::{CreatedFile, Creation};
use zeek_language_server::lsp::{ContentChange, Database, File, ServerState};

fn initialized() -> Database {
    let mut db = Database::default();
    db.initialize(Some(vec![PathBuf::from("/scripts")]));
    db
}

fn created(path: &str, source: Option<&str>) -> CreatedFile {
    let mut file = CreatedFile::new(path);
    file.source = source.map(String::from);
    file
}

fn change(text: &str) -> Vec<ContentChange> {
    vec![ContentChange { range: None, text: text.to_string() }]
}

#[test]
fn a_new_server_knows_nothing() {
    let db = Database::default();
    assert!(!db.is_initialized());
    assert!(!db.knows("file:///a.zeek"));
}

#[test]
fn an_initialized_server_serves_nothing() {
    let db = initialized();
    assert!(db.is_initialized());
    assert_eq!(*db.prefixes(), vec![PathBuf::from("/scripts")]);
    assert!(db.files().is_empty());
}

#[test]
fn without_prefixes_the_server_is_not_initialized() {
    let mut db = Database::default();
    db.initialize(None);
    assert!(!db.is_initialized());
}

#[test]
fn an_opened_document_is_read_back() {
    let mut db = initialized();
    db.did_open("file:///a.zeek".to_string(), "global x;".to_string());
    assert_eq!(db.file("file:///a.zeek").uri, "file:///a.zeek");
    assert_eq!(db.file("file:///a.zeek").source, "global x;");
    assert_eq!(*db.files(), vec!["file:///a.zeek"]);
}

#[test]
fn the_last_text_of_a_document_counts() {
    let mut db = initialized();
    db.did_open("file:///a.zeek".to_string(), "one".to_string());
    db.did_change("file:///a.zeek".to_string(), &change("two"));
    assert_eq!(db.file("file:///a.zeek").source, "two");
    assert_eq!(*db.files(), vec!["file:///a.zeek"]);
}

#[test]
fn a_changed_document_need_not_be_open() {
    let mut db = initialized();
    db.did_change("file:///a.zeek".to_string(), &change("one"));
    assert_eq!(db.file("file:///a.zeek").source, "one");
    assert_eq!(*db.files(), vec!["file:///a.zeek"]);
}

#[test]
fn other_documents_stay() {
    let mut db = initialized();
    db.did_open("file:///a.zeek".to_string(), "one".to_string());
    db.did_open("file:///b.zeek".to_string(), "two".to_string());
    assert_eq!(db.file("file:///a.zeek").source, "one");
    assert_eq!(db.file("file:///b.zeek").source, "two");
    assert_eq!(*db.files(), vec!["file:///a.zeek", "file:///b.zeek"]);
    assert_eq!(*db.prefixes(), vec![PathBuf::from("/scripts")]);
}

#[test]
fn the_order_of_documents_does_not_matter_to_their_texts() {
    let mut one = initialized();
    one.did_open("file:///a.zeek".to_string(), "a".to_string());
    one.did_open("file:///b.zeek".to_string(), "b".to_string());
    let mut other = initialized();
    other.did_open("file:///b.zeek".to_string(), "b".to_string());
    other.did_open("file:///a.zeek".to_string(), "a".to_string());
    for uri in ["file:///a.zeek", "file:///b.zeek"] {
        assert_eq!(one.file(uri).source, other.file(uri).source);
    }
}

#[test]
fn initializing_again_forgets_what_is_served() {
    let mut db = initialized();
    db.did_open("file:///a.zeek".to_string(), "one".to_string());
    db.initialize(Some(vec![]));
    assert!(db.files().is_empty());
    assert!(db.prefixes().is_empty());
    assert_eq!(db.file("file:///a.zeek").source, "one");
}

#[test]
fn setting_a_file_does_not_list_it() {
    let mut db = initialized();
    let uri = "file:///a.zeek".to_string();
    db.set_file(uri.clone(), File { uri: uri.clone(), source: "one".to_string() });
    assert!(db.knows(&uri));
    assert!(db.files().is_empty());
}

#[test]
fn absolute_paths_have_uris() {
    assert_eq!(CreatedFile::new("/foo/bar.zeek").uri, Some("file:///foo/bar.zeek".to_string()));
    assert_eq!(CreatedFile::new("/foo bar.zeek").uri, Some("file:///foo%20bar.zeek".to_string()));
    assert_eq!(CreatedFile::new("foo/bar.zeek").uri, None);
    assert_eq!(CreatedFile::new("").uri, None);
    assert_eq!(CreatedFile::new("/foo/bar.zeek").source, None);
}

#[test]
fn created_files_are_served() {
    let mut db = initialized();
    let creations = db.did_create_files(vec![
        created("/a.zeek", Some("one")),
        created("relative.zeek", Some("two")),
        created("/b.zeek", None),
        created("relative.zeek", None),
        created("/c.zeek", Some("three")),
        created("/a.zeek", Some("four")),
    ]);
    assert_eq!(
        creations,
        vec![
            Creation::Stored,
            Creation::NoUri,
            Creation::Unreadable,
            Creation::NoUri,
            Creation::Stored,
            Creation::Stored,
        ]
    );
    assert_eq!(*db.files(), vec!["file:///a.zeek", "file:///c.zeek"]);
    assert_eq!(db.file("file:///a.zeek").source, "four");
    assert_eq!(db.file("file:///c.zeek").source, "three");
    assert!(!db.knows("file:///b.zeek"));
}

#[test]
fn ignored_files_change_nothing() {
    let mut db = Database::default();
    let creations = db.did_create_files(vec![created("/a.zeek", None), created("b", Some("two"))]);
    assert_eq!(creations, vec![Creation::Unreadable, Creation::NoUri]);
    assert!(!db.is_initialized());
    assert!(!db.knows("file:///a.zeek"));
}

#[test]
fn listed_documents_carry_their_uri() {
    let mut db = initialized();
    db.did_open("file:///a.zeek".to_string(), "one".to_string());
    db.did_change("file:///b.zeek".to_string(), &change("two"));
    db.did_create_files(vec![created("/c.zeek", Some("three"))]);
    assert_eq!(db.files().len(), 3);
    for uri in db.files() {
        assert_eq!(db.file(uri).uri, *uri);
    }
}

#[test]
fn an_ignored_file_can_be_left_out() {
    let mut with = initialized();
    with.did_create_files(vec![
        created("/a.zeek", Some("one")),
        created("/a.zeek", None),
        created("/b.zeek", Some("two")),
    ]);
    let mut without = initialized();
    without.did_create_files(vec![created("/a.zeek", Some("one"))]);
    without.did_create_files(vec![created("/b.zeek", Some("two"))]);
    assert_eq!(with.files(), without.files());
    for uri in with.files() {
        assert_eq!(with.file(uri).source, without.file(uri).source);
    }
}

#[test]
fn reporting_files_again_changes_nothing() {
    let report = || {
        vec![
            created("/a.zeek", Some("one")),
            created("/b.zeek", Some("two")),
            created("/a.zeek", Some("three")),
        ]
    };
    let mut db = initialized();
    db.did_create_files(report());
    db.did_create_files(report());
    assert_eq!(*db.files(), vec!["file:///a.zeek", "file:///b.zeek"]);
    assert_eq!(db.file("file:///a.zeek").source, "three");
    assert_eq!(db.file("file:///b.zeek").source, "two");
}

#[test]
fn nothing_but_created_files_is_added() {
    let mut db = initialized();
    db.did_open("file:///a.zeek".to_string(), "one".to_string());
    db.did_create_files(vec![created("/b.zeek", Some("two")), created("/c.zeek", None)]);
    assert_eq!(*db.files(), vec!["file:///a.zeek", "file:///b.zeek"]);
}
