use std::path::PathBuf;
use zeek_language_server::startup::{
    capabilities, startup_action, StartupAction, TextDocumentSyncKind,
};
use zeek_language_server::zeek::{
    dir, has_script_extension, init_script_filename, system_files, PrefixQuery, SystemFile,
    WalkedEntry, WalkedPrefix, ZeekDir, ZeekError,
};

fn entry(path: &str, is_dir: bool) -> Option<WalkedEntry> {
    Some(WalkedEntry { path: PathBuf::from(path), is_dir })
}

fn walked(dir: &str, entries: Vec<Option<WalkedEntry>>) -> WalkedPrefix {
    WalkedPrefix { dir: PathBuf::from(dir), entries }
}

fn file(path: &str, prefix: &str) -> SystemFile {
    SystemFile::new(PathBuf::from(path), PathBuf::from(prefix))
}

fn finished(query: PrefixQuery) -> Result<Vec<PathBuf>, ZeekError> {
    match query {
        PrefixQuery::Finished(prefixes) => prefixes,
        PrefixQuery::Asking(_) => panic!("the search goes on"),
    }
}

#[test]
fn directories_have_flags() {
    assert_eq!(ZeekDir::ScriptDir.flag(), "--script_dir");
    assert_eq!(ZeekDir::PluginDir.flag(), "--plugin_dir");
    assert_eq!(ZeekDir::SiteDir.flag(), "--site_dir");
}

#[test]
fn a_directory_is_on_the_first_line() {
    assert_eq!(dir(b"/opt/zeek/share/zeek\n").unwrap(), PathBuf::from("/opt/zeek/share/zeek"));
    assert_eq!(dir(b"/a\r\n/b\n").unwrap(), PathBuf::from("/a"));
    assert_eq!(dir(b"\n").unwrap(), PathBuf::from(""));
}

#[test]
fn no_output_is_an_error() {
    let error = dir(b"").unwrap_err();
    assert!(matches!(error, ZeekError::NoOutput));
    assert_eq!(error.message(), "'zeek-config --script_dir' returned no output");
}

#[test]
fn output_that_is_no_text_is_an_error() {
    let error = dir(b"ab\xff").unwrap_err();
    assert!(matches!(error, ZeekError::NotUtf8(_)));
    assert_eq!(error.message(), "invalid utf-8 sequence of 1 bytes from index 2");
}

#[test]
fn prefixes_are_asked_for_in_order() {
    let query = PrefixQuery::new();
    assert_eq!(query.next_dir(), Some(ZeekDir::ScriptDir));
    let query = query.reply(Ok(b"/scripts\n".to_vec()));
    assert_eq!(query.next_dir(), Some(ZeekDir::PluginDir));
    let query = query.reply(Ok(b"/plugins\n".to_vec()));
    assert_eq!(query.next_dir(), Some(ZeekDir::SiteDir));
    let query = query.reply(Ok(b"/site\n".to_vec()));
    assert_eq!(query.next_dir(), None);
    assert_eq!(
        finished(query).unwrap(),
        vec![PathBuf::from("/scripts"), PathBuf::from("/plugins"), PathBuf::from("/site")]
    );
}

#[test]
fn the_first_error_ends_the_search() {
    let query = PrefixQuery::new().reply(Err("not found".to_string()));
    assert_eq!(query.next_dir(), None);
    let error = finished(query).unwrap_err();
    assert!(matches!(error, ZeekError::Command(_)));
    assert_eq!(error.message(), "not found");

    let query = PrefixQuery::new().reply(Ok(b"/scripts\n".to_vec())).reply(Ok(Vec::new()));
    assert_eq!(query.next_dir(), None);
    assert!(matches!(finished(query), Err(ZeekError::NoOutput)));

    let query = PrefixQuery::new()
        .reply(Ok(b"/scripts\n".to_vec()))
        .reply(Ok(b"/plugins\n".to_vec()))
        .reply(Ok(vec![0xc3]));
    assert_eq!(query.next_dir(), None);
    assert!(matches!(finished(query), Err(ZeekError::NotUtf8(_))));
}

#[test]
fn scripts_are_found_below_their_prefix() {
    let found = system_files(&vec![
        walked(
            "/scripts",
            vec![
                entry("/scripts", true),
                entry("/scripts/base/init-default.zeek", false),
                None,
                entry("/scripts/base/dpd.sig", false),
                entry("/scripts/local.zeek", false),
            ],
        ),
        walked("/plugins", vec![]),
        walked("/site", vec![entry("/site/local.zeek", false)]),
    ]);
    assert_eq!(
        found,
        vec![
            file("/scripts/base/init-default.zeek", "/scripts"),
            file("/scripts/local.zeek", "/scripts"),
            file("/site/local.zeek", "/site"),
        ]
    );
}

#[test]
fn only_files_with_the_extension_are_scripts() {
    let found = system_files(&vec![walked(
        "/p",
        vec![
            entry("/p/dir.zeek", true),
            entry("/p/.zeek", false),
            entry("/p/zeek", false),
            entry("/p/a.zeek.bak", false),
            entry("/p/a.ZEEK", false),
            entry("/p/a.zeeky", false),
            entry("/p/a.", false),
            entry("/p.zeek/..", false),
            entry("/p/a.b.zeek", false),
            entry("/p/..zeek", false),
        ],
    )]);
    assert_eq!(found, vec![file("/p/a.b.zeek", "/p"), file("/p/..zeek", "/p")]);
}

#[test]
fn extensions_decide_on_files_only() {
    assert!(has_script_extension(false, &Some(b"zeek".to_vec())));
    assert!(!has_script_extension(true, &Some(b"zeek".to_vec())));
    assert!(!has_script_extension(false, &Some(b"zeel".to_vec())));
    assert!(!has_script_extension(false, &Some(b"zee".to_vec())));
    assert!(!has_script_extension(false, &None));
}

#[test]
fn the_init_script_is_known() {
    assert_eq!(init_script_filename(), "base/init-default.zeek");
}

#[test]
fn found_files_are_created_at_the_start() {
    match startup_action(Ok(vec![file("/a/b.zeek", "/a"), file("/a/ü.zeek", "/a")])) {
        StartupAction::Create(paths) => assert_eq!(paths, vec!["/a/b.zeek", "/a/ü.zeek"]),
        StartupAction::Report(message) => panic!("{}", message),
    }
    match startup_action(Err(ZeekError::NoOutput)) {
        StartupAction::Report(message) => {
            assert_eq!(message, "'zeek-config --script_dir' returned no output")
        }
        StartupAction::Create(_) => panic!("there are no files"),
    }
}

#[test]
fn the_server_says_what_it_can_do() {
    let capabilities = capabilities();
    assert_eq!(capabilities.text_document_sync, TextDocumentSyncKind::Full);
    assert!(capabilities.hover_provider);
    assert!(capabilities.document_symbol_provider);
    assert!(capabilities.workspace_symbol_provider);
    assert_eq!(capabilities.completion_triggers, vec!["$", "?"]);
}
