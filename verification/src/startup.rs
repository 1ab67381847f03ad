//! How the server starts: what it tells a client that it can do, and what it does with the files
//! of Zeek's installation.

use crate::paths::path_into_text;
use crate::zeek::{SystemFile, ZeekError};
use vstd::prelude::*;

verus! {

/// How a client reports changes of a document.
#[derive(Clone, Copy, Debug, PartialEq, Eq, Structural)]
pub enum TextDocumentSyncKind {
    /// Not at all.
    Off,
    /// With the whole new text.
    Full,
    /// With the parts that changed.
    Incremental,
}

/// What the server can do.
#[derive(Debug)]
pub struct ServerCapabilities {
    pub text_document_sync: TextDocumentSyncKind,
    pub hover_provider: bool,
    pub document_symbol_provider: bool,
    pub workspace_symbol_provider: bool,
    /// The characters after which a client asks for completions by itself.
    pub completion_triggers: Vec<String>,
}

/// Returns what the server can do.
pub fn capabilities() -> (capabilities: ServerCapabilities)
    ensures
        capabilities.text_document_sync == TextDocumentSyncKind::Full,
        capabilities.hover_provider,
        capabilities.document_symbol_provider,
        capabilities.workspace_symbol_provider,
        crate::text::text_views(capabilities.completion_triggers@) == seq!["$"@, "?"@],
{
    let mut completion_triggers: Vec<String> = Vec::new();
    completion_triggers.push("$".to_owned());
    completion_triggers.push("?".to_owned());
    assert(crate::text::text_views(completion_triggers@) =~= seq!["$"@, "?"@]);
    ServerCapabilities {
        text_document_sync: TextDocumentSyncKind::Full,
        hover_provider: true,
        document_symbol_provider: true,
        workspace_symbol_provider: true,
        completion_triggers,
    }
}

/// What the server does once Zeek's files were looked for.
#[derive(Debug)]
pub enum StartupAction {
    /// Treats the files with these paths as created.
    Create(Vec<String>),
    /// Reports an error to the client.
    Report(String),
}

/// The paths of the files whose paths are Unicode, in order.
pub open spec fn unicode_paths(files: Seq<SystemFile>) -> Seq<Seq<char>> {
    files.filter_map(|file: SystemFile| crate::paths::path_text(file.path))
}

/// Returns the paths of the files whose paths are Unicode. Others are left out.
fn file_creates(files: Vec<SystemFile>) -> (paths: Vec<String>)
    ensures
        crate::text::text_views(paths@) == unicode_paths(files@),
{
    let ghost text = |file: SystemFile| crate::paths::path_text(file.path);
    let mut paths: Vec<String> = Vec::new();
    for file in found: files
        invariant
            found.seq() == files@,
            text == (|file: SystemFile| crate::paths::path_text(file.path)),
            crate::text::text_views(paths@) == files@.take(found.index()).filter_map(text),
    {
        let ghost index = found.index();
        let ghost before = crate::text::text_views(paths@);
        proof {
            files@.lemma_filter_map_take_succ(text, index);
        }
        assert(file == files@[index]);
        match path_into_text(file.path) {
            Some(path) => {
                paths.push(path);
                assert(crate::text::text_views(paths@) =~= before.push(path@));
                assert(before.push(path@) =~= before + seq![path@]);
            },
            None => {
                assert(before =~= before + Seq::empty());
            },
        }
    }
    assert(files@.take(files@.len() as int) =~= files@);
    paths
}

/// Returns what the server does with Zeek's files, or with the error that kept it from finding
/// them.
pub fn startup_action(files: Result<Vec<SystemFile>, ZeekError>) -> (action: StartupAction)
    ensures
        match files {
            Ok(files) => action matches StartupAction::Create(paths) && crate::text::text_views(
                paths@,
            ) == unicode_paths(files@),
            Err(error) => action matches StartupAction::Report(message) && message@
                == crate::zeek::error_message(error),
        },
{
    match files {
        Ok(files) => StartupAction::Create(file_creates(files)),
        Err(error) => StartupAction::Report(error.message()),
    }
}

/// The path of one file more comes behind the others if it is Unicode, and is left out otherwise.
pub proof fn law_unicode_paths_are_created(files: Seq<SystemFile>, file: SystemFile)
    ensures
        crate::paths::path_text(file.path) matches Some(text) ==> unicode_paths(files.push(file))
            == unicode_paths(files).push(text),
        crate::paths::path_text(file.path) is None ==> unicode_paths(files.push(file))
            == unicode_paths(files),
        unicode_paths(Seq::empty()).len() == 0,
{
    assert(files.push(file).drop_last() =~= files);
    if let Some(text) = crate::paths::path_text(file.path) {
        assert(unicode_paths(files) + seq![text] =~= unicode_paths(files).push(text));
    }
}

/// The path of every file can be found among those that are created, if it is Unicode, and what is
/// created is the path of some file.
pub proof fn law_created_paths_are_those_of_files(files: Seq<SystemFile>, text: Seq<char>)
    ensures
        unicode_paths(files).contains(text) <==> exists|i: int|
            0 <= i < files.len() && crate::paths::path_text((#[trigger] files[i]).path) == Some(
                text,
            ),
{
    let f = |file: SystemFile| crate::paths::path_text(file.path);
    if unicode_paths(files).contains(text) {
        files.lemma_filter_map_contains(f, text);
        let file = choose|file: SystemFile| #[trigger]
            files.contains(file) && f(file) == Some(text);
        assert(files[files.index_of(file)] == file);
    }
    if exists|i: int|
        0 <= i < files.len() && crate::paths::path_text((#[trigger] files[i]).path) == Some(text) {
        let i = choose|i: int|
            0 <= i < files.len() && crate::paths::path_text((#[trigger] files[i]).path) == Some(
                text,
            );
        crate::seqs::lemma_filter_map_holds(files, f, i);
    }
}

} // verus!
