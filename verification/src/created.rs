//! Files that a client, or the server itself at its start, reports as created.

use crate::lsp::{Database, DatabaseView};
use tower_lsp::lsp_types::Url;
use vstd::prelude::*;

verus! {

/// The `file` URL of a path, or nothing if the path has none because it is not absolute.
pub uninterp spec fn file_url(path: Seq<char>) -> Option<Seq<char>>;

/// Whether a path has no separator of any system in it, so that it is not absolute.
pub open spec fn plain_name(path: Seq<char>) -> bool {
    !path.contains('/') && !path.contains('\\')
}

/// Converts a path to a URL with `Url::from_file_path`. Whether that succeeds, and the text of the
/// URL, depend on the path alone. It does not for a path that is not absolute, and no system has
/// an absolute path without a separator.
#[verifier::external_body]
fn url_from_path(path: &str) -> (url: Option<String>)
    ensures
        crate::text::optional_text(url) == file_url(path@),
        plain_name(path@) ==> url is None,
{
    Url::from_file_path(path).ok().map(String::from)
}

/// A file that was reported as created.
#[derive(Debug)]
pub struct CreatedFile {
    /// The URI of the file, or nothing if its path cannot be converted to one.
    pub uri: Option<String>,
    /// The content of the file, or nothing if it was not or could not be read.
    pub source: Option<String>,
}

/// A created file in mathematical terms.
pub ghost struct CreatedView {
    pub uri: Option<Seq<char>>,
    pub source: Option<Seq<char>>,
}

impl View for CreatedFile {
    type V = CreatedView;

    open spec fn view(&self) -> CreatedView {
        CreatedView {
            uri: crate::text::optional_text(self.uri),
            source: crate::text::optional_text(self.source),
        }
    }
}

/// What became of a created file.
#[derive(Clone, Copy, Debug, PartialEq, Eq, Structural)]
pub enum Creation {
    /// The file is served.
    Stored,
    /// The file is ignored since its path cannot be converted to a URI.
    NoUri,
    /// The file is ignored since it could not be read.
    Unreadable,
}

/// Created files in mathematical terms.
pub open spec fn created_views(files: Seq<CreatedFile>) -> Seq<CreatedView> {
    files.map_values(|file: CreatedFile| file@)
}

/// What becomes of a created file.
pub open spec fn creation_of(file: CreatedView) -> Creation {
    if file.uri is None {
        Creation::NoUri
    } else if file.source is None {
        Creation::Unreadable
    } else {
        Creation::Stored
    }
}

/// What the server knows once a created file was reported.
pub open spec fn with_created(database: DatabaseView, file: CreatedView) -> DatabaseView {
    match (file.uri, file.source) {
        (Some(uri), Some(source)) => database.serving(uri, source),
        _ => database,
    }
}

/// What the server knows once created files were reported, one after the other.
pub open spec fn with_all_created(database: DatabaseView, files: Seq<CreatedView>) -> DatabaseView
    decreases files.len(),
{
    if files.len() == 0 {
        database
    } else {
        with_created(with_all_created(database, files.drop_last()), files.last())
    }
}

impl CreatedFile {
    /// Returns a created file that has not been read yet.
    pub fn new(path: &str) -> (file: CreatedFile)
        ensures
            file@ == (CreatedView { uri: file_url(path@), source: None }),
            plain_name(path@) ==> file.uri is None,
    {
        CreatedFile { uri: url_from_path(path), source: None }
    }
}

impl Database {
    /// Takes files that were reported as created. Those with a URI that could be read are served
    /// from now on, and the others are ignored. Returns what became of each.
    pub fn did_create_files(&mut self, files: Vec<CreatedFile>) -> (creations: Vec<Creation>)
        requires
            old(self)@.files is Some || forall|i: int|
                0 <= i < files@.len() ==> creation_of((#[trigger] files@[i])@) != Creation::Stored,
        ensures
            final(self)@ == with_all_created(old(self)@, created_views(files@)),
            creations@ == created_views(files@).map_values(|file: CreatedView| creation_of(file)),
            creations@.len() == files@.len(),
            forall|i: int|
                0 <= i < files@.len() ==> (#[trigger] creations@[i] == Creation::Stored
                    <==> files@[i].uri is Some && files@[i].source is Some),
            forall|i: int|
                0 <= i < files@.len() ==> (#[trigger] creations@[i] == Creation::NoUri
                    <==> files@[i].uri is None),
            old(self)@.files is Some ==> final(self)@.files is Some,
            old(self)@.files is Some ==> forall|i: int|
                0 <= i < files@.len() && (#[trigger] files@[i]).uri is Some
                    && files@[i].source is Some ==> final(self)@.files->0.contains(
                    files@[i].uri->0@,
                ),
            old(self)@.consistent() ==> final(self)@.consistent(),
            old(self)@.carries_uris() ==> final(self)@.carries_uris(),
    {
        let ghost before = self@;
        let ghost views = created_views(files@);
        let mut creations: Vec<Creation> = Vec::new();
        for file in reported: files
            invariant
                reported.seq() == files@,
                views == created_views(files@),
                before.files is Some || forall|i: int|
                    0 <= i < files@.len() ==> creation_of((#[trigger] files@[i])@)
                        != Creation::Stored,
                before.files is Some ==> self@.files is Some,
                self@ == with_all_created(before, views.take(reported.index())),
                creations@ == views.take(reported.index()).map_values(
                    |file: CreatedView| creation_of(file),
                ),
                before.consistent() ==> self@.consistent(),
                before.carries_uris() ==> self@.carries_uris(),
        {
            let ghost index = reported.index();
            let ghost taken = views.take(index + 1);
            let ghost done = creations@;
            assert(file == files@[index]);
            assert(taken.drop_last() =~= views.take(index));
            assert(taken.last() == file@);
            let creation = match file.uri {
                None => Creation::NoUri,
                Some(uri) => match file.source {
                    None => Creation::Unreadable,
                    Some(source) => {
                        self.did_open(uri, source);
                        Creation::Stored
                    },
                },
            };
            creations.push(creation);
            assert(creations@ =~= taken.map_values(|file: CreatedView| creation_of(file)));
        }
        assert(views.take(views.len() as int) =~= views);
        proof {
            assert forall|i: int| 0 <= i < files@.len() implies #[trigger] creations@[i]
                == creation_of(files@[i]@) by {
                assert(views[i] == files@[i]@);
            }
            if before.files is Some {
                lemma_stays_initialized(before, views);
                assert forall|i: int|
                    0 <= i < files@.len() && (#[trigger] files@[i]).uri is Some
                        && files@[i].source is Some implies self@.files->0.contains(
                    files@[i].uri->0@,
                ) by {
                    assert(views[i] == files@[i]@);
                    law_readable_files_are_served(before, views, i);
                }
            }
        }
        creations
    }
}

/// Files without a URI or a content change nothing.
pub proof fn law_ignored_files_change_nothing(database: DatabaseView, files: Seq<CreatedView>)
    requires
        forall|i: int|
            0 <= i < files.len() ==> creation_of(#[trigger] files[i]) != Creation::Stored,
    ensures
        with_all_created(database, files) == database,
    decreases files.len(),
{
    if files.len() > 0 {
        assert(creation_of(files[files.len() - 1]) != Creation::Stored);
        law_ignored_files_change_nothing(database, files.drop_last());
    }
}

/// A file with a URI and a content is served, with that content unless a later file of the same
/// URI has another.
pub proof fn law_created_files_are_served(
    database: DatabaseView,
    files: Seq<CreatedView>,
    i: int,
)
    requires
        database.files is Some,
        0 <= i < files.len(),
        creation_of(files[i]) == Creation::Stored,
    ensures
        with_all_created(database, files).files is Some,
        with_all_created(database, files).files->0.contains(files[i].uri->0),
        (forall|j: int|
            i < j < files.len() && creation_of(#[trigger] files[j]) == Creation::Stored
                ==> files[j].uri != files[i].uri) ==> with_all_created(database, files).text_of(
            files[i].uri->0,
        ) == files[i].source,
    decreases files.len(),
{
    let uri = files[i].uri->0;
    let rest = files.drop_last();
    let last = files.last();
    lemma_stays_initialized(database, rest);
    let before = with_all_created(database, rest);
    if i == files.len() - 1 {
        crate::lsp::law_text_is_read_back(before, uri, last.source->0);
    } else {
        assert(rest[i] == files[i]);
        law_created_files_are_served(database, rest, i);
        if creation_of(last) == Creation::Stored {
            crate::lsp::law_text_is_read_back(before, last.uri->0, last.source->0);
            if last.uri->0 != uri {
                crate::lsp::law_other_documents_stay(before, last.uri->0, last.source->0, uri);
                if forall|j: int|
                    i < j < files.len() && creation_of(#[trigger] files[j]) == Creation::Stored
                        ==> files[j].uri != files[i].uri {
                    assert forall|j: int|
                        i < j < rest.len() && creation_of(#[trigger] rest[j])
                            == Creation::Stored implies rest[j].uri != rest[i].uri by {
                        assert(rest[j] == files[j]);
                    }
                }
            } else {
                assert(creation_of(files[files.len() - 1]) == Creation::Stored);
            }
        } else if forall|j: int|
            i < j < files.len() && creation_of(#[trigger] files[j]) == Creation::Stored
                ==> files[j].uri != files[i].uri {
            assert forall|j: int|
                i < j < rest.len() && creation_of(#[trigger] rest[j])
                    == Creation::Stored implies rest[j].uri != rest[i].uri by {
                assert(rest[j] == files[j]);
            }
        }
    }
}

/// A document is served after files were reported only if it was served before, or if one of the
/// files has its URI and could be read.
pub proof fn law_only_created_files_are_added(
    database: DatabaseView,
    files: Seq<CreatedView>,
    uri: Seq<char>,
)
    requires
        database.files is Some,
        with_all_created(database, files).files->0.contains(uri),
    ensures
        database.files->0.contains(uri) || exists|i: int|
            0 <= i < files.len() && creation_of(#[trigger] files[i]) == Creation::Stored
                && files[i].uri == Some(uri),
    decreases files.len(),
{
    if files.len() > 0 {
        let rest = files.drop_last();
        let last = files.last();
        let before = with_all_created(database, rest);
        lemma_stays_initialized(database, rest);
        assert(last == files[files.len() - 1]);
        if creation_of(last) != Creation::Stored || last.uri != Some(uri) {
            if creation_of(last) == Creation::Stored {
                crate::lsp::law_other_documents_stay(before, last.uri->0, last.source->0, uri);
            }
            law_only_created_files_are_added(database, rest, uri);
            if !database.files->0.contains(uri) {
                let i = choose|i: int|
                    0 <= i < rest.len() && creation_of(#[trigger] rest[i]) == Creation::Stored
                        && rest[i].uri == Some(uri);
                assert(files[i] == rest[i]);
            }
        }
    }
}

/// An initialized server stays initialized.
proof fn lemma_stays_initialized(database: DatabaseView, files: Seq<CreatedView>)
    requires
        database.files is Some,
    ensures
        with_all_created(database, files).files is Some,
    decreases files.len(),
{
    if files.len() > 0 {
        lemma_stays_initialized(database, files.drop_last());
    }
}

/// Files that are reported in two lists are treated as if they came in one.
pub proof fn law_lists_can_be_joined(
    database: DatabaseView,
    first: Seq<CreatedView>,
    second: Seq<CreatedView>,
)
    ensures
        with_all_created(database, first + second) == with_all_created(
            with_all_created(database, first),
            second,
        ),
    decreases second.len(),
{
    let all = first + second;
    if second.len() == 0 {
        assert(all =~= first);
    } else {
        law_lists_can_be_joined(database, first, second.drop_last());
        assert(all.drop_last() =~= first + second.drop_last());
        assert(all.last() == second.last());
    }
}

/// A file without a URI or a content changes nothing wherever it stands in a list: the files
/// around it are treated as if it were not there.
pub proof fn law_ignored_file_can_be_left_out(
    database: DatabaseView,
    first: Seq<CreatedView>,
    ignored: CreatedView,
    second: Seq<CreatedView>,
)
    requires
        creation_of(ignored) != Creation::Stored,
    ensures
        with_all_created(database, first + seq![ignored] + second) == with_all_created(
            database,
            first + second,
        ),
{
    let front = first + seq![ignored];
    assert(front.drop_last() =~= first);
    law_lists_can_be_joined(database, front, second);
    law_lists_can_be_joined(database, first, second);
}

/// The content of a document that a list of created files leaves behind, if it holds one.
spec fn last_source(files: Seq<CreatedView>, uri: Seq<char>) -> Option<Seq<char>>
    decreases files.len(),
{
    if files.len() == 0 {
        None
    } else {
        let last = files.last();
        if creation_of(last) == Creation::Stored && last.uri == Some(uri) {
            last.source
        } else {
            last_source(files.drop_last(), uri)
        }
    }
}

/// What is known of a document after a list of created files is what the list leaves behind of it,
/// or what was known before.
proof fn lemma_content_after(database: DatabaseView, files: Seq<CreatedView>, uri: Seq<char>)
    ensures
        last_source(files, uri) matches Some(source) ==> {
            &&& with_all_created(database, files).contents.contains_key(uri)
            &&& with_all_created(database, files).contents[uri].uri == uri
            &&& with_all_created(database, files).contents[uri].source == source
        },
        last_source(files, uri) is None ==> {
            &&& with_all_created(database, files).contents.contains_key(uri)
                == database.contents.contains_key(uri)
            &&& database.contents.contains_key(uri) ==> with_all_created(
                database,
                files,
            ).contents[uri] == database.contents[uri]
        },
        with_all_created(database, files).prefixes == database.prefixes,
        database.files is None ==> with_all_created(database, files).files is None,
    decreases files.len(),
{
    if files.len() > 0 {
        lemma_content_after(database, files.drop_last(), uri);
    }
}

/// Files that are all listed already change nothing about what is listed.
proof fn lemma_listed_files_stay(database: DatabaseView, files: Seq<CreatedView>)
    requires
        database.files is Some,
        forall|i: int|
            0 <= i < files.len() && creation_of(#[trigger] files[i]) == Creation::Stored
                ==> database.files->0.contains(files[i].uri->0),
    ensures
        with_all_created(database, files).files == database.files,
    decreases files.len(),
{
    if files.len() > 0 {
        let rest = files.drop_last();
        assert forall|i: int|
            0 <= i < rest.len() && creation_of(#[trigger] rest[i])
                == Creation::Stored implies database.files->0.contains(rest[i].uri->0) by {
            assert(rest[i] == files[i]);
        }
        lemma_listed_files_stay(database, rest);
        assert(files.last() == files[files.len() - 1]);
    }
}

/// Reporting the same files once more changes nothing.
pub proof fn law_reporting_again_changes_nothing(
    database: DatabaseView,
    files: Seq<CreatedView>,
)
    ensures
        with_all_created(with_all_created(database, files), files) == with_all_created(
            database,
            files,
        ),
{
    let once = with_all_created(database, files);
    let twice = with_all_created(once, files);
    assert forall|uri: Seq<char>|
        #![trigger twice.contents.contains_key(uri)]
        #![trigger twice.contents[uri]]
        twice.contents.contains_key(uri) == once.contents.contains_key(uri) && (
        once.contents.contains_key(uri) ==> twice.contents[uri] == once.contents[uri]) by {
        lemma_content_after(database, files, uri);
        lemma_content_after(once, files, uri);
    }
    assert(twice.contents =~= once.contents);
    lemma_content_after(database, files, Seq::empty());
    lemma_content_after(once, files, Seq::empty());
    if database.files is Some {
        lemma_stays_initialized(database, files);
        assert forall|i: int|
            0 <= i < files.len() && creation_of(#[trigger] files[i])
                == Creation::Stored implies once.files->0.contains(files[i].uri->0) by {
            law_created_files_are_served(database, files, i);
        }
        lemma_listed_files_stay(once, files);
    }
    assert(twice =~= once);
}

/// A created file is served exactly if it has a URI and a content. Without a URI that is what is
/// said of it, whether or not it has a content.
pub proof fn law_creation_needs_uri_and_content(file: CreatedView)
    ensures
        creation_of(file) == Creation::Stored <==> file.uri is Some && file.source is Some,
        creation_of(file) == Creation::NoUri <==> file.uri is None,
        creation_of(file) == Creation::Unreadable <==> file.uri is Some && file.source is None,
{
}

/// Every file with a URI and a content is listed and known by its URI, and its text is its content
/// unless a later file with a content has the same URI.
pub proof fn law_readable_files_are_served(
    database: DatabaseView,
    files: Seq<CreatedView>,
    i: int,
)
    requires
        database.files is Some,
        0 <= i < files.len(),
        files[i].uri is Some,
        files[i].source is Some,
    ensures
        with_all_created(database, files).files is Some,
        with_all_created(database, files).files->0.contains(files[i].uri->0),
        with_all_created(database, files).contents.contains_key(files[i].uri->0),
        with_all_created(database, files).contents[files[i].uri->0].uri == files[i].uri->0,
        (forall|j: int|
            i < j < files.len() && (#[trigger] files[j]).source is Some ==> files[j].uri
                != files[i].uri) ==> with_all_created(
            database,
            files,
        ).contents[files[i].uri->0].source == files[i].source->0,
    decreases files.len(),
{
    let uri = files[i].uri->0;
    law_creation_needs_uri_and_content(files[i]);
    law_created_files_are_served(database, files, i);
    lemma_content_after(database, files, uri);
    lemma_last_source(files, uri, i);
    if forall|j: int|
        i < j < files.len() && (#[trigger] files[j]).source is Some ==> files[j].uri
            != files[i].uri {
        assert forall|j: int|
            i < j < files.len() && creation_of(#[trigger] files[j])
                == Creation::Stored implies files[j].uri != files[i].uri by {
            law_creation_needs_uri_and_content(files[j]);
        }
    }
}

/// A file with a content leaves some content behind.
proof fn lemma_last_source(files: Seq<CreatedView>, uri: Seq<char>, i: int)
    requires
        0 <= i < files.len(),
        files[i].uri == Some(uri),
        files[i].source is Some,
    ensures
        last_source(files, uri) is Some,
    decreases files.len(),
{
    if i < files.len() - 1 {
        assert(files.drop_last()[i] == files[i]);
        lemma_last_source(files.drop_last(), uri, i);
    }
}

/// A document stays as it was, and is listed only if it was, where no file has both its URI and a
/// content. Whatever the files are, Zeek's prefixes stay.
pub proof fn law_other_documents_are_left_alone(
    database: DatabaseView,
    files: Seq<CreatedView>,
    uri: Seq<char>,
)
    requires
        forall|i: int|
            0 <= i < files.len() && (#[trigger] files[i]).source is Some ==> files[i].uri != Some(
                uri,
            ),
    ensures
        with_all_created(database, files).contents.contains_key(uri)
            == database.contents.contains_key(uri),
        with_all_created(database, files).contents[uri] == database.contents[uri],
        with_all_created(database, files).prefixes == database.prefixes,
        with_all_created(database, files).files is Some <==> database.files is Some,
        database.files is Some ==> (with_all_created(database, files).files->0.contains(uri)
            <==> database.files->0.contains(uri)),
    decreases files.len(),
{
    if files.len() > 0 {
        let rest = files.drop_last();
        let last = files.last();
        let before = with_all_created(database, rest);
        assert forall|i: int|
            0 <= i < rest.len() && (#[trigger] rest[i]).source is Some implies rest[i].uri != Some(
            uri,
        ) by {
            assert(rest[i] == files[i]);
        }
        law_other_documents_are_left_alone(database, rest, uri);
        assert(last == files[files.len() - 1]);
        if last.uri is Some && last.source is Some {
            crate::lsp::law_other_documents_stay(before, last.uri->0, last.source->0, uri);
        }
    }
}

/// Documents that were listed stay listed in their places, before those that are added.
pub proof fn law_created_files_come_behind(database: DatabaseView, files: Seq<CreatedView>)
    requires
        database.files is Some,
    ensures
        database.files->0.is_prefix_of(with_all_created(database, files).files->0),
    decreases files.len(),
{
    if files.len() > 0 {
        let rest = files.drop_last();
        let last = files.last();
        let before = with_all_created(database, rest);
        lemma_stays_initialized(database, rest);
        law_created_files_come_behind(database, rest);
        if last.uri is Some && last.source is Some {
            let after = before.serving(last.uri->0, last.source->0);
            crate::lsp::law_served_documents_keep_their_order(
                before,
                last.uri->0,
                last.source->0,
            );
            let listed = database.files->0;
            assert(listed =~= after.files->0.take(listed.len() as int)) by {
                assert(listed == before.files->0.take(listed.len() as int));
                assert(before.files->0 == after.files->0.take(before.files->0.len() as int));
            }
        }
    }
}

/// Created files are seen all, each in its place, with the URI and the content that they have.
pub proof fn law_created_files_are_seen_whole(files: Seq<CreatedFile>, i: int)
    requires
        0 <= i < files.len(),
    ensures
        created_views(files).len() == files.len(),
        created_views(files)[i].uri is Some <==> files[i].uri is Some,
        files[i].uri matches Some(uri) ==> created_views(files)[i].uri == Some(uri@),
        created_views(files)[i].source is Some <==> files[i].source is Some,
        files[i].source matches Some(source) ==> created_views(files)[i].source == Some(source@),
{
}

} // verus!
