//! What the server knows of the documents it serves, and how the notifications of a client change
//! that.

use crate::parse::{Grammar, Parse, Tree};
use crate::position::Range;
use std::path::PathBuf;
use vstd::hash_map::StringHashMap;
use vstd::prelude::*;

verus! {

/// A document.
#[derive(Debug)]
pub struct File {
    pub uri: String,
    pub source: String,
}

/// A document in mathematical terms.
pub ghost struct FileView {
    pub uri: Seq<char>,
    pub source: Seq<char>,
}

impl View for File {
    type V = FileView;

    open spec fn view(&self) -> FileView {
        FileView { uri: self.uri@, source: self.source@ }
    }
}

/// What the server knows.
pub struct Database {
    prefixes: Option<Vec<PathBuf>>,
    files: Option<Vec<String>>,
    contents: StringHashMap<File>,
}

/// What the server knows, in mathematical terms.
#[verifier::ext_equal]
pub ghost struct DatabaseView {
    /// The prefixes of Zeek's own files, once they are known.
    pub prefixes: Option<Seq<PathBuf>>,
    /// The URIs of the documents that are served, in the order in which they became known, once
    /// the server is initialized.
    pub files: Option<Seq<Seq<char>>>,
    /// The documents by their URI.
    pub contents: Map<Seq<char>, FileView>,
}

impl View for Database {
    type V = DatabaseView;

    closed spec fn view(&self) -> DatabaseView {
        DatabaseView {
            prefixes: match self.prefixes {
                Some(prefixes) => Some(prefixes@),
                None => None,
            },
            files: match self.files {
                Some(files) => Some(crate::text::text_views(files@)),
                None => None,
            },
            contents: self.contents@.map_values(|file: File| file@),
        }
    }
}

impl DatabaseView {
    /// A server that knows nothing.
    pub open spec fn empty() -> DatabaseView {
        DatabaseView { prefixes: None, files: None, contents: Map::empty() }
    }

    /// Every document is listed at most once, and the content of every listed one is known.
    pub open spec fn consistent(self) -> bool {
        self.files matches Some(files) ==> {
            &&& files.no_duplicates()
            &&& forall|i: int|
                0 <= i < files.len() ==> self.contents.contains_key(#[trigger] files[i])
        }
    }

    /// Every listed document whose content is known carries the URI that it is listed by.
    pub open spec fn carries_uris(self) -> bool {
        self.files matches Some(files) ==> forall|i: int|
            0 <= i < files.len() && self.contents.contains_key(files[i])
                ==> self.contents[#[trigger] files[i]].uri == files[i]
    }

    /// What is known once Zeek's prefixes are: they, and that no document is served yet.
    pub open spec fn initialized(self, prefixes: Seq<PathBuf>) -> DatabaseView {
        DatabaseView { prefixes: Some(prefixes), files: Some(Seq::empty()), ..self }
    }

    /// What is known with another content of a document.
    pub open spec fn with_file(self, uri: Seq<char>, file: FileView) -> DatabaseView {
        DatabaseView { contents: self.contents.insert(uri, file), ..self }
    }

    /// What is known with a document listed.
    pub open spec fn listing(self, uri: Seq<char>) -> DatabaseView {
        DatabaseView {
            files: match self.files {
                Some(files) => Some(
                    if files.contains(uri) {
                        files
                    } else {
                        files.push(uri)
                    },
                ),
                None => None,
            },
            ..self
        }
    }

    /// The text of a document, if it is known.
    pub open spec fn text_of(self, uri: Seq<char>) -> Option<Seq<char>> {
        if self.contents.contains_key(uri) {
            Some(self.contents[uri].source)
        } else {
            None
        }
    }

    /// What is known once a document has been seen with a text: the document is served, and the
    /// text is its content.
    pub open spec fn serving(self, uri: Seq<char>, source: Seq<char>) -> DatabaseView {
        self.with_file(uri, FileView { uri, source }).listing(uri)
    }
}

/// The inputs of the server besides the documents themselves.
pub trait ServerState: Parse {
    /// The prefixes of Zeek's own files, once they are known.
    spec fn known_prefixes(&self) -> Option<Seq<PathBuf>>;

    /// The URIs of the documents that are served, once the server is initialized.
    spec fn known_files(&self) -> Option<Seq<Seq<char>>>;

    /// Returns the prefixes of Zeek's own files.
    fn prefixes(&self) -> (prefixes: &Vec<PathBuf>)
        requires
            self.known_prefixes() is Some,
        ensures
            Some(prefixes@) == self.known_prefixes(),
    ;

    /// Returns the URIs of the documents that are served.
    fn files(&self) -> (files: &Vec<String>)
        requires
            self.known_files() is Some,
        ensures
            Some(crate::text::text_views(files@)) == self.known_files(),
    ;
}

impl ServerState for Database {
    open spec fn known_prefixes(&self) -> Option<Seq<PathBuf>> {
        self@.prefixes
    }

    open spec fn known_files(&self) -> Option<Seq<Seq<char>>> {
        self@.files
    }

    fn prefixes(&self) -> (prefixes: &Vec<PathBuf>) {
        self.prefixes.as_ref().unwrap()
    }

    fn files(&self) -> (files: &Vec<String>) {
        self.files.as_ref().unwrap()
    }
}

impl Default for Database {
    fn default() -> (database: Self)
        ensures
            database@ == DatabaseView::empty(),
            database@.consistent(),
            database@.carries_uris(),
    {
        let database = Database { prefixes: None, files: None, contents: StringHashMap::new() };
        assert(database@ =~= DatabaseView::empty());
        database
    }
}

/// A change of a document, as a client reports it.
#[derive(Debug)]
pub struct ContentChange {
    /// The range that changed, or nothing if the whole document did.
    pub range: Option<Range>,
    pub text: String,
}

/// Returns whether `uris` holds `uri`.
fn holds(uris: &Vec<String>, uri: &String) -> (held: bool)
    ensures
        held == crate::text::text_views(uris@).contains(uri@),
{
    for i in 0..uris.len()
        invariant
            forall|j: int| 0 <= j < i ==> crate::text::text_views(uris@)[j] != uri@,
    {
        if uris[i] == *uri {
            assert(crate::text::text_views(uris@)[i as int] == uri@);
            return true;
        }
    }
    false
}

impl Database {
    /// Returns whether Zeek's prefixes are known, and with them which documents are served.
    pub fn is_initialized(&self) -> (initialized: bool)
        ensures
            initialized == (self@.files is Some),
    {
        self.files.is_some()
    }

    /// Returns whether the content of a document is known.
    pub fn knows(&self, uri: &str) -> (known: bool)
        ensures
            known == self@.contents.contains_key(uri@),
    {
        self.contents.contains_key(uri)
    }

    /// Returns a document.
    pub fn file(&self, uri: &str) -> (file: &File)
        requires
            self@.contents.contains_key(uri@),
        ensures
            file@ == self@.contents[uri@],
    {
        self.contents.get(uri).unwrap()
    }

    /// Sets the content of a document.
    pub fn set_file(&mut self, uri: String, file: File)
        ensures
            final(self)@ == old(self)@.with_file(uri@, file@),
            old(self)@.consistent() ==> final(self)@.consistent(),
            old(self)@.carries_uris() && file@.uri == uri@ ==> final(self)@.carries_uris(),
    {
        let ghost before = self@;
        self.contents.insert(uri, file);
        assert(self@ =~= before.with_file(uri@, file@));
    }

    /// Lists a document among those that are served.
    fn list(&mut self, uri: String)
        requires
            old(self)@.files is Some,
        ensures
            final(self)@ == old(self)@.listing(uri@),
    {
        let ghost before = self@;
        let mut listed = self.files.take().unwrap();
        let ghost uris = crate::text::text_views(listed@);
        if !holds(&listed, &uri) {
            listed.push(uri);
            assert(crate::text::text_views(listed@) =~= uris.push(uri@));
        }
        self.files = Some(listed);
        assert(self@ =~= before.listing(uri@));
    }

    /// Sets the prefixes of Zeek's own files and forgets which documents are served. Does nothing
    /// if the prefixes could not be learned.
    pub fn initialize(&mut self, prefixes: Option<Vec<PathBuf>>)
        ensures
            final(self)@ == (match prefixes {
                Some(prefixes) => old(self)@.initialized(prefixes@),
                None => old(self)@,
            }),
            old(self)@.consistent() ==> final(self)@.consistent(),
            old(self)@.carries_uris() ==> final(self)@.carries_uris(),
    {
        let ghost before = self@;
        match prefixes {
            Some(prefixes) => {
                self.prefixes = Some(prefixes);
                self.files = Some(Vec::new());
                assert(self@.files->0 =~= Seq::empty());
                assert(self@ =~= before.initialized(prefixes@));
            },
            None => {},
        }
    }

    /// Takes the text of a document that a client has opened.
    pub fn did_open(&mut self, uri: String, source: String)
        requires
            old(self)@.files is Some,
        ensures
            final(self)@ == old(self)@.serving(uri@, source@),
            old(self)@.consistent() ==> final(self)@.consistent(),
            old(self)@.carries_uris() ==> final(self)@.carries_uris(),
    {
        let ghost before = self@;
        let file = File { uri: uri.clone(), source };
        self.set_file(uri.clone(), file);
        self.list(uri);
        proof {
            if before.consistent() {
                law_serving_keeps_consistent(before, uri@, source@);
            }
            if before.carries_uris() {
                law_listed_documents_carry_their_uri(before, uri@, source@);
            }
        }
    }

    /// Takes the new text of a document that a client has changed. Only one change is expected,
    /// and that it replaces the whole document.
    pub fn did_change(&mut self, uri: String, changes: &Vec<ContentChange>)
        requires
            old(self)@.files is Some,
            changes@.len() == 1,
            changes@[0].range is None,
        ensures
            final(self)@ == old(self)@.serving(uri@, changes@[0].text@),
            old(self)@.consistent() ==> final(self)@.consistent(),
            old(self)@.carries_uris() ==> final(self)@.carries_uris(),
    {
        self.did_open(uri, changes[0].text.clone());
    }
}

impl Parse for Database {
    open spec fn text_of(&self, file: Seq<char>) -> Option<Seq<char>> {
        self@.text_of(file)
    }

    fn parse(&self, grammar: &Grammar, file: &str) -> (tree: Option<Tree>) {
        Tree::new(grammar, self.file(file).source.as_str())
    }
}

/// Serving a document keeps every document listed at most once and with a known content.
pub proof fn law_serving_keeps_consistent(
    database: DatabaseView,
    uri: Seq<char>,
    source: Seq<char>,
)
    requires
        database.consistent(),
    ensures
        database.serving(uri, source).consistent(),
{
    if database.files is Some {
        let before = database.files->0;
        let after = database.serving(uri, source).files->0;
        assert forall|i: int| 0 <= i < after.len() implies database.serving(
            uri,
            source,
        ).contents.contains_key(#[trigger] after[i]) by {
            if i < before.len() {
                assert(after[i] == before[i]);
            }
        }
    }
}

/// Serving a document keeps every listed document with the URI that it is listed by.
pub proof fn law_listed_documents_carry_their_uri(
    database: DatabaseView,
    uri: Seq<char>,
    source: Seq<char>,
)
    requires
        database.carries_uris(),
    ensures
        database.serving(uri, source).carries_uris(),
{
    if database.files is Some {
        let before = database.files->0;
        let after = database.serving(uri, source);
        assert forall|i: int|
            0 <= i < after.files->0.len() && after.contents.contains_key(
                after.files->0[i],
            ) implies after.contents[#[trigger] after.files->0[i]].uri == after.files->0[i] by {
            if i < before.len() {
                assert(after.files->0[i] == before[i]);
                if before[i] != uri {
                    assert(database.contents.contains_key(before[i]));
                }
            }
        }
    }
}

/// A document that is served has the text with which it was last seen. It is listed, and it is
/// known by its own URI.
pub proof fn law_text_is_read_back(database: DatabaseView, uri: Seq<char>, source: Seq<char>)
    ensures
        database.serving(uri, source).text_of(uri) == Some(source),
        database.serving(uri, source).contents.contains_key(uri),
        database.serving(uri, source).contents[uri].source == source,
        database.serving(uri, source).contents[uri].uri == uri,
        database.files is Some ==> database.serving(uri, source).files is Some && database.serving(
            uri,
            source,
        ).files->0.contains(uri),
{
    if database.files is Some && !database.files->0.contains(uri) {
        let files = database.serving(uri, source).files->0;
        assert(files[files.len() - 1] == uri);
    }
}

/// Serving a document changes no other one, neither its text nor whether it is listed, and leaves
/// Zeek's prefixes alone.
pub proof fn law_other_documents_stay(
    database: DatabaseView,
    uri: Seq<char>,
    source: Seq<char>,
    other: Seq<char>,
)
    requires
        other != uri,
    ensures
        database.serving(uri, source).text_of(other) == database.text_of(other),
        database.serving(uri, source).contents.contains_key(other)
            == database.contents.contains_key(other),
        database.serving(uri, source).contents[other] == database.contents[other],
        database.serving(uri, source).prefixes == database.prefixes,
        database.files is Some ==> (database.serving(uri, source).files->0.contains(other)
            <==> database.files->0.contains(other)),
{
    if database.files is Some {
        let before = database.files->0;
        let after = database.serving(uri, source).files->0;
        if before.contains(other) {
            assert(after[before.index_of(other)] == other);
        }
        if after.contains(other) {
            assert(before[after.index_of(other)] == other);
        }
    }
}

/// Of two texts of one document the later one counts, and nothing of the earlier one stays.
pub proof fn law_last_text_counts(
    database: DatabaseView,
    uri: Seq<char>,
    first: Seq<char>,
    second: Seq<char>,
)
    ensures
        database.serving(uri, first).serving(uri, second) == database.serving(uri, second),
{
    law_text_is_read_back(database, uri, first);
    assert(database.serving(uri, first).serving(uri, second) =~= database.serving(uri, second));
}

/// The texts of two documents do not depend on which of them was seen first.
pub proof fn law_documents_are_independent(
    database: DatabaseView,
    one: Seq<char>,
    first: Seq<char>,
    other: Seq<char>,
    second: Seq<char>,
)
    requires
        one != other,
    ensures
        database.serving(one, first).serving(other, second).contents == database.serving(
            other,
            second,
        ).serving(one, first).contents,
{
    assert(database.serving(one, first).serving(other, second).contents =~= database.serving(
        other,
        second,
    ).serving(one, first).contents);
}

/// An initialized server serves no document, but knows the texts that it knew before.
pub proof fn law_initialized_server_serves_nothing(
    database: DatabaseView,
    prefixes: Seq<PathBuf>,
    uri: Seq<char>,
)
    ensures
        database.initialized(prefixes).consistent(),
        database.initialized(prefixes).prefixes == Some(prefixes),
        database.initialized(prefixes).files is Some,
        database.initialized(prefixes).files->0.len() == 0,
        database.initialized(prefixes).contents == database.contents,
        !database.initialized(prefixes).files->0.contains(uri),
        database.initialized(prefixes).text_of(uri) == database.text_of(uri),
{
}

/// A new server has no prefixes, is not initialized, and knows no document.
pub proof fn law_new_server_knows_nothing(uri: Seq<char>)
    ensures
        DatabaseView::empty().prefixes is None,
        DatabaseView::empty().files is None,
        !DatabaseView::empty().contents.contains_key(uri),
        DatabaseView::empty().text_of(uri) is None,
{
}

/// The text of a document is known exactly if the document is, and it is the document's own. What
/// is parsed is that text, and what else is asked for is what is known.
pub proof fn law_database_tells_what_it_knows(database: Database, uri: Seq<char>)
    ensures
        database@.text_of(uri) is Some <==> database@.contents.contains_key(uri),
        database@.text_of(uri) matches Some(text) ==> text == database@.contents[uri].source,
        Parse::text_of(&database, uri) is Some <==> database@.contents.contains_key(uri),
        Parse::text_of(&database, uri) matches Some(text) ==> text
            == database@.contents[uri].source,
        database.known_prefixes() == database@.prefixes,
        database.known_files() == database@.files,
{
}

/// Setting a document sets that one and changes nothing else, not even what is listed.
pub proof fn law_set_document_is_read_back(
    database: DatabaseView,
    uri: Seq<char>,
    file: FileView,
    other: Seq<char>,
)
    ensures
        database.with_file(uri, file).contents.contains_key(uri),
        database.with_file(uri, file).contents[uri] == file,
        other != uri ==> {
            &&& database.with_file(uri, file).contents.contains_key(other)
                == database.contents.contains_key(other)
            &&& database.with_file(uri, file).contents[other] == database.contents[other]
        },
        database.with_file(uri, file).files == database.files,
        database.with_file(uri, file).prefixes == database.prefixes,
{
}

/// Listing a document keeps the list as it is and adds the document at its end, unless it is listed
/// already. Nothing else changes, and before the server is initialized nothing is listed.
pub proof fn law_documents_are_listed_once(database: DatabaseView, uri: Seq<char>)
    ensures
        database.listing(uri).contents == database.contents,
        database.listing(uri).prefixes == database.prefixes,
        database.listing(uri).files is Some <==> database.files is Some,
        database.files matches Some(files) ==> {
            &&& files.is_prefix_of(database.listing(uri).files->0)
            &&& database.listing(uri).files->0.contains(uri)
            &&& files.contains(uri) ==> database.listing(uri).files->0 == files
            &&& !files.contains(uri) ==> {
                &&& database.listing(uri).files->0.len() == files.len() + 1
                &&& database.listing(uri).files->0.last() == uri
            }
        },
{
    if database.files is Some {
        let files = database.files->0;
        let listed = database.listing(uri).files->0;
        assert(files =~= listed.take(files.len() as int));
        if !files.contains(uri) {
            assert(listed[files.len() as int] == uri);
        }
    }
}

/// Serving a document keeps the list as it is and adds the document at its end, unless it is listed
/// already. A server that is not initialized stays so.
pub proof fn law_served_documents_keep_their_order(
    database: DatabaseView,
    uri: Seq<char>,
    source: Seq<char>,
)
    ensures
        database.serving(uri, source).files is Some <==> database.files is Some,
        database.files matches Some(files) ==> {
            &&& files.is_prefix_of(database.serving(uri, source).files->0)
            &&& files.contains(uri) ==> database.serving(uri, source).files->0 == files
            &&& !files.contains(uri) ==> {
                &&& database.serving(uri, source).files->0.len() == files.len() + 1
                &&& database.serving(uri, source).files->0.last() == uri
            }
        },
{
    law_documents_are_listed_once(
        database.with_file(uri, FileView { uri, source }),
        uri,
    );
}

/// In a consistent server no document is listed twice and every listed one is known. If listed
/// documents carry their URI, what is known of one has the URI that it is listed by.
pub proof fn law_listed_documents_are_known(database: DatabaseView, i: int, j: int)
    requires
        database.files is Some,
        database.consistent(),
        0 <= i < database.files->0.len(),
        0 <= j < database.files->0.len(),
    ensures
        database.files->0[i] == database.files->0[j] <==> i == j,
        database.contents.contains_key(database.files->0[i]),
        database.carries_uris() ==> database.contents[database.files->0[i]].uri
            == database.files->0[i],
{
}

/// A document is seen with its URI and its text.
pub proof fn law_document_is_seen_whole(file: File)
    ensures
        file@.uri == file.uri@,
        file@.source == file.source@,
{
}

} // verus!
