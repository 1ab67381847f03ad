//! What an installation of Zeek tells about itself: the directories in which it looks for scripts,
//! as `zeek-config` prints them, and the scripts found below those directories.

use crate::paths::{path_extension, path_from_text};
use crate::text::{describe_utf8_error, first_line};
use std::path::PathBuf;
use vstd::prelude::*;

verus! {

/// A directory that Zeek can be asked for.
#[derive(Copy, Debug, Clone, PartialEq, Eq, Structural)]
pub enum ZeekDir {
    ScriptDir,
    PluginDir,
    SiteDir,
}

/// Why a directory could not be learned from Zeek.
#[derive(Debug)]
pub enum ZeekError {
    /// `zeek-config` could not be run; holds what the system said.
    Command(String),
    /// `zeek-config` printed something that is not UTF-8.
    NotUtf8(std::str::Utf8Error),
    /// `zeek-config` printed nothing.
    NoOutput,
}

/// The argument with which `zeek-config` prints a directory.
pub open spec fn dir_flag(dir: ZeekDir) -> Seq<char> {
    match dir {
        ZeekDir::ScriptDir => "--script_dir"@,
        ZeekDir::PluginDir => "--plugin_dir"@,
        ZeekDir::SiteDir => "--site_dir"@,
    }
}

/// The message of an error.
pub open spec fn error_message(error: ZeekError) -> Seq<char> {
    match error {
        ZeekError::Command(message) => message@,
        ZeekError::NotUtf8(error) => crate::text::utf8_error_text(error),
        ZeekError::NoOutput => "'zeek-config --script_dir' returned no output"@,
    }
}

impl ZeekDir {
    /// Returns the argument with which `zeek-config` prints this directory.
    pub fn flag(self) -> (flag: &'static str)
        ensures
            flag@ == dir_flag(self),
    {
        match self {
            ZeekDir::ScriptDir => "--script_dir",
            ZeekDir::PluginDir => "--plugin_dir",
            ZeekDir::SiteDir => "--site_dir",
        }
    }
}

impl ZeekError {
    /// Returns the message of this error.
    pub fn message(&self) -> (message: String)
        ensures
            message@ == error_message(*self),
    {
        match self {
            ZeekError::Command(message) => message.clone(),
            ZeekError::NotUtf8(error) => describe_utf8_error(error),
            ZeekError::NoOutput => "'zeek-config --script_dir' returned no output".to_owned(),
        }
    }
}

/// What the output of `zeek-config` says.
pub ghost enum DirLine {
    /// The first line of the output.
    Line(Seq<char>),
    /// The output is not UTF-8, for this reason.
    NotUtf8(std::str::Utf8Error),
    /// The output is empty.
    Missing,
}

/// The first line of what `zeek-config` printed.
pub open spec fn dir_line(output: Seq<u8>) -> DirLine {
    if vstd::utf8::valid_utf8(output) {
        match crate::text::first_line_of(vstd::utf8::decode_utf8(output)) {
            Some(line) => DirLine::Line(line),
            None => DirLine::Missing,
        }
    } else {
        DirLine::NotUtf8(crate::text::utf8_error(output))
    }
}

/// Returns the directory that `zeek-config` printed.
///
/// # Errors
///
/// Returns `Err` if the output is not UTF-8, or if it is empty.
pub fn dir(output: &[u8]) -> (dir: Result<PathBuf, ZeekError>)
    ensures
        match dir_line(output@) {
            DirLine::Line(line) => dir matches Ok(path) && crate::paths::path_text(path) == Some(
                line,
            ),
            DirLine::NotUtf8(error) => dir == Err::<PathBuf, _>(ZeekError::NotUtf8(error)),
            DirLine::Missing => dir == Err::<PathBuf, _>(ZeekError::NoOutput),
        },
{
    match std::str::from_utf8(output) {
        Ok(text) => match first_line(text) {
            Some(line) => Ok(path_from_text(line.as_str())),
            None => Err(ZeekError::NoOutput),
        },
        Err(error) => Err(ZeekError::NotUtf8(error)),
    }
}

/// The directories below which Zeek's files are found, in the order in which they are asked for.
pub open spec fn prefix_dirs() -> Seq<ZeekDir> {
    seq![ZeekDir::ScriptDir, ZeekDir::PluginDir, ZeekDir::SiteDir]
}

/// How far asking Zeek for its prefixes has come.
#[derive(Debug)]
pub enum PrefixQuery {
    /// The prefixes found so far; the next one is to be asked for.
    Asking(Vec<PathBuf>),
    /// All prefixes, or the error that ended the search.
    Finished(Result<Vec<PathBuf>, ZeekError>),
}

impl PrefixQuery {
    /// A search that goes on still lacks a prefix, and one that succeeded has them all.
    pub open spec fn wf(self) -> bool {
        match self {
            PrefixQuery::Asking(found) => found@.len() < prefix_dirs().len(),
            PrefixQuery::Finished(Ok(found)) => found@.len() == prefix_dirs().len(),
            PrefixQuery::Finished(Err(_)) => true,
        }
    }

    /// The prefixes found so far.
    pub open spec fn found(self) -> Seq<PathBuf> {
        match self {
            PrefixQuery::Asking(found) => found@,
            PrefixQuery::Finished(Ok(found)) => found@,
            PrefixQuery::Finished(Err(_)) => Seq::empty(),
        }
    }

    /// Whether `next` is what becomes of this search when `zeek-config` is answered by `reply`,
    /// which is what it printed or why it could not be run: the first error ends the search, and
    /// so does the last directory.
    pub open spec fn replied(self, reply: Result<Seq<u8>, Seq<char>>, next: PrefixQuery) -> bool {
        match reply {
            Err(message) => next matches PrefixQuery::Finished(Err(ZeekError::Command(m))) && m@
                == message,
            Ok(output) => match dir_line(output) {
                DirLine::NotUtf8(error) => next == PrefixQuery::Finished(
                    Err(ZeekError::NotUtf8(error)),
                ),
                DirLine::Missing => next == PrefixQuery::Finished(Err(ZeekError::NoOutput)),
                DirLine::Line(line) => self.extended(line, next),
            },
        }
    }

    /// Whether `next` is this search with one more directory, whose path has the text `line`.
    pub open spec fn extended(self, line: Seq<char>, next: PrefixQuery) -> bool {
        &&& next.found().len() == self.found().len() + 1
        &&& next.found().drop_last() == self.found()
        &&& crate::paths::path_text(next.found().last()) == Some(line)
        &&& if next.found().len() < prefix_dirs().len() {
            next is Asking
        } else {
            next matches PrefixQuery::Finished(Ok(_))
        }
    }

    /// Starts a search.
    pub fn new() -> (query: PrefixQuery)
        ensures
            query.wf(),
            query is Asking,
            query.found() == Seq::<PathBuf>::empty(),
    {
        PrefixQuery::Asking(Vec::new())
    }

    /// Returns the directory to ask for next, or nothing if the search is over.
    pub fn next_dir(&self) -> (dir: Option<ZeekDir>)
        requires
            self.wf(),
        ensures
            dir == (if self is Asking {
                Some(prefix_dirs()[self.found().len() as int])
            } else {
                None
            }),
    {
        match self {
            PrefixQuery::Asking(found) => {
                let asked: usize = found.len();
                if asked == 0 {
                    Some(ZeekDir::ScriptDir)
                } else if asked == 1 {
                    Some(ZeekDir::PluginDir)
                } else {
                    Some(ZeekDir::SiteDir)
                }
            },
            PrefixQuery::Finished(_) => None,
        }
    }

    /// Takes what came of running `zeek-config` for the directory that was to be asked for: what
    /// it printed, or why it could not be run.
    pub fn reply(self, reply: Result<Vec<u8>, String>) -> (next: PrefixQuery)
        requires
            self.wf(),
            self is Asking,
        ensures
            next.wf(),
            self.replied(reply_view(reply), next),
    {
        let ghost before = self.found();
        let mut found: Vec<PathBuf> = match self {
            PrefixQuery::Asking(found) => found,
            PrefixQuery::Finished(_) => Vec::new(),
        };
        match reply {
            Err(message) => PrefixQuery::Finished(Err(ZeekError::Command(message))),
            Ok(output) => match dir(output.as_slice()) {
                Err(error) => PrefixQuery::Finished(Err(error)),
                Ok(path) => {
                    found.push(path);
                    assert(found@.drop_last() =~= before);
                    if found.len() < 3 {
                        PrefixQuery::Asking(found)
                    } else {
                        PrefixQuery::Finished(Ok(found))
                    }
                },
            },
        }
    }
}

/// A reply of `zeek-config` in mathematical terms.
pub open spec fn reply_view(reply: Result<Vec<u8>, String>) -> Result<Seq<u8>, Seq<char>> {
    match reply {
        Ok(output) => Ok(output@),
        Err(message) => Err(message@),
    }
}

/// A script of Zeek's installation.
#[derive(Debug, PartialEq)]
pub struct SystemFile {
    /// Full path of the file.
    pub path: PathBuf,
    /// Prefix under which the file was discovered.
    pub prefix: PathBuf,
}

impl SystemFile {
    pub fn new(path: PathBuf, prefix: PathBuf) -> (file: Self)
        ensures
            file == (SystemFile { path, prefix }),
    {
        Self { path, prefix }
    }
}

/// Something found while walking a directory.
#[derive(Debug)]
pub struct WalkedEntry {
    /// Full path of the entry.
    pub path: PathBuf,
    /// Whether the entry is a directory.
    pub is_dir: bool,
}

/// A prefix and what walking it met, in order. An entry that could not be read is missing.
#[derive(Debug)]
pub struct WalkedPrefix {
    pub dir: PathBuf,
    pub entries: Vec<Option<WalkedEntry>>,
}

/// The extension of Zeek's scripts: `zeek`.
pub open spec fn script_extension() -> Seq<u8> {
    seq!['z' as u8, 'e' as u8, 'e' as u8, 'k' as u8]
}

/// Whether a walked entry is a script: no directory, and with the extension of scripts.
pub open spec fn is_script(entry: WalkedEntry) -> bool {
    !entry.is_dir && crate::paths::extension_of(crate::paths::path_file_name(entry.path)) == Some(
        script_extension(),
    )
}

/// The system file that a walked entry stands for, if it does.
pub open spec fn system_file(prefix: PathBuf, entry: Option<WalkedEntry>) -> Option<SystemFile> {
    match entry {
        Some(entry) => if is_script(entry) {
            Some(SystemFile { path: entry.path, prefix })
        } else {
            None
        },
        None => None,
    }
}

/// The scripts below one prefix, in the order in which they were met.
pub open spec fn files_below(walked: WalkedPrefix) -> Seq<SystemFile> {
    walked.entries@.filter_map(|entry: Option<WalkedEntry>| system_file(walked.dir, entry))
}

/// The scripts below all prefixes, one prefix after the other.
pub open spec fn files_below_all(walked: Seq<WalkedPrefix>) -> Seq<SystemFile> {
    walked.map_values(|walked: WalkedPrefix| files_below(walked)).flatten()
}

/// Returns whether an entry with this extension is a script, given whether it is a directory.
pub fn has_script_extension(is_dir: bool, extension: &Option<Vec<u8>>) -> (script: bool)
    ensures
        script == (!is_dir && crate::paths::optional_bytes(*extension) == Some(script_extension())),
{
    match extension {
        Some(bytes) => {
            let script = bytes.len() == 4 && bytes[0] == 'z' as u8 && bytes[1] == 'e' as u8
                && bytes[2] == 'e' as u8 && bytes[3] == 'k' as u8;
            assert(script == (bytes@ =~= script_extension()));
            !is_dir && script
        },
        None => false,
    }
}

/// Adds the scripts below one prefix to `files`.
fn add_files_below(files: &mut Vec<SystemFile>, walked: &WalkedPrefix)
    ensures
        final(files)@ == old(files)@ + files_below(*walked),
{
    let ghost before = files@;
    let ghost entries = walked.entries@;
    let ghost file = |entry: Option<WalkedEntry>| system_file(walked.dir, entry);
    for i in 0..walked.entries.len()
        invariant
            entries == walked.entries@,
            file == (|entry: Option<WalkedEntry>| system_file(walked.dir, entry)),
            files@ == before + entries.take(i as int).filter_map(file),
    {
        proof {
            entries.lemma_filter_map_take_succ(file, i as int);
        }
        match &walked.entries[i] {
            Some(entry) => {
                if has_script_extension(entry.is_dir, &path_extension(&entry.path)) {
                    files.push(SystemFile::new(entry.path.clone(), walked.dir.clone()));
                }
            },
            None => {},
        }
        assert(files@ =~= before + entries.take(i + 1).filter_map(file));
    }
    assert(entries.take(entries.len() as int) =~= entries);
}

/// Returns the scripts found below all prefixes: every entry that could be read, is no directory
/// and has the extension of scripts, in the order in which it was met.
pub fn system_files(walked: &Vec<WalkedPrefix>) -> (files: Vec<SystemFile>)
    ensures
        files@ == files_below_all(walked@),
{
    let mut files: Vec<SystemFile> = Vec::new();
    let ghost lists = walked@.map_values(|walked: WalkedPrefix| files_below(walked));
    for i in 0..walked.len()
        invariant
            lists == walked@.map_values(|walked: WalkedPrefix| files_below(walked)),
            files@ == lists.take(i as int).flatten(),
    {
        add_files_below(&mut files, &walked[i]);
        proof {
            crate::seqs::lemma_flatten_take(lists, i as int);
        }
    }
    assert(lists.take(lists.len() as int) =~= lists);
    files
}

/// Three outputs that each hold a line make up the prefixes: the paths of those lines, in the
/// order in which the directories were asked for.
pub proof fn law_prefixes_in_order(
    queries: Seq<PrefixQuery>,
    outputs: Seq<Seq<u8>>,
    lines: Seq<Seq<char>>,
)
    requires
        queries.len() == prefix_dirs().len() + 1,
        outputs.len() == prefix_dirs().len(),
        lines.len() == prefix_dirs().len(),
        queries[0] is Asking,
        queries[0].found() == Seq::<PathBuf>::empty(),
        forall|i: int|
            0 <= i < outputs.len() ==> dir_line(#[trigger] outputs[i]) == DirLine::Line(lines[i]),
        forall|i: int|
            0 <= i < outputs.len() ==> queries[i].replied(
                Ok(#[trigger] outputs[i]),
                queries[i + 1],
            ),
    ensures
        forall|i: int| 0 <= i < outputs.len() ==> #[trigger] queries[i] is Asking,
        queries.last() matches PrefixQuery::Finished(Ok(prefixes)) && {
            &&& prefixes@.len() == prefix_dirs().len()
            &&& forall|i: int|
                0 <= i < prefixes@.len() ==> crate::paths::path_text(#[trigger] prefixes@[i])
                    == Some(lines[i])
        },
{
    assert(queries[0].extended(lines[0], queries[1])) by {
        assert(dir_line(outputs[0]) == DirLine::Line(lines[0]));
    }
    assert(queries[1].extended(lines[1], queries[2])) by {
        assert(dir_line(outputs[1]) == DirLine::Line(lines[1]));
    }
    assert(queries[2].extended(lines[2], queries[3])) by {
        assert(dir_line(outputs[2]) == DirLine::Line(lines[2]));
    }
    let found = queries[3].found();
    assert(queries[2].found() == found.drop_last());
    assert(queries[1].found() == queries[2].found().drop_last());
    assert(found[1] == queries[2].found().last());
    assert(found[0] == queries[1].found().last());
}

/// A reply without a line ends the search with an error, so no further directory is asked for.
pub proof fn law_error_ends_search(
    query: PrefixQuery,
    reply: Result<Seq<u8>, Seq<char>>,
    next: PrefixQuery,
)
    requires
        query.replied(reply, next),
        reply matches Ok(output) ==> dir_line(output) !is Line,
    ensures
        next matches PrefixQuery::Finished(Err(_)),
{
}

/// Every system file was met below its prefix, is no directory and has the extension of scripts.
pub proof fn law_system_files_are_scripts(walked: Seq<WalkedPrefix>, file: SystemFile)
    requires
        files_below_all(walked).contains(file),
    ensures
        exists|i: int, entry: WalkedEntry|
            0 <= i < walked.len() && #[trigger] walked[i].entries@.contains(Some(entry))
                && is_script(entry) && file == (SystemFile {
                path: entry.path,
                prefix: walked[i].dir,
            }),
{
    let lists = walked.map_values(|walked: WalkedPrefix| files_below(walked));
    crate::seqs::lemma_flatten_contains(lists, file);
    let i = choose|i: int| 0 <= i < lists.len() && #[trigger] lists[i].contains(file);
    let f = |entry: Option<WalkedEntry>| system_file(walked[i].dir, entry);
    assert(lists[i] == walked[i].entries@.filter_map(f));
    walked[i].entries@.lemma_filter_map_contains(f, file);
    let entry = choose|entry: Option<WalkedEntry>| #[trigger]
        walked[i].entries@.contains(entry) && f(entry) == Some(file);
    assert(walked[i].entries@.contains(Some(entry->0)));
}

/// Every script that was met is among the system files, with the prefix below which it was met.
pub proof fn law_scripts_are_system_files(walked: Seq<WalkedPrefix>, i: int, j: int)
    requires
        0 <= i < walked.len(),
        0 <= j < walked[i].entries@.len(),
        walked[i].entries@[j] matches Some(entry) && is_script(entry),
    ensures
        files_below_all(walked).contains(
            SystemFile { path: walked[i].entries@[j]->0.path, prefix: walked[i].dir },
        ),
{
    let lists = walked.map_values(|walked: WalkedPrefix| files_below(walked));
    let file = SystemFile { path: walked[i].entries@[j]->0.path, prefix: walked[i].dir };
    let f = |entry: Option<WalkedEntry>| system_file(walked[i].dir, entry);
    crate::seqs::lemma_filter_map_holds(walked[i].entries@, f, j);
    assert(lists[i].contains(file));
    crate::seqs::lemma_flatten_contains(lists, file);
}

/// The script that Zeek loads first, below one of its prefixes.
pub fn init_script_filename() -> (name: &'static str)
    ensures
        name@ == "base/init-default.zeek"@,
{
    "base/init-default.zeek"
}

/// Zeek is asked for its scripts, then for its plugins, then for its site, and each directory has
/// an argument of its own.
pub proof fn law_directories_are_asked_for_in_order(dir: ZeekDir)
    ensures
        prefix_dirs().len() == 3,
        prefix_dirs()[0] == ZeekDir::ScriptDir,
        prefix_dirs()[1] == ZeekDir::PluginDir,
        prefix_dirs()[2] == ZeekDir::SiteDir,
        dir_flag(dir) == "--script_dir"@ <==> dir == ZeekDir::ScriptDir,
        dir_flag(dir) == "--plugin_dir"@ <==> dir == ZeekDir::PluginDir,
        dir_flag(dir) == "--site_dir"@ <==> dir == ZeekDir::SiteDir,
{
    reveal_strlit("--script_dir");
    reveal_strlit("--plugin_dir");
    reveal_strlit("--site_dir");
    assert("--script_dir"@[2] == 's');
    assert("--plugin_dir"@[2] == 'p');
    assert("--site_dir"@[2] == 's');
    assert("--script_dir"@.len() != "--site_dir"@.len());
}

/// An error says what the system said, what is wrong with the output, or that there was none.
pub proof fn law_errors_say_what_went_wrong(error: ZeekError)
    ensures
        error matches ZeekError::Command(said) ==> error_message(error) == said@,
        error matches ZeekError::NotUtf8(wrong) ==> error_message(error)
            == crate::text::utf8_error_text(wrong),
        error is NoOutput ==> error_message(error)
            == "'zeek-config --script_dir' returned no output"@,
{
}

/// What is read from an output is its first line, without the line feed, or the carriage return
/// and the line feed, behind it. An output of one line need not have either.
pub proof fn law_first_printed_line_is_read(line: Seq<char>, rest: Seq<char>)
    requires
        !line.contains('\n'),
    ensures
        line.len() > 0 ==> dir_line(vstd::utf8::encode_utf8(line)) == DirLine::Line(line),
        line.len() == 0 || line.last() != '\r' ==> dir_line(
            vstd::utf8::encode_utf8(line + seq!['\n'] + rest),
        ) == DirLine::Line(line),
        dir_line(vstd::utf8::encode_utf8(line + seq!['\r', '\n'] + rest)) == DirLine::Line(line),
{
    broadcast use vstd::utf8::encode_utf8_valid_utf8, vstd::utf8::encode_utf8_decode_utf8;

    crate::text::law_line_is_cut_at_its_ending(line, rest);
    if line.len() > 0 {
        crate::text::law_text_of_one_line(line);
    }
}

/// There is no line exactly if nothing was printed or what was printed is not UTF-8.
pub proof fn law_only_some_outputs_have_no_line(output: Seq<u8>)
    ensures
        dir_line(output) is Missing <==> output.len() == 0,
        dir_line(output) is NotUtf8 <==> !vstd::utf8::valid_utf8(output),
        dir_line(output) matches DirLine::NotUtf8(error) ==> error == crate::text::utf8_error(
            output,
        ),
{
    reveal_with_fuel(vstd::utf8::valid_utf8, 2);
    reveal_with_fuel(vstd::utf8::encode_utf8, 2);
    if vstd::utf8::valid_utf8(output) {
        let text = vstd::utf8::decode_utf8(output);
        vstd::utf8::decode_utf8_encode_utf8(output);
        crate::text::law_only_empty_text_has_no_line(text);
        if output.len() == 0 && text.len() > 0 {
            vstd::utf8::encode_utf8_first_scalar(text);
        }
    }
}

/// If `zeek-config` could not be run, the search is over with what the system said. If it printed
/// nothing, or something that is not UTF-8, the search is over with that error.
pub proof fn law_failed_replies_end_the_search(
    query: PrefixQuery,
    reply: Result<Seq<u8>, Seq<char>>,
    next: PrefixQuery,
)
    requires
        query.replied(reply, next),
    ensures
        reply matches Err(said) ==> (next matches PrefixQuery::Finished(Err(error)) && (error
            matches ZeekError::Command(message) && message@ == said)),
        reply matches Ok(output) ==> {
            &&& !vstd::utf8::valid_utf8(output) ==> next == PrefixQuery::Finished(
                Err(ZeekError::NotUtf8(crate::text::utf8_error(output))),
            )
            &&& output.len() == 0 ==> next == PrefixQuery::Finished(Err(ZeekError::NoOutput))
        },
{
    if let Ok(output) = reply {
        law_only_some_outputs_have_no_line(output);
    }
}

/// If `zeek-config` printed a line, its path is found behind those found before, and the search
/// goes on until there are three.
pub proof fn law_printed_paths_are_found(
    query: PrefixQuery,
    output: Seq<u8>,
    line: Seq<char>,
    next: PrefixQuery,
)
    requires
        query is Asking,
        query.wf(),
        dir_line(output) == DirLine::Line(line),
        query.replied(Ok(output), next),
    ensures
        query->Asking_0@.len() < 2 ==> (next matches PrefixQuery::Asking(found) && {
            &&& found@.len() == query->Asking_0@.len() + 1
            &&& found@.drop_last() == query->Asking_0@
            &&& crate::paths::path_text(found@.last()) == Some(line)
        }),
        query->Asking_0@.len() >= 2 ==> (next matches PrefixQuery::Finished(Ok(found)) && {
            &&& found@.len() == 3
            &&& found@.drop_last() == query->Asking_0@
            &&& crate::paths::path_text(found@.last()) == Some(line)
        }),
{
}

/// While a search goes on it has found fewer than three paths, and one that succeeded has three.
pub proof fn law_search_needs_three_paths(query: PrefixQuery)
    ensures
        query matches PrefixQuery::Asking(found) ==> (query.wf() <==> found@.len() < 3)
            && query.found() == found@,
        query matches PrefixQuery::Finished(Ok(found)) ==> (query.wf() <==> found@.len() == 3)
            && query.found() == found@,
        query matches PrefixQuery::Finished(Err(_)) ==> query.wf() && query.found().len() == 0,
{
}

/// A walked entry is a script exactly if it is no directory and its name is something and then
/// `.zeek`.
pub proof fn law_names_of_scripts(entry: WalkedEntry)
    ensures
        ({
            let name = crate::paths::path_file_name(entry.path);
            let ending = seq!['.' as u8, 'z' as u8, 'e' as u8, 'e' as u8, 'k' as u8];
            is_script(entry) <==> {
                &&& !entry.is_dir
                &&& name is Some
                &&& name->0.len() > 5
                &&& name->0.skip(name->0.len() - 5) == ending
            }
        }),
{
    let extension = seq!['z' as u8, 'e' as u8, 'e' as u8, 'k' as u8];
    let ending = seq!['.' as u8, 'z' as u8, 'e' as u8, 'e' as u8, 'k' as u8];
    if let Some(name) = crate::paths::path_file_name(entry.path) {
        if is_script(entry) {
            crate::paths::law_name_ends_with_its_extension(name);
            let stem = choose|stem: Seq<u8>|
                stem.len() > 0 && name == #[trigger] (stem + seq!['.' as u8]) + extension;
            assert(name.skip(name.len() - 5) =~= ending);
        }
        if name.len() > 5 && name.skip(name.len() - 5) == ending {
            let stem = name.take(name.len() - 5);
            assert(name =~= stem + ending);
            assert(stem + ending =~= stem + seq!['.' as u8] + extension);
            crate::paths::law_extension_follows_the_last_dot(stem, extension);
        }
    }
}

/// The extension of scripts has four letters.
pub proof fn law_extension_of_scripts(extension: Seq<u8>)
    ensures
        extension == script_extension() <==> extension == seq![
            'z' as u8,
            'e' as u8,
            'e' as u8,
            'k' as u8,
        ],
{
}

/// Meeting one entry more below a prefix adds a file behind the others if the entry could be read
/// and is a script, with the path of the entry and with the prefix, and adds nothing otherwise.
pub proof fn law_files_follow_the_walk(
    walked: WalkedPrefix,
    further: WalkedPrefix,
    entry: Option<WalkedEntry>,
)
    requires
        further.dir == walked.dir,
        further.entries@ == walked.entries@.push(entry),
    ensures
        entry matches Some(entry) && is_script(entry) ==> {
            &&& files_below(further).len() == files_below(walked).len() + 1
            &&& files_below(further).drop_last() == files_below(walked)
            &&& files_below(further).last().path == entry->0.path
            &&& files_below(further).last().prefix == walked.dir
        },
        entry is None || !is_script(entry->0) ==> files_below(further) == files_below(walked),
{
    assert(further.entries@.drop_last() =~= walked.entries@);
    assert(further.entries@.last() == entry);
    if entry is Some && is_script(entry->0) {
        assert(files_below(further).drop_last() =~= files_below(walked));
    }
}

/// Below a prefix where nothing was met there are no files, and without prefixes there are none.
pub proof fn law_no_files_without_entries(walked: WalkedPrefix)
    ensures
        walked.entries@.len() == 0 ==> files_below(walked).len() == 0,
        files_below_all(Seq::empty()).len() == 0,
{
}

/// The files below one prefix more come behind those below the others.
pub proof fn law_prefixes_are_walked_in_order(walked: Seq<WalkedPrefix>, further: WalkedPrefix)
    ensures
        files_below_all(walked.push(further)) == files_below_all(walked) + files_below(further),
{
    let lists = walked.map_values(|walked: WalkedPrefix| files_below(walked));
    assert(walked.push(further).map_values(|walked: WalkedPrefix| files_below(walked))
        =~= lists.push(files_below(further)));
    lists.lemma_flatten_push(files_below(further));
}

/// A reply is seen as what it is: what was printed, or what the system said.
pub proof fn law_reply_is_seen_whole(reply: Result<Vec<u8>, String>)
    ensures
        reply matches Ok(output) ==> reply_view(reply) == Ok::<Seq<u8>, Seq<char>>(output@),
        reply matches Err(message) ==> reply_view(reply) == Err::<Seq<u8>, Seq<char>>(message@),
{
}

} // verus!
