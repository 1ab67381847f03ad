//! File system paths as the library sees them: opaque values with a text, if they are Unicode,
//! and a file name.

use std::path::PathBuf;
use vstd::prelude::*;

verus! {

/// `std::path::PathBuf`: an owned path of the system, not necessarily Unicode.
#[verifier::external_type_specification]
#[verifier::external_body]
pub struct ExPathBuf(std::path::PathBuf);

/// The text of a path, or nothing if the path is not Unicode.
pub uninterp spec fn path_text(path: PathBuf) -> Option<Seq<char>>;

/// The encoded bytes of the last component of a path, or nothing if that is no normal component
/// (as in `/` or `..`).
pub uninterp spec fn path_file_name(path: PathBuf) -> Option<Seq<u8>>;

/// The index of the last dot in a file name, or -1 if there is none.
pub open spec fn last_dot(name: Seq<u8>) -> int
    decreases name.len(),
{
    if name.len() == 0 {
        -1
    } else if name.last() == '.' as u8 {
        name.len() - 1
    } else {
        last_dot(name.drop_last())
    }
}

/// The extension of a file name: what follows its last dot, unless it has no dot but perhaps a
/// leading one.
pub open spec fn extension_of(name: Option<Seq<u8>>) -> Option<Seq<u8>> {
    match name {
        Some(name) => if last_dot(name) > 0 {
            Some(name.skip(last_dot(name) + 1))
        } else {
            None
        },
        None => None,
    }
}

/// What the view of optional bytes is.
pub open spec fn optional_bytes(bytes: Option<Vec<u8>>) -> Option<Seq<u8>> {
    match bytes {
        Some(bytes) => Some(bytes@),
        None => None,
    }
}

/// Duplicates a path: `PathBuf::clone` returns a path equal to the one it is given.
pub assume_specification [<std::path::PathBuf as Clone>::clone](path: &std::path::PathBuf) -> (copy:
    std::path::PathBuf)
    ensures
        copy == *path,
;

/// Makes a path of a text with `PathBuf::from`. The path is Unicode and has that text.
#[verifier::external_body]
pub(crate) fn path_from_text(text: &str) -> (path: PathBuf)
    ensures
        path_text(path) == Some(text@),
{
    PathBuf::from(text)
}

/// Takes the text of a path with `PathBuf::into_os_string` and `OsString::into_string`, which
/// hands back the text exactly if the path is Unicode.
#[verifier::external_body]
pub(crate) fn path_into_text(path: PathBuf) -> (text: Option<String>)
    ensures
        crate::text::optional_text(text) == path_text(path),
{
    path.into_os_string().into_string().ok()
}

/// Takes the extension of a path with `Path::extension`, as the bytes in which the system encodes
/// it: none if there is no file name or if the file name has no dot but perhaps a leading one,
/// and otherwise what follows the last dot of the file name.
#[verifier::external_body]
pub(crate) fn path_extension(path: &PathBuf) -> (extension: Option<Vec<u8>>)
    ensures
        optional_bytes(extension) == extension_of(path_file_name(*path)),
{
    path.extension().map(|extension| extension.as_encoded_bytes().to_vec())
}

/// Where the last dot of a name is: only names without a dot have none.
proof fn lemma_last_dot(name: Seq<u8>)
    ensures
        -1 <= last_dot(name) < name.len(),
        last_dot(name) >= 0 ==> name[last_dot(name)] == '.' as u8,
        forall|i: int| last_dot(name) < i < name.len() ==> name[i] != '.' as u8,
    decreases name.len(),
{
    if name.len() > 0 && name.last() != '.' as u8 {
        let rest = name.drop_last();
        lemma_last_dot(rest);
        assert forall|i: int| last_dot(name) < i < name.len() implies name[i] != '.' as u8 by {
            if i < rest.len() {
                assert(name[i] == rest[i]);
            }
        }
    }
}

/// A name that is made of a stem, a dot and an ending without a dot has that ending as its
/// extension, if the stem is not empty.
pub proof fn law_extension_follows_the_last_dot(stem: Seq<u8>, ending: Seq<u8>)
    requires
        !ending.contains('.' as u8),
    ensures
        extension_of(Some(stem + seq!['.' as u8] + ending)) == (if stem.len() > 0 {
            Some(ending)
        } else {
            None
        }),
{
    let name = stem + seq!['.' as u8] + ending;
    lemma_last_dot(name);
    assert(name[stem.len() as int] == '.' as u8);
    assert forall|i: int| stem.len() < i < name.len() implies name[i] != '.' as u8 by {
        assert(name[i] == ending[i - stem.len() - 1]);
        assert(ending.contains(name[i]));
    }
    assert(last_dot(name) == stem.len());
    assert(name.skip(stem.len() as int + 1) =~= ending);
}

/// A path without a file name has no extension, and neither has a name without a dot.
pub proof fn law_no_extension_without_a_dot(name: Option<Seq<u8>>)
    requires
        name matches Some(name) ==> !name.contains('.' as u8),
    ensures
        extension_of(name) is None,
{
    if let Some(name) = name {
        lemma_last_dot(name);
        if last_dot(name) >= 0 {
            assert(name.contains(name[last_dot(name)]));
        }
    }
}

/// Whenever a name has an extension, it is a stem that is not empty, a dot, and that extension,
/// which has no dot in it.
pub proof fn law_name_ends_with_its_extension(name: Seq<u8>)
    requires
        extension_of(Some(name)) is Some,
    ensures
        !extension_of(Some(name))->0.contains('.' as u8),
        exists|stem: Seq<u8>|
            stem.len() > 0 && name == #[trigger] (stem + seq!['.' as u8]) + extension_of(
                Some(name),
            )->0,
{
    lemma_last_dot(name);
    let dot = last_dot(name);
    let stem = name.take(dot);
    let ending = name.skip(dot + 1);
    assert(name =~= (stem + seq!['.' as u8]) + ending);
    if ending.contains('.' as u8) {
        let i = ending.index_of('.' as u8);
        assert(name[dot + 1 + i] == '.' as u8);
    }
}

/// Optional bytes are seen as what they are, exactly if they are there.
pub proof fn law_bytes_are_seen_whole(bytes: Option<Vec<u8>>)
    ensures
        optional_bytes(bytes) is Some <==> bytes is Some,
        bytes matches Some(bytes) ==> optional_bytes(Some(bytes)) == Some(bytes@),
{
}

} // verus!
