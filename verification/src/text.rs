//! Text handling shared by the other modules: UTF-8 decoding, the first line of a text, and the
//! qualified name of a declaration.

use vstd::prelude::*;
use vstd::utf8::{decode_utf8, encode_utf8, valid_utf8};

verus! {

/// `std::str::Utf8Error`: says where decoding stopped. Carried through to whoever reports it.
#[verifier::external_type_specification]
#[verifier::external_body]
pub struct ExUtf8Error(std::str::Utf8Error);

/// The error with which bytes that are not UTF-8 are refused.
pub uninterp spec fn utf8_error(bytes: Seq<u8>) -> std::str::Utf8Error;

/// `std::str::from_utf8` accepts a byte slice exactly if it is valid UTF-8, and the text it then
/// returns is the decoded slice. Otherwise the error depends on the bytes alone.
pub assume_specification [std::str::from_utf8](v: &[u8]) -> (text: Result<
    &str,
    std::str::Utf8Error,
>)
    ensures
        text is Ok <==> valid_utf8(v@),
        text matches Ok(text) ==> text@ == decode_utf8(v@),
        text matches Err(error) ==> error == utf8_error(v@),
;

/// The text in which a decoding error is reported.
pub uninterp spec fn utf8_error_text(error: std::str::Utf8Error) -> Seq<char>;

/// Writes out a decoding error with its `std::fmt::Display`; the text depends on the error alone.
#[verifier::external_body]
pub(crate) fn describe_utf8_error(error: &std::str::Utf8Error) -> (text: String)
    ensures
        text@ == utf8_error_text(*error),
{
    format!("{}", error)
}

/// What the view of an optional text is.
pub open spec fn optional_text(text: Option<String>) -> Option<Seq<char>> {
    match text {
        Some(text) => Some(text@),
        None => None,
    }
}

/// What the view of several texts is.
pub open spec fn text_views(texts: Seq<String>) -> Seq<Seq<char>> {
    texts.map_values(|text: String| text@)
}

/// Number of characters before the first line feed, or of all of them if there is none.
pub open spec fn line_length(text: Seq<char>) -> nat
    decreases text.len(),
{
    if text.len() == 0 || text[0] == '\n' {
        0
    } else {
        1 + line_length(text.drop_first())
    }
}

/// The first line of a text without its line ending, which is a line feed or a carriage return
/// and a line feed. An empty text has no line.
pub open spec fn first_line_of(text: Seq<char>) -> Option<Seq<char>> {
    let length = line_length(text) as int;
    if text.len() == 0 {
        None
    } else if 0 < length < text.len() && text[length - 1] == '\r' {
        Some(text.take(length - 1))
    } else {
        Some(text.take(length))
    }
}

/// `line_length` stops at the first line feed and nowhere before.
proof fn lemma_line_length(text: Seq<char>, length: nat)
    requires
        length <= text.len(),
        forall|i: int| 0 <= i < length ==> text[i] != '\n',
        length == text.len() || text[length as int] == '\n',
    ensures
        line_length(text) == length,
    decreases text.len(),
{
    if length > 0 {
        let rest = text.drop_first();
        assert forall|i: int| 0 <= i < length - 1 implies rest[i] != '\n' by {
            assert(rest[i] == text[i + 1]);
        }
        lemma_line_length(rest, (length - 1) as nat);
    }
}

/// The first line of a text has no line feed in it and the text begins with it.
pub proof fn law_first_line(text: Seq<char>)
    requires
        text.len() > 0,
    ensures
        first_line_of(text) matches Some(line) && {
            &&& line.is_prefix_of(text)
            &&& !line.contains('\n')
        },
{
    lemma_line_length_bounds(text);
}

/// No character that `line_length` counts is a line feed.
proof fn lemma_line_length_bounds(text: Seq<char>)
    ensures
        line_length(text) <= text.len(),
        forall|i: int| 0 <= i < line_length(text) ==> text[i] != '\n',
    decreases text.len(),
{
    if text.len() > 0 && text[0] != '\n' {
        let rest = text.drop_first();
        lemma_line_length_bounds(rest);
        assert forall|i: int| 0 <= i < line_length(text) implies text[i] != '\n' by {
            if i > 0 {
                assert(text[i] == rest[i - 1]);
            }
        }
    }
}

/// Returns the first line of `text` without its line ending, or nothing if `text` is empty.
pub fn first_line(text: &str) -> (line: Option<String>)
    ensures
        optional_text(line) == first_line_of(text@),
{
    let total: usize = text.unicode_len();
    if total == 0 {
        return None;
    }
    let mut length: usize = 0;
    let mut carriage_return = false;
    for c in chars: text.chars()
        invariant
            chars.seq() == text@,
            length == chars.index(),
            total == text@.len(),
            length > 0 ==> carriage_return == (text@[length - 1] == '\r'),
            length == 0 ==> !carriage_return,
            forall|i: int| 0 <= i < length ==> text@[i] != '\n',
    {
        if c == '\n' {
            proof {
                lemma_line_length(text@, length as nat);
            }
            let end: usize = if carriage_return { length - 1 } else { length };
            return Some(text.substring_char(0, end).to_owned());
        }
        carriage_return = c == '\r';
        length = length + 1;
    }
    proof {
        lemma_line_length(text@, length as nat);
    }
    Some(text.to_owned())
}

/// The text between two byte offsets of `text`, or nothing if that part of it is no text by
/// itself because an offset falls inside a character.
pub open spec fn text_between(text: Seq<char>, start: int, end: int) -> Option<Seq<char>> {
    let part = encode_utf8(text).subrange(start, end);
    if valid_utf8(part) {
        Some(decode_utf8(part))
    } else {
        None
    }
}

/// Returns the text between two byte offsets of `text`, or nothing if an offset falls inside a
/// character.
pub fn text_between_offsets(text: &str, start: usize, end: usize) -> (part: Option<String>)
    requires
        start <= end <= encode_utf8(text@).len(),
    ensures
        optional_text(part) == text_between(text@, start as int, end as int),
{
    let bytes = vstd::slice::slice_subrange(text.as_bytes(), start, end);
    match std::str::from_utf8(bytes) {
        Ok(part) => Some(part.to_owned()),
        Err(_) => None,
    }
}

/// The name of a declaration with that of its module in front.
pub open spec fn qualified_name(module: Seq<char>, id: Seq<char>) -> Seq<char> {
    module + "::"@ + id
}

/// Returns the name of a declaration with that of its module in front.
pub fn qualify(module: &String, id: &String) -> (name: String)
    ensures
        name@ == qualified_name(module@, id@),
{
    let mut name = module.clone();
    name.append("::");
    name.append(id.as_str());
    name
}

/// A qualified name is as long as the module, two characters and the name together. It begins with
/// the module, has two colons right behind that, and ends with the name.
pub proof fn law_qualified_name_parts(module: Seq<char>, id: Seq<char>)
    ensures
        qualified_name(module, id).len() == module.len() + 2 + id.len(),
        qualified_name(module, id).take(module.len() as int) == module,
        qualified_name(module, id).subrange(module.len() as int, module.len() as int + 2) == seq![
            ':',
            ':',
        ],
        qualified_name(module, id).skip(module.len() as int + 2) == id,
{
    reveal_strlit("::");
    let name = qualified_name(module, id);
    assert(name.take(module.len() as int) =~= module);
    assert(name.subrange(module.len() as int, module.len() as int + 2) =~= seq![':', ':']);
    assert(name.skip(module.len() as int + 2) =~= id);
}

/// In one module different names stay different when they are qualified, and so does one name in
/// different modules.
pub proof fn law_qualified_names_differ(
    module: Seq<char>,
    id: Seq<char>,
    other_module: Seq<char>,
    other_id: Seq<char>,
)
    requires
        qualified_name(module, id) == qualified_name(other_module, other_id),
    ensures
        module == other_module <==> id == other_id,
{
    law_qualified_name_parts(module, id);
    law_qualified_name_parts(other_module, other_id);
}

/// Only an empty text has no first line.
pub proof fn law_only_empty_text_has_no_line(text: Seq<char>)
    ensures
        first_line_of(text) is None <==> text.len() == 0,
{
}

/// A text without any line feed is its own first line.
pub proof fn law_text_of_one_line(text: Seq<char>)
    requires
        text.len() > 0,
        !text.contains('\n'),
    ensures
        first_line_of(text) == Some(text),
{
    assert forall|i: int| 0 <= i < text.len() implies text[i] != '\n' by {
        assert(text.contains(text[i]));
    }
    lemma_line_length(text, text.len());
    assert(text.take(text.len() as int) =~= text);
}

/// Whatever follows a line and its ending, be that a line feed or a carriage return and a line
/// feed, the first line is that line without the ending.
pub proof fn law_line_is_cut_at_its_ending(line: Seq<char>, rest: Seq<char>)
    requires
        !line.contains('\n'),
    ensures
        line.len() == 0 || line.last() != '\r' ==> first_line_of(line + seq!['\n'] + rest) == Some(
            line,
        ),
        first_line_of(line + seq!['\r', '\n'] + rest) == Some(line),
{
    assert forall|i: int| 0 <= i < line.len() implies line[i] != '\n' by {
        assert(line.contains(line[i]));
    }
    let text = line + seq!['\n'] + rest;
    assert(text[line.len() as int] == '\n');
    lemma_line_length(text, line.len());
    assert(text.take(line.len() as int) =~= line);
    let text = line + seq!['\r', '\n'] + rest;
    assert(text[line.len() as int] == '\r');
    assert(text[line.len() as int + 1] == '\n');
    lemma_line_length(text, line.len() + 1);
    assert(text.take(line.len() as int) =~= line);
}

/// The bytes of two texts in a row are those of the first and then those of the second.
pub(crate) proof fn lemma_encode_utf8_concat(first: Seq<char>, second: Seq<char>)
    ensures
        encode_utf8(first + second) == encode_utf8(first) + encode_utf8(second),
    decreases first.len(),
{
    if first.len() == 0 {
        assert(first + second =~= second);
        assert(encode_utf8(first) + encode_utf8(second) =~= encode_utf8(second));
    } else {
        lemma_encode_utf8_concat(first.drop_first(), second);
        assert((first + second).drop_first() =~= first.drop_first() + second);
        assert(encode_utf8(first + second) =~= encode_utf8(first) + encode_utf8(second));
    }
}

/// Of three texts in a row the middle one lies between the offset at which the first ends and the
/// offset at which the last begins.
pub proof fn law_middle_text_is_found(before: Seq<char>, part: Seq<char>, after: Seq<char>)
    ensures
        text_between(
            before + part + after,
            encode_utf8(before).len() as int,
            (encode_utf8(before).len() + encode_utf8(part).len()) as int,
        ) == Some(part),
{
    lemma_encode_utf8_concat(before, part);
    lemma_encode_utf8_concat(before + part, after);
    let start = encode_utf8(before).len() as int;
    let end = start + encode_utf8(part).len();
    assert(encode_utf8(before + part + after).subrange(start, end) =~= encode_utf8(part));
    vstd::utf8::encode_utf8_valid_utf8(part);
    vstd::utf8::encode_utf8_decode_utf8(part);
}

/// The text between two offsets has just the bytes between them, and there is one whenever some
/// text has those bytes.
pub proof fn law_text_between_has_the_bytes(
    text: Seq<char>,
    start: int,
    end: int,
    part: Seq<char>,
)
    requires
        0 <= start <= end <= encode_utf8(text).len(),
    ensures
        text_between(text, start, end) == Some(part) <==> encode_utf8(part) == encode_utf8(
            text,
        ).subrange(start, end),
        text_between(text, start, end) is None <==> !valid_utf8(
            encode_utf8(text).subrange(start, end),
        ),
{
    let bytes = encode_utf8(text).subrange(start, end);
    if valid_utf8(bytes) {
        vstd::utf8::decode_utf8_encode_utf8(bytes);
    }
    vstd::utf8::encode_utf8_valid_utf8(part);
    vstd::utf8::encode_utf8_decode_utf8(part);
}

/// Texts are seen as what they are: all of them, each in its place, and an optional one exactly if
/// it is there.
pub proof fn law_texts_are_seen_whole(texts: Seq<String>, text: Option<String>)
    ensures
        text_views(texts).len() == texts.len(),
        forall|i: int| 0 <= i < texts.len() ==> #[trigger] text_views(texts)[i] == texts[i]@,
        optional_text(text) is Some <==> text is Some,
        text matches Some(text) ==> optional_text(Some(text)) == Some(text@),
{
}

} // verus!
