//! Texts and bytes.
//!
//! The functions that call the standard library or the `http` crate are trusted,
//! and each says what it trusts.

use vstd::prelude::*;
use vstd::string::*;
use vstd::utf8::{decode_utf8, valid_utf8};

verus! {

/// The character, in lower case where it is an ASCII letter.
pub open spec fn lowered(c: char) -> char {
    if 'A' <= c && c <= 'Z' {
        ((c as u32) + 32) as char
    } else {
        c
    }
}

/// The text, with its ASCII letters in lower case.
pub open spec fn folded(text: Seq<char>) -> Seq<char> {
    text.map_values(|c: char| lowered(c))
}

/// The characters of a text.
fn characters(text: &str) -> (characters: Vec<char>)
    ensures
        characters@ == text@,
{
    let mut characters: Vec<char> = Vec::new();
    for c in rest: text.chars()
        invariant
            rest.seq() == text@,
            characters@ == text@.take(rest.index() as int),
    {
        characters.push(c);
    }
    characters
}

/// The character, in lower case where it is an ASCII letter.
fn to_lower(c: char) -> (lower: char)
    ensures
        lower == lowered(c),
{
    if 'A' <= c && c <= 'Z' {
        ((c as u8) + 32) as char
    } else {
        c
    }
}

/// Whether the texts are the same once their ASCII letters are in lower case.
pub(crate) fn same_ignoring_case(a: &str, b: &str) -> (same: bool)
    ensures
        same == (folded(a@) == folded(b@)),
{
    let first = characters(a);
    let second = characters(b);
    if first.len() != second.len() {
        assert(folded(a@).len() != folded(b@).len());
        return false;
    }
    let mut i: usize = 0;
    while i < first.len()
        invariant
            i <= first.len(),
            first.len() == second.len(),
            first@ == a@,
            second@ == b@,
            forall|j: int| 0 <= j < i ==> lowered(#[trigger] a@[j]) == lowered(b@[j]),
        decreases first.len() - i,
    {
        if to_lower(first[i]) != to_lower(second[i]) {
            assert(folded(a@)[i as int] != folded(b@)[i as int]);
            return false;
        }
        i += 1;
    }
    assert(folded(a@) =~= folded(b@));
    true
}

/// What stands before and after the first space, where there is one.
pub open spec fn split_at_space(text: Seq<char>) -> Option<(Seq<char>, Seq<char>)>
    decreases text.len(),
{
    if text.len() == 0 {
        None
    } else if text[0] == ' ' {
        Some((Seq::empty(), text.drop_first()))
    } else {
        match split_at_space(text.drop_first()) {
            Some((before, after)) => Some((seq![text[0]] + before, after)),
            None => None,
        }
    }
}

/// Where the first space stands, the text is split there.
proof fn lemma_split_at_first_space(text: Seq<char>, at: int)
    requires
        0 <= at <= text.len(),
        forall|j: int| 0 <= j < at ==> text[j] != ' ',
        at < text.len() ==> text[at] == ' ',
    ensures
        split_at_space(text) == (if at < text.len() {
            Some((text.take(at), text.skip(at + 1)))
        } else {
            None
        }),
    decreases text.len(),
{
    if at == 0 {
        if text.len() > 0 {
            assert(text.take(0) =~= Seq::empty());
            assert(text.skip(1) =~= text.drop_first());
        }
    } else {
        let rest = text.drop_first();
        lemma_split_at_first_space(rest, at - 1);
        if at < text.len() {
            assert(text.take(at) =~= seq![text[0]] + rest.take(at - 1));
            assert(text.skip(at + 1) =~= rest.skip(at));
        }
    }
}

/// What stands before and after the first space, where there is one.
pub(crate) fn split_once_at_space(text: &str) -> (parts: Option<(String, String)>)
    ensures
        parts.deep_view() == split_at_space(text@),
{
    let all = characters(text);
    let mut at: usize = 0;
    while at < all.len() && all[at] != ' '
        invariant
            at <= all.len(),
            all@ == text@,
            forall|j: int| 0 <= j < at ==> text@[j] != ' ',
        decreases all.len() - at,
    {
        at += 1;
    }
    proof {
        lemma_split_at_first_space(text@, at as int);
    }
    if at == all.len() {
        return None;
    }
    let before = text.substring_char(0, at).to_owned();
    let after = text.substring_char(at + 1, all.len()).to_owned();
    assert(before@ =~= text@.take(at as int));
    assert(after@ =~= text@.skip(at + 1));
    Some((before, after))
}

/// The text that the bytes encode in UTF-8, where they do.
pub open spec fn text_of(bytes: Seq<u8>) -> Option<Seq<char>> {
    if valid_utf8(bytes) {
        Some(decode_utf8(bytes))
    } else {
        None
    }
}

/// Trusted: `String::from_utf8` of the standard library. It succeeds on the
/// bytes that are valid UTF-8, and gives the text that they encode.
#[verifier::external_body]
pub(crate) fn text_from_utf8(bytes: Vec<u8>) -> (text: Option<String>)
    ensures
        text.deep_view() == text_of(bytes@),
{
    String::from_utf8(bytes).ok()
}

/// The byte may occur in a header value that is read as a text: it is a visible
/// ASCII character, a space or a tab.
pub open spec fn header_byte(byte: u8) -> bool {
    32 <= byte < 127 || byte == 9
}

/// The text of a header value, where it is one.
pub open spec fn header_text_of(bytes: Seq<u8>) -> Option<Seq<char>> {
    if forall|i: int| 0 <= i < bytes.len() ==> #[trigger] header_byte(bytes[i]) {
        Some(bytes.map_values(|byte: u8| byte as char))
    } else {
        None
    }
}

/// Trusted: `HeaderValue::from_bytes` and `HeaderValue::to_str` of `http`. The
/// bytes are read as a text if each of them is a [`header_byte`], and then each
/// is the character with its code.
#[verifier::external_body]
pub(crate) fn header_text(bytes: &Vec<u8>) -> (text: Option<String>)
    ensures
        text.deep_view() == header_text_of(bytes@),
{
    match http::HeaderValue::from_bytes(bytes) {
        Ok(value) => value.to_str().ok().map(|text| text.to_owned()),
        Err(_) => None,
    }
}

} // verus!
