//! Small operations on text, character by character.

use vstd::prelude::*;

verus! {

broadcast use vstd::string::group_string_axioms;

/// The lower-case form of an ASCII capital letter; any other character as it
/// is.
pub open spec fn lower(c: char) -> char {
    if 'A' <= c && c <= 'Z' {
        ((c as u8) + 32) as char
    } else {
        c
    }
}

/// `text` with its ASCII capital letters in lower case.
pub open spec fn lowered(text: Seq<char>) -> Seq<char> {
    text.map_values(|c: char| lower(c))
}

/// Whether `text` begins with `prefix`.
pub open spec fn begins_with(text: Seq<char>, prefix: Seq<char>) -> bool {
    prefix.len() <= text.len() && text.take(prefix.len() as int) == prefix
}

/// The lower-case form of `c`.
pub fn to_lower(c: char) -> (low: char)
    ensures
        low == lower(c),
{
    if 'A' <= c && c <= 'Z' {
        ((c as u8) + 32) as char
    } else {
        c
    }
}

/// The characters of `text`, one by one.
pub fn chars_of(text: &str) -> (chars: Vec<char>)
    ensures
        chars@ == text@,
{
    let mut chars: Vec<char> = Vec::new();
    for c in it: text.chars()
        invariant
            it.seq() == text@,
            chars@ == text@.take(it.index() as int),
    {
        chars.push(c);
    }
    chars
}

/// Whether `text` begins with `prefix`.
pub fn has_prefix(text: &str, prefix: &str) -> (begins: bool)
    ensures
        begins == begins_with(text@, prefix@),
{
    let text_chars = chars_of(text);
    let prefix_chars = chars_of(prefix);
    if prefix_chars.len() > text_chars.len() {
        return false;
    }
    let mut i: usize = 0;
    while i < prefix_chars.len()
        invariant
            i <= prefix_chars.len() <= text_chars.len(),
            text_chars@ == text@,
            prefix_chars@ == prefix@,
            forall|k: int| 0 <= k < i ==> text@[k] == prefix@[k],
        decreases prefix_chars.len() - i,
    {
        if text_chars[i] != prefix_chars[i] {
            proof {
                assert(text@.take(prefix@.len() as int)[i as int] == text@[i as int]);
            }
            return false;
        }
        i += 1;
    }
    proof {
        assert(text@.take(prefix@.len() as int) =~= prefix@);
    }
    true
}

/// Whether `text`, with its ASCII capital letters in lower case, reads
/// `word`.
pub fn reads_in_lower_case(text: &str, word: &str) -> (same: bool)
    ensures
        same == (lowered(text@) == word@),
{
    let text_chars = chars_of(text);
    let word_chars = chars_of(word);
    if word_chars.len() != text_chars.len() {
        return false;
    }
    let mut i: usize = 0;
    while i < text_chars.len()
        invariant
            i <= text_chars.len(),
            word_chars.len() == text_chars.len(),
            text_chars@ == text@,
            word_chars@ == word@,
            forall|k: int| 0 <= k < i ==> lower(text@[k]) == word@[k],
        decreases text_chars.len() - i,
    {
        if to_lower(text_chars[i]) != word_chars[i] {
            proof {
                assert(lowered(text@)[i as int] == lower(text@[i as int]));
            }
            return false;
        }
        i += 1;
    }
    proof {
        assert(lowered(text@) =~= word@);
    }
    true
}

} // verus!
