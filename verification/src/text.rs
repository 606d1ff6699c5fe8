//! Character and string helpers shared by the scanner and the console.

use vstd::prelude::*;

verus! {

/// Whether a character is alphanumeric, as the standard library classifies
/// it: a character of Unicode's Alphabetic property or of one of its number
/// categories.
pub uninterp spec fn alphanumeric(character: char) -> bool;

/// `char::is_alphanumeric` of the standard library. Its tables take pages, so
/// its answer goes by the name [`alphanumeric`]; assumed is only that the
/// answer is the same whenever the character is.
pub assume_specification[ char::is_alphanumeric ](character: char) -> (r: bool)
    ensures
        r == alphanumeric(character),
;

/// `String::push` of the standard library. Assumed is that it appends the
/// character to the string and changes nothing else of it.
pub assume_specification[ String::push ](string: &mut String, character: char)
    ensures
        final(string)@ == old(string)@.push(character),
;

/// Whether a character is one of the ten ASCII digits.
pub open spec fn is_ascii_digit(character: char) -> bool {
    '0' <= character <= '9'
}

pub fn ascii_digit(character: char) -> (r: bool)
    ensures
        r == is_ascii_digit(character),
{
    '0' <= character && character <= '9'
}

/// The characters of a string, in order.
pub fn characters_of(text: &str) -> (characters: Vec<char>)
    ensures
        characters@ == text@,
{
    let mut characters: Vec<char> = Vec::new();
    for character in iter: text.chars()
        invariant
            characters@ == iter.seq().take(iter.index()),
            iter.seq() == text@,
    {
        characters.push(character);
    }
    characters
}

/// The string made of the given characters.
pub fn string_of(characters: &Vec<char>) -> (text: String)
    ensures
        text@ == characters@,
{
    let mut text = String::new();
    let mut index: usize = 0;
    while index < characters.len()
        invariant
            index <= characters.len(),
            text@ == characters@.take(index as int),
        decreases characters.len() - index,
    {
        text.push(characters[index]);
        index += 1;
    }
    text
}

/// Whether two lists hold the same characters in the same order.
pub fn same_characters(left: &Vec<char>, right: &Vec<char>) -> (r: bool)
    ensures
        r == (left@ == right@),
{
    if left.len() != right.len() {
        return false;
    }
    let mut index: usize = 0;
    while index < left.len()
        invariant
            left.len() == right.len(),
            index <= left.len(),
            left@.take(index as int) == right@.take(index as int),
        decreases left.len() - index,
    {
        if left[index] != right[index] {
            return false;
        }
        assert(left@.take(index + 1) =~= left@.take(index as int).push(left@[index as int]));
        assert(right@.take(index + 1) =~= right@.take(index as int).push(right@[index as int]));
        index += 1;
    }
    assert(left@ =~= left@.take(index as int));
    assert(right@ =~= right@.take(index as int));
    true
}

/// Whether the characters spell the given text.
pub fn spells(characters: &Vec<char>, text: &str) -> (r: bool)
    ensures
        r == (characters@ == text@),
{
    let expected = characters_of(text);
    same_characters(characters, &expected)
}

/// Whether `prefix` is the beginning of `whole`.
pub fn starts_with(whole: &Vec<char>, prefix: &Vec<char>) -> (r: bool)
    ensures
        r == prefix@.is_prefix_of(whole@),
{
    if prefix.len() > whole.len() {
        return false;
    }
    let mut index: usize = 0;
    while index < prefix.len()
        invariant
            prefix.len() <= whole.len(),
            index <= prefix.len(),
            forall|i: int| 0 <= i < index ==> prefix@[i] == whole@[i],
        decreases prefix.len() - index,
    {
        if prefix[index] != whole[index] {
            assert(prefix@[index as int] != whole@.subrange(0, prefix@.len() as int)[index as int]);
            return false;
        }
        index += 1;
    }
    assert(prefix@ =~= whole@.subrange(0, prefix@.len() as int));
    true
}

/// Whether `pattern` stands in `text` at `index`.
pub fn stands_at(text: &Vec<char>, index: usize, pattern: &Vec<char>) -> (r: bool)
    ensures
        r == (index <= text@.len() && pattern@.is_prefix_of(text@.skip(index as int))),
{
    if index > text.len() || pattern.len() > text.len() - index {
        return false;
    }
    let ghost rest = text@.skip(index as int);
    let mut offset: usize = 0;
    while offset < pattern.len()
        invariant
            index <= text.len(),
            pattern.len() <= text.len() - index,
            offset <= pattern.len(),
            rest == text@.skip(index as int),
            forall|i: int| 0 <= i < offset ==> pattern@[i] == rest[i],
        decreases pattern.len() - offset,
    {
        if pattern[offset] != text[index + offset] {
            assert(pattern@[offset as int] != rest.subrange(0, pattern@.len() as int)[offset as int]);
            return false;
        }
        offset += 1;
    }
    assert(pattern@ =~= rest.subrange(0, pattern@.len() as int));
    true
}

/// A text without the occurrences of a pattern: they are taken out from left
/// to right, each behind the end of the one before. An empty pattern occurs
/// nowhere.
pub open spec fn without(text: Seq<char>, pattern: Seq<char>) -> Seq<char>
    decreases text.len(),
{
    if text.len() == 0 || pattern.len() == 0 {
        text
    } else if pattern.is_prefix_of(text) {
        without(text.skip(pattern.len() as int), pattern)
    } else {
        seq![text[0]] + without(text.drop_first(), pattern)
    }
}

/// Takes every occurrence of a pattern out of a text.
pub fn remove_all(text: &Vec<char>, pattern: &Vec<char>) -> (kept: Vec<char>)
    ensures
        kept@ == without(text@, pattern@),
{
    let mut kept: Vec<char> = Vec::new();
    let mut index: usize = 0;
    assert(text@.skip(0) =~= text@);
    assert(kept@ + without(text@, pattern@) =~= without(text@, pattern@));
    while index < text.len()
        invariant
            index <= text.len(),
            without(text@, pattern@) == kept@ + without(text@.skip(index as int), pattern@),
        decreases text.len() - index,
    {
        let ghost rest = text@.skip(index as int);
        if pattern.len() > 0 && stands_at(text, index, pattern) {
            assert(rest.skip(pattern@.len() as int) =~= text@.skip(index + pattern@.len()));
            index += pattern.len();
        } else {
            let ghost before = kept@;
            kept.push(text[index]);
            assert(rest.drop_first() =~= text@.skip(index + 1));
            assert(before + (seq![rest[0]] + without(rest.drop_first(), pattern@)) =~= kept@
                + without(rest.drop_first(), pattern@));
            index += 1;
        }
    }
    assert(kept@ + without(text@.skip(index as int), pattern@) =~= kept@);
    kept
}

} // verus!
