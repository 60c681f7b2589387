//! Characters and strings: the character classes of the language, and the
//! building of `String`s from characters and numbers.

use vstd::prelude::*;

verus! {

/// One of the ten ASCII digits.
pub open spec fn is_digit(character: char) -> bool {
    '0' <= character <= '9'
}

/// An ASCII letter, upper or lower case.
pub open spec fn is_letter(character: char) -> bool {
    ('a' <= character <= 'z') || ('A' <= character <= 'Z')
}

/// A character that may begin an identifier or a reserved word.
pub open spec fn starts_word(character: char) -> bool {
    is_letter(character) || character == '_'
}

/// A character that may follow the first one of an identifier.
pub open spec fn continues_word(character: char) -> bool {
    starts_word(character) || is_digit(character)
}

/// Space, tab and carriage return: skipped without any effect.
pub open spec fn is_blank(character: char) -> bool {
    character == ' ' || character == '\t' || character == '\r'
}

/// Whether `character` is a digit.
pub fn digit(character: char) -> (r: bool)
    ensures
        r == is_digit(character),
{
    '0' <= character && character <= '9'
}

/// Whether `character` is a letter.
pub fn letter(character: char) -> (r: bool)
    ensures
        r == is_letter(character),
{
    ('a' <= character && character <= 'z') || ('A' <= character && character <= 'Z')
}

/// Whether `character` may begin a word.
pub fn word_start(character: char) -> (r: bool)
    ensures
        r == starts_word(character),
{
    letter(character) || character == '_'
}

/// Whether `character` may go on a word.
pub fn word_part(character: char) -> (r: bool)
    ensures
        r == continues_word(character),
{
    word_start(character) || digit(character)
}

/// Whether `character` is a blank.
pub fn blank(character: char) -> (r: bool)
    ensures
        r == is_blank(character),
{
    character == ' ' || character == '\t' || character == '\r'
}

/// `String::push` appends one character at the end and leaves the rest of
/// the string as it was.
pub assume_specification[ std::string::String::push ](
    text: &mut std::string::String,
    character: char,
)
    ensures
        final(text)@ == old(text)@.push(character),
;

/// The characters of `text`, in order.
pub fn characters_of(text: &str) -> (characters: Vec<char>)
    ensures
        characters@ == text@,
{
    let mut characters: Vec<char> = Vec::new();
    for character in iterator: text.chars()
        invariant
            characters@ == iterator.seq().take(iterator.index()),
            iterator.seq() == text@,
    {
        characters.push(character);
    }
    characters
}

/// The string made of `characters[from..to]`.
pub(crate) fn string_of(characters: &Vec<char>, from: usize, to: usize) -> (text: String)
    requires
        from <= to <= characters.len(),
    ensures
        text@ == characters@.subrange(from as int, to as int),
{
    let mut text = String::new();
    let mut index: usize = from;
    while index < to
        invariant
            from <= index <= to <= characters.len(),
            text@ == characters@.subrange(from as int, index as int),
        decreases to - index,
    {
        text.push(characters[index]);
        index += 1;
    }
    text
}

/// Whether `characters[from..to]` spells `word`.
pub(crate) fn spells(characters: &Vec<char>, from: usize, to: usize, word: &str) -> (r: bool)
    requires
        from <= to <= characters.len(),
    ensures
        r == (characters@.subrange(from as int, to as int) == word@),
{
    let mut index: usize = from;
    for character in iterator: word.chars()
        invariant
            iterator.seq() == word@,
            from <= to <= characters.len(),
            index == from + iterator.index(),
            index <= to,
            characters@.subrange(from as int, index as int) == word@.take(iterator.index()),
    {
        if index >= to || characters[index] != character {
            assert(characters@.subrange(from as int, to as int) != word@) by {
                let part = characters@.subrange(from as int, to as int);
            }
            return false;
        }
        index += 1;
    }
    assert(word@.take(word@.len() as int) == word@);
    if index == to {
        true
    } else {
        false
    }
}

/// Whether two texts are the same, character for character.
pub fn same_text(first: &str, second: &str) -> (r: bool)
    ensures
        r == (first@ == second@),
{
    let characters = characters_of(first);
    assert(characters@.subrange(0, characters@.len() as int) == characters@);
    spells(&characters, 0, characters.len(), second)
}

/// The character that stands for a digit below ten.
pub open spec fn digit_character(digit: nat) -> char {
    if digit == 0 {
        '0'
    } else if digit == 1 {
        '1'
    } else if digit == 2 {
        '2'
    } else if digit == 3 {
        '3'
    } else if digit == 4 {
        '4'
    } else if digit == 5 {
        '5'
    } else if digit == 6 {
        '6'
    } else if digit == 7 {
        '7'
    } else if digit == 8 {
        '8'
    } else {
        '9'
    }
}

/// A natural number in decimal, without leading zeros.
pub open spec fn decimal(number: nat) -> Seq<char>
    decreases number,
{
    if number < 10 {
        seq![digit_character(number)]
    } else {
        decimal(number / 10).push(digit_character(number % 10))
    }
}

/// The character that stands for a digit below ten.
fn digit_of(digit: usize) -> (character: char)
    requires
        digit < 10,
    ensures
        character == digit_character(digit as nat),
{
    if digit == 0 {
        '0'
    } else if digit == 1 {
        '1'
    } else if digit == 2 {
        '2'
    } else if digit == 3 {
        '3'
    } else if digit == 4 {
        '4'
    } else if digit == 5 {
        '5'
    } else if digit == 6 {
        '6'
    } else if digit == 7 {
        '7'
    } else if digit == 8 {
        '8'
    } else {
        '9'
    }
}

/// Appends `number` in decimal to `text`.
pub fn push_decimal(text: &mut String, number: usize)
    ensures
        final(text)@ == old(text)@ + decimal(number as nat),
    decreases number,
{
    if number < 10 {
        text.push(digit_of(number));
    } else {
        push_decimal(text, number / 10);
        text.push(digit_of(number % 10));
    }
}

} // verus!
