//! What a user may enter: the language and the kind of an input, and the
//! rules that an input has to meet.

use crate::text::{char_is_whitespace, is_whitespace, to_chars, trim, trimmed};
use vstd::prelude::*;

verus! {

/// Whether a character has the Unicode property Alphabetic, as
/// `char::is_alphabetic` tells.
pub uninterp spec fn alphabetic(c: char) -> bool;

/// `char::is_alphabetic` tells whether the character has the Unicode
/// property Alphabetic. The answer depends on the character alone.
pub assume_specification[ char::is_alphabetic ](c: char) -> (r: bool)
    ensures
        r == alphabetic(c),
;

/// The Chinese ideographs: the CJK unified ideographs and their extensions
/// A to G.
pub open spec fn chinese_ideograph(c: char) -> bool {
    ||| '\u{4E00}' <= c <= '\u{9FFF}'
    ||| '\u{3400}' <= c <= '\u{4DBF}'
    ||| '\u{20000}' <= c <= '\u{2A6DF}'
    ||| '\u{2A700}' <= c <= '\u{2B73F}'
    ||| '\u{2B740}' <= c <= '\u{2B81F}'
    ||| '\u{2B820}' <= c <= '\u{2CEAF}'
    ||| '\u{2CEB0}' <= c <= '\u{2EBEF}'
    ||| '\u{30000}' <= c <= '\u{3134F}'
}

/// Tests whether a character is a Chinese ideograph.
pub fn is_chinese_ideograph(c: char) -> (r: bool)
    ensures
        r == chinese_ideograph(c),
{
    (c >= '\u{4E00}' && c <= '\u{9FFF}') || (c >= '\u{3400}' && c <= '\u{4DBF}') || (c
        >= '\u{20000}' && c <= '\u{2A6DF}') || (c >= '\u{2A700}' && c <= '\u{2B73F}') || (c
        >= '\u{2B740}' && c <= '\u{2B81F}') || (c >= '\u{2B820}' && c <= '\u{2CEAF}') || (c
        >= '\u{2CEB0}' && c <= '\u{2EBEF}') || (c >= '\u{30000}' && c <= '\u{3134F}')
}

/// The punctuation marks that Chinese text uses.
pub open spec fn chinese_punctuation(c: char) -> bool {
    ||| c == '\u{3001}'
    ||| c == '\u{3002}'
    ||| c == '\u{FF0C}'
    ||| c == '\u{FF0E}'
    ||| c == '\u{FF1B}'
    ||| c == '\u{FF1A}'
    ||| c == '\u{FF1F}'
    ||| c == '\u{FF01}'
    ||| c == '\u{3010}'
    ||| c == '\u{3011}'
    ||| c == '\u{FF08}'
    ||| c == '\u{FF09}'
    ||| c == '\u{300A}'
    ||| c == '\u{300B}'
    ||| c == '\u{3008}'
    ||| c == '\u{3009}'
    ||| c == '\u{2014}'
    ||| c == '\u{2018}'
    ||| c == '\u{2019}'
    ||| c == '\u{201C}'
    ||| c == '\u{201D}'
}

/// Tests whether a character is a Chinese punctuation mark.
pub fn is_chinese_punctuation(c: char) -> (r: bool)
    ensures
        r == chinese_punctuation(c),
{
    c == '\u{3001}' || c == '\u{3002}' || c == '\u{FF0C}' || c == '\u{FF0E}' || c == '\u{FF1B}'
        || c == '\u{FF1A}' || c == '\u{FF1F}' || c == '\u{FF01}' || c == '\u{3010}' || c
        == '\u{3011}' || c == '\u{FF08}' || c == '\u{FF09}' || c == '\u{300A}' || c == '\u{300B}'
        || c == '\u{3008}' || c == '\u{3009}' || c == '\u{2014}' || c == '\u{2018}' || c
        == '\u{2019}' || c == '\u{201C}' || c == '\u{201D}'
}

/// The marks that end a sentence.
pub open spec fn sentence_ending(c: char) -> bool {
    ||| c == '.'
    ||| c == '!'
    ||| c == '?'
    ||| c == '\u{3002}'
    ||| c == '\u{FF01}'
    ||| c == '\u{FF1F}'
    ||| c == '\u{2026}'
    ||| c == '\u{FF1A}'
    ||| c == ':'
}

/// The language of an input.
#[derive(Debug, Clone, Copy, PartialEq, Eq, Structural)]
pub enum Language {
    English,
    Chinese,
    Mixed,
}

/// The kind of an input.
#[derive(Debug, Clone, Copy, PartialEq, Eq, Structural)]
pub enum InputType {
    Word,
    Phrase,
    Sentence,
}

/// Language and kind of an input.
#[derive(Debug, Clone, Copy, PartialEq, Eq, Structural)]
pub struct InputClassification {
    pub language: Language,
    pub input_type: InputType,
}

/// A class of characters.
#[derive(Debug, Clone, Copy, PartialEq, Eq, Structural)]
pub enum CharClass {
    Ideograph,
    ChinesePunctuation,
    Space,
    SentenceEnding,
}

impl CharClass {
    /// Whether the character belongs to the class.
    pub open spec fn holds(self, c: char) -> bool {
        match self {
            CharClass::Ideograph => chinese_ideograph(c),
            CharClass::ChinesePunctuation => chinese_punctuation(c),
            CharClass::Space => is_whitespace(c),
            CharClass::SentenceEnding => sentence_ending(c),
        }
    }

    /// Tests whether the character belongs to the class.
    pub fn has(&self, c: char) -> (r: bool)
        ensures
            r == self.holds(c),
    {
        match self {
            CharClass::Ideograph => is_chinese_ideograph(c),
            CharClass::ChinesePunctuation => is_chinese_punctuation(c),
            CharClass::Space => char_is_whitespace(c),
            CharClass::SentenceEnding => c == '.' || c == '!' || c == '?' || c == '\u{3002}' || c
                == '\u{FF01}' || c == '\u{FF1F}' || c == '\u{2026}' || c == '\u{FF1A}' || c == ':',
        }
    }
}

/// The number of characters of the class in the text.
pub open spec fn count(s: Seq<char>, class: CharClass) -> nat
    decreases s.len(),
{
    if s.len() == 0 {
        0
    } else {
        count(s.drop_last(), class) + if class.holds(s.last()) {
            1nat
        } else {
            0nat
        }
    }
}

/// No class has more characters in a text than the text has.
pub proof fn lemma_count_bound(s: Seq<char>, class: CharClass)
    ensures
        count(s, class) <= s.len(),
    decreases s.len(),
{
    if s.len() > 0 {
        lemma_count_bound(s.drop_last(), class);
    }
}

/// Counts the characters of the class in the text.
pub fn count_class(s: &Vec<char>, class: CharClass) -> (n: usize)
    ensures
        n == count(s@, class),
{
    let mut n: usize = 0;
    let mut i: usize = 0;
    while i < s.len()
        invariant
            i <= s.len(),
            n <= i,
            n == count(s@.take(i as int), class),
        decreases s.len() - i,
    {
        assert(s@.take(i + 1).drop_last() == s@.take(i as int));
        if class.has(s[i]) {
            n += 1;
        }
        i += 1;
    }
    assert(s@.take(s.len() as int) == s@);
    n
}

/// The language of a text. Chinese is a text of whose characters, white
/// space apart, at least three in five are Chinese ideographs or punctuation;
/// a text with any such character is mixed; every other text is English.
pub open spec fn language_of(s: Seq<char>) -> Language {
    let chinese = count(s, CharClass::Ideograph) + count(s, CharClass::ChinesePunctuation);
    let solid = s.len() - count(s, CharClass::Space);
    if s.len() == 0 || solid == 0 {
        Language::English
    } else if 5 * chinese >= 3 * solid {
        Language::Chinese
    } else if chinese > 0 {
        Language::Mixed
    } else {
        Language::English
    }
}

/// The kind of a text of the given language, from the number of its blanks
/// and of its ideographs, and from whether a mark ends a sentence in it.
pub open spec fn input_type_of(s: Seq<char>, language: Language) -> InputType {
    let t = trim(s);
    let spaces = count(t, CharClass::Space);
    let ending = count(t, CharClass::SentenceEnding) > 0;
    let ideographs = count(t, CharClass::Ideograph);
    if language == Language::English {
        if spaces == 0 && !ending {
            InputType::Word
        } else if ending || spaces >= 5 {
            InputType::Sentence
        } else {
            InputType::Phrase
        }
    } else if ideographs == 1 && spaces == 0 {
        InputType::Word
    } else if ending || ideographs >= 8 {
        InputType::Sentence
    } else if 2 <= ideographs <= 7 {
        InputType::Phrase
    } else if spaces == 0 {
        InputType::Word
    } else if spaces <= 3 {
        InputType::Phrase
    } else {
        InputType::Sentence
    }
}

/// Language and kind of an input, white space around it apart.
pub open spec fn classification_of(s: Seq<char>) -> InputClassification {
    let language = language_of(trim(s));
    InputClassification { language, input_type: input_type_of(trim(s), language) }
}

fn language_of_chars(s: &Vec<char>) -> (r: Language)
    ensures
        r == language_of(s@),
{
    let len: usize = s.len();
    if len == 0 {
        return Language::English;
    }
    let ideographs = count_class(s, CharClass::Ideograph);
    let marks = count_class(s, CharClass::ChinesePunctuation);
    let spaces = count_class(s, CharClass::Space);
    proof {
        lemma_count_bound(s@, CharClass::Ideograph);
        lemma_count_bound(s@, CharClass::ChinesePunctuation);
        lemma_count_bound(s@, CharClass::Space);
    }
    let solid: usize = len - spaces;
    if solid == 0 {
        return Language::English;
    }
    let chinese: u128 = ideographs as u128 + marks as u128;
    if 5 * chinese >= 3 * (solid as u128) {
        Language::Chinese
    } else if chinese > 0 {
        Language::Mixed
    } else {
        Language::English
    }
}

fn input_type_of_chars(s: &Vec<char>, language: Language) -> (r: InputType)
    ensures
        r == input_type_of(s@, language),
{
    let t = trimmed(s);
    let spaces = count_class(&t, CharClass::Space);
    let ending = count_class(&t, CharClass::SentenceEnding) > 0;
    let ideographs = count_class(&t, CharClass::Ideograph);
    match language {
        Language::English => {
            if spaces == 0 && !ending {
                InputType::Word
            } else if ending || spaces >= 5 {
                InputType::Sentence
            } else {
                InputType::Phrase
            }
        },
        _ => {
            if ideographs == 1 && spaces == 0 {
                InputType::Word
            } else if ending || ideographs >= 8 {
                InputType::Sentence
            } else if ideographs >= 2 && ideographs <= 7 {
                InputType::Phrase
            } else if spaces == 0 {
                InputType::Word
            } else if spaces <= 3 {
                InputType::Phrase
            } else {
                InputType::Sentence
            }
        },
    }
}

/// Finds the language of a text.
pub fn determine_language(input: &str) -> (r: Language)
    ensures
        r == language_of(input@),
{
    let chars = to_chars(input);
    language_of_chars(&chars)
}

/// Finds the kind of a text of the given language.
pub fn determine_input_type(input: &str, language: &Language) -> (r: InputType)
    ensures
        r == input_type_of(input@, *language),
{
    let chars = to_chars(input);
    input_type_of_chars(&chars, *language)
}

/// Finds language and kind of an input.
pub fn classify_input(input: &str) -> (r: InputClassification)
    ensures
        r == classification_of(input@),
{
    let chars = to_chars(input);
    let t = trimmed(&chars);
    let language = language_of_chars(&t);
    let input_type = input_type_of_chars(&t, language);
    InputClassification { language, input_type }
}

/// Why an input is refused.
#[derive(Debug, Clone, Copy, PartialEq, Eq, Structural)]
pub enum InputError {
    /// The input holds nothing but white space.
    Empty,
    /// The input holds a character that is not allowed.
    InvalidCharacter,
    /// The input holds no letter.
    NoLetter,
    /// The input is too long.
    BadLength,
}

impl InputError {
    /// The error in words, as it is said of a text.
    pub fn message(&self) -> (out: String)
        ensures
            out@ == match *self {
                InputError::Empty => "Input cannot be empty"@,
                InputError::InvalidCharacter =>
                    "Input can only contain letters, numbers, punctuation, and spaces"@,
                InputError::NoLetter => "Input must contain at least one letter"@,
                InputError::BadLength => "Input length must be between 1 and 200 characters"@,
            },
    {
        match self {
            InputError::Empty => String::from_str("Input cannot be empty"),
            InputError::InvalidCharacter => String::from_str(
                "Input can only contain letters, numbers, punctuation, and spaces",
            ),
            InputError::NoLetter => String::from_str("Input must contain at least one letter"),
            InputError::BadLength => String::from_str(
                "Input length must be between 1 and 200 characters",
            ),
        }
    }
}

/// The punctuation marks of ASCII.
pub open spec fn ascii_punctuation(c: char) -> bool {
    ||| '!' <= c <= '/'
    ||| ':' <= c <= '@'
    ||| '[' <= c <= '`'
    ||| '{' <= c <= '~'
}

/// The white space of ASCII: blank, tab, line feed, form feed and carriage
/// return.
pub open spec fn ascii_whitespace(c: char) -> bool {
    c == ' ' || c == '\t' || c == '\n' || c == '\u{C}' || c == '\r'
}

/// Whether a text may hold the character: letters, digits, punctuation and
/// white space of ASCII, and Chinese ideographs and punctuation.
pub open spec fn allowed(c: char, letter: bool) -> bool {
    letter || ('0' <= c <= '9') || ascii_punctuation(c) || ascii_whitespace(c) || chinese_ideograph(
        c,
    ) || chinese_punctuation(c)
}

/// The number of bytes that a character takes in UTF-8.
pub open spec fn utf8_width(c: char) -> nat {
    if '\u{80}' > c {
        1
    } else if '\u{800}' > c {
        2
    } else if '\u{10000}' > c {
        3
    } else {
        4
    }
}

/// The number of bytes that a text takes in UTF-8.
pub open spec fn utf8_len(s: Seq<char>) -> nat
    decreases s.len(),
{
    if s.len() == 0 {
        0
    } else {
        utf8_len(s.drop_last()) + utf8_width(s.last())
    }
}

/// A text takes at least as many bytes as a part of it from its start.
pub proof fn lemma_utf8_len_grows(s: Seq<char>, k: int)
    requires
        0 <= k <= s.len(),
    ensures
        utf8_len(s.take(k)) <= utf8_len(s),
    decreases s.len() - k,
{
    if k < s.len() {
        lemma_utf8_len_grows(s, k + 1);
        assert(s.take(k + 1).drop_last() == s.take(k));
    } else {
        assert(s.take(k) == s);
    }
}

/// Tests whether a text takes more than `limit` bytes in UTF-8.
pub fn longer_than(s: &Vec<char>, limit: usize) -> (r: bool)
    requires
        limit <= usize::MAX - 4,
    ensures
        r == (utf8_len(s@) > limit),
{
    let mut n: usize = 0;
    let mut i: usize = 0;
    while i < s.len()
        invariant
            i <= s.len(),
            n <= limit,
            limit <= usize::MAX - 4,
            n == utf8_len(s@.take(i as int)),
        decreases s.len() - i,
    {
        assert(s@.take(i + 1).drop_last() == s@.take(i as int));
        let c = s[i];
        let w: usize = if '\u{80}' > c {
            1
        } else if '\u{800}' > c {
            2
        } else if '\u{10000}' > c {
            3
        } else {
            4
        };
        n += w;
        i += 1;
        if n > limit {
            proof {
                lemma_utf8_len_grows(s@, i as int);
            }
            return true;
        }
    }
    assert(s@.take(s.len() as int) == s@);
    false
}

/// Whether `letters` tells that character `i` is a letter. What it does not
/// speak of is none.
pub open spec fn told_letter(letters: Seq<bool>, i: int) -> bool {
    0 <= i < letters.len() && letters[i]
}

/// Whether character `i` of the text is allowed.
pub open spec fn allowed_at(t: Seq<char>, letters: Seq<bool>, i: int) -> bool {
    allowed(t[i], told_letter(letters, i))
}

/// Whether character `i` of the text is a letter or an ideograph.
pub open spec fn letter_at(t: Seq<char>, letters: Seq<bool>, i: int) -> bool {
    told_letter(letters, i) || chinese_ideograph(t[i])
}

/// What the rules say of a text whose characters, white space around it
/// apart, are letters as `letters` tells: the first rule that the text
/// breaks, in the order of `InputError`.
pub open spec fn text_verdict(s: Seq<char>, letters: Seq<bool>) -> Result<(), InputError> {
    let t = trim(s);
    if t.len() == 0 {
        Err(InputError::Empty)
    } else if exists|i: int| 0 <= i < t.len() && !allowed_at(t, letters, i) {
        Err(InputError::InvalidCharacter)
    } else if forall|i: int| 0 <= i < t.len() ==> !letter_at(t, letters, i) {
        Err(InputError::NoLetter)
    } else if utf8_len(t) > 200 {
        Err(InputError::BadLength)
    } else {
        Ok(())
    }
}

/// Which characters of the text, white space around it apart, are letters.
pub open spec fn letters_of(s: Seq<char>) -> Seq<bool> {
    Seq::new(trim(s).len(), |i: int| alphabetic(trim(s)[i]))
}

fn is_allowed(c: char, letter: bool) -> (r: bool)
    ensures
        r == allowed(c, letter),
{
    letter || ('0' <= c && c <= '9') || ('!' <= c && c <= '/') || (':' <= c && c <= '@') || ('['
        <= c && c <= '`') || ('{' <= c && c <= '~') || c == ' ' || c == '\t' || c == '\n' || c
        == '\u{C}' || c == '\r' || is_chinese_ideograph(c) || is_chinese_punctuation(c)
}

/// Holds a text to the rules, with `letters[i]` telling whether character
/// `i` of the text, white space around it apart, is a letter.
pub fn validate_text_with(text: &str, letters: &Vec<bool>) -> (r: Result<(), InputError>)
    ensures
        r == text_verdict(text@, letters@),
{
    let chars = to_chars(text);
    let t = trimmed(&chars);
    if t.len() == 0 {
        return Err(InputError::Empty);
    }
    let mut any_letter = false;
    let mut i: usize = 0;
    while i < t.len()
        invariant
            i <= t.len(),
            t@ == trim(text@),
            forall|j: int| 0 <= j < i ==> allowed_at(t@, letters@, j),
            any_letter == exists|j: int| 0 <= j < i && letter_at(t@, letters@, j),
        decreases t.len() - i,
    {
        let letter = i < letters.len() && letters[i];
        if !is_allowed(t[i], letter) {
            assert(!allowed_at(t@, letters@, i as int));
            return Err(InputError::InvalidCharacter);
        }
        if letter || is_chinese_ideograph(t[i]) {
            assert(letter_at(t@, letters@, i as int));
            any_letter = true;
        }
        i += 1;
    }
    if !any_letter {
        return Err(InputError::NoLetter);
    }
    if longer_than(&t, 200) {
        return Err(InputError::BadLength);
    }
    Ok(())
}

/// Holds a text to the rules: it is not empty, holds only letters, digits,
/// punctuation and white space, holds a letter, and is at most 200 bytes
/// long.
pub fn validate_text(text: &str) -> (r: Result<(), InputError>)
    ensures
        r == text_verdict(text@, letters_of(text@)),
{
    let chars = to_chars(text);
    let t = trimmed(&chars);
    let mut letters: Vec<bool> = Vec::new();
    let mut i: usize = 0;
    while i < t.len()
        invariant
            i <= t.len(),
            t@ == trim(text@),
            letters@ == letters_of(text@).take(i as int),
        decreases t.len() - i,
    {
        let ghost before = letters@;
        let letter = t[i].is_alphabetic();
        letters.push(letter);
        assert(letters_of(text@).take(i + 1) =~= before.push(letter));
        i += 1;
    }
    assert(letters_of(text@).take(t.len() as int) =~= letters_of(text@));
    validate_text_with(text, &letters)
}

/// What the rules say of a word: it is not empty, holds only the letters of
/// ASCII and hyphens, and is at most 50 characters long.
pub open spec fn word_verdict(s: Seq<char>) -> Result<(), InputError> {
    let t = trim(s);
    if t.len() == 0 {
        Err(InputError::Empty)
    } else if exists|i: int| 0 <= i < t.len() && !word_char(#[trigger] t[i]) {
        Err(InputError::InvalidCharacter)
    } else if t.len() > 50 {
        Err(InputError::BadLength)
    } else {
        Ok(())
    }
}

/// The characters of a word.
pub open spec fn word_char(c: char) -> bool {
    ('a' <= c <= 'z') || ('A' <= c <= 'Z') || c == '-'
}

/// Holds a word to the rules.
pub fn validate_word(word: &str) -> (r: Result<(), InputError>)
    ensures
        r == word_verdict(word@),
{
    let chars = to_chars(word);
    let t = trimmed(&chars);
    if t.len() == 0 {
        return Err(InputError::Empty);
    }
    let mut i: usize = 0;
    while i < t.len()
        invariant
            i <= t.len(),
            t@ == trim(word@),
            forall|j: int| 0 <= j < i ==> word_char(#[trigger] t@[j]),
        decreases t.len() - i,
    {
        let c = t[i];
        if !(('a' <= c && c <= 'z') || ('A' <= c && c <= 'Z') || c == '-') {
            return Err(InputError::InvalidCharacter);
        }
        i += 1;
    }
    if t.len() > 50 {
        return Err(InputError::BadLength);
    }
    Ok(())
}

} // verus!
