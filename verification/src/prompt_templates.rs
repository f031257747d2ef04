//! The prompts that ask for an explanation, one for each language and kind
//! of input.

use crate::text::{find, from_chars, occurs_at, push_all, search_from, slice_of, to_chars};
use crate::utils::{InputClassification, InputType, Language};
use vstd::prelude::*;

verus! {

/// The prompt for an English word.
pub const ENGLISH_WORD: &'static str = r#"
**Role:** You are a bilingual dictionary assistant providing structured explanations for English words.

**Output Structure:**
## [WORD]

*/Phonetics (IPA)/*

> Definition in English

**Chinese Translation**

- Example sentence in English
- 中文例句翻译

*Usage tip or note in English*

**Example:**
## resilience

*/rɪˈzɪliəns/*

> The capacity to recover quickly from difficulties; toughness.

**韧性；恢复力**

- Her resilience helped her overcome the crisis.
- 她的韧性帮助她度过了危机。

*Often describes emotional or physical toughness in challenging situations.*

Please provide the structured explanation for: [INSERT TEXT HERE]
"#;

/// The prompt for an English phrase.
pub const ENGLISH_PHRASE: &'static str = r#"
**Role:** You are a bilingual dictionary assistant providing structured explanations for English phrases.

**Output Structure:**
## [PHRASE]

> Meaning and usage in English

**Chinese Translation**

- Example sentence using the phrase in English
- 中文例句翻译

*Usage context or cultural note*

**Example:**
## break the ice

> To initiate conversation in a social setting; to overcome initial awkwardness.

**打破僵局；破冰**

- He told a joke to break the ice at the meeting.
- 他讲了个笑话来打破会议上的僵局。

*Commonly used in social and business contexts to describe starting conversations.*

Please provide the structured explanation for: [INSERT TEXT HERE]
"#;

/// The prompt for an English sentence.
pub const ENGLISH_SENTENCE: &'static str = r#"
**Role:** You are a translation assistant providing accurate Chinese translations for English sentences.

**Output Structure:**
## [ORIGINAL SENTENCE]

**[CHINESE TRANSLATION]**

**Example:**
## The early bird catches the worm.

**早起的鸟儿有虫吃。**

Please provide the translation for: [INSERT TEXT HERE]
"#;

/// The prompt for a Chinese word.
pub const CHINESE_WORD: &'static str = r#"
**Role:** You are a bilingual dictionary assistant providing structured explanations for Chinese characters/words.

**Output Structure:**
## [CHINESE CHARACTER/WORD]

*/Pinyin with tones/*

> Definition and meaning in English

**English Translation**

- 中文例句
- English example sentence translation

*Usage note or cultural context*

**Example:**
## 韧性

*/rèn xìng/*

> The quality of being resilient; the ability to recover from difficulties.

**Resilience; Toughness**

- 她的韧性帮助她度过了困难时期。
- Her resilience helped her get through the difficult period.

*Often used to describe mental or emotional strength in facing challenges.*

Please provide the structured explanation for: [INSERT TEXT HERE]
"#;

/// The prompt for a Chinese phrase.
pub const CHINESE_PHRASE: &'static str = r#"
**Role:** You are a bilingual dictionary assistant providing structured explanations for Chinese phrases.

**Output Structure:**
## [CHINESE PHRASE]

*/Pinyin with tones/*

> Meaning and usage in English

**English Translation**

- 中文例句使用这个短语
- English translation of the example sentence

*Cultural context or usage note*

**Example:**
## 打破僵局

*/dǎ pò jiāng jú/*

> To break a deadlock or awkward situation; to initiate progress in a stalled situation.

**Break the deadlock; Break the ice**

- 他的幽默帮助打破了会议上的僵局。
- His humor helped break the deadlock in the meeting.

*Commonly used in business and social contexts to describe overcoming obstacles.*

Please provide the structured explanation for: [INSERT TEXT HERE]
"#;

/// The prompt for a Chinese sentence.
pub const CHINESE_SENTENCE: &'static str = r#"
**Role:** You are a translation assistant providing accurate English translations for Chinese sentences.

**Output Structure:**
## [ORIGINAL CHINESE SENTENCE]

**[ENGLISH TRANSLATION]**

**Example:**
## 早起的鸟儿有虫吃。

**The early bird catches the worm.**

Please provide the translation for: [INSERT TEXT HERE]
"#;

/// The prompt for a word of mixed language.
pub const MIXED_WORD: &'static str = r#"
**Role:** You are a bilingual dictionary assistant providing explanations for mixed-language words or terms.

**Output Structure:**
## [MIXED TERM]

*/Pronunciation guide/*

> Definition and context in English

**Translation**

- Example sentence showing usage
- 翻译例句

*Note about mixed-language usage*

Please provide the structured explanation for: [INSERT TEXT HERE]
"#;

/// The prompt for a phrase of mixed language.
pub const MIXED_PHRASE: &'static str = r#"
**Role:** You are a bilingual dictionary assistant providing explanations for mixed-language phrases.

**Output Structure:**
## [MIXED PHRASE]

> Meaning and context

**Translation**

- Example sentence in context
- 翻译例句

*Note about code-switching or mixed usage*

Please provide the structured explanation for: [INSERT TEXT HERE]
"#;

/// The prompt for a sentence of mixed language.
pub const MIXED_SENTENCE: &'static str = r#"
**Role:** You are a translation assistant for mixed-language sentences.

**Output Structure:**
## [ORIGINAL MIXED SENTENCE]

**[TRANSLATION TO DOMINANT LANGUAGE]**

Please provide the translation for: [INSERT TEXT HERE]
"#;

/// The prompt for an input of any language and kind.
pub const GENERAL: &'static str = r#"
**Role:** You are a bilingual dictionary assistant that provides structured explanations.
**Input Handling:**
- Detect language automatically (English/Chinese)
- Detect if input is a word, phrase, sentence, or paragraph

**Output Handling:**
- For words: Full structured output
- For phrases: Omit phonetics
- For sentences/paragraphs: Return only the original input and translation

**Output Structure:**
## [INPUT]

*/Phonetics/*

> Definition in English

**Translation**

- Example (source language)
- Example (target language)

*Usage Tip in English*

**Word Example:**
## resilience

*/rɪˈzɪliəns/*

> Capacity to recover quickly from difficulties.

**韧性；恢复力**

- Her resilience helped her overcome the crisis.
- 她的韧性帮助她度过了危机。

*Often describes emotional or physical toughness.*

Provide any word/phrase/sentence to generate the structured output:
[INSERT TEXT HERE]
"#;

/// The prompt for a sentence that uses two given words.
pub const COMPOSE_SENTENCE: &'static str = r#"
**Role:** You are a language tutor who writes one natural example sentence that uses two given words.

**Output Structure:**
## [WORD 1] + [WORD 2]

> One sentence in English that uses both words

**Chinese Translation**

*Short note on how the two words work together*

Please compose a sentence with these two words: [INSERT TEXT HERE]
"#;

/// The place in a prompt where the input goes.
pub const PLACEHOLDER: &'static str = "[INSERT TEXT HERE]";

/// The place in a prompt where a word goes.
pub const WORD_PLACEHOLDER: &'static str = "[INSERT WORD HERE]";

/// The prompts.
pub struct PromptTemplates;

/// The prompt for an input of the given language and kind.
pub open spec fn template_of(c: InputClassification) -> Seq<char> {
    match (c.language, c.input_type) {
        (Language::English, InputType::Word) => ENGLISH_WORD@,
        (Language::English, InputType::Phrase) => ENGLISH_PHRASE@,
        (Language::English, InputType::Sentence) => ENGLISH_SENTENCE@,
        (Language::Chinese, InputType::Word) => CHINESE_WORD@,
        (Language::Chinese, InputType::Phrase) => CHINESE_PHRASE@,
        (Language::Chinese, InputType::Sentence) => CHINESE_SENTENCE@,
        (Language::Mixed, InputType::Word) => MIXED_WORD@,
        (Language::Mixed, InputType::Phrase) => MIXED_PHRASE@,
        (Language::Mixed, InputType::Sentence) => MIXED_SENTENCE@,
    }
}

impl PromptTemplates {
    /// The prompt for an input of the given language and kind.
    pub fn get_template(classification: &InputClassification) -> (out: String)
        ensures
            out@ == template_of(*classification),
    {
        match (classification.language, classification.input_type) {
            (Language::English, InputType::Word) => Self::english_word_template(),
            (Language::English, InputType::Phrase) => Self::english_phrase_template(),
            (Language::English, InputType::Sentence) => Self::english_sentence_template(),
            (Language::Chinese, InputType::Word) => Self::chinese_word_template(),
            (Language::Chinese, InputType::Phrase) => Self::chinese_phrase_template(),
            (Language::Chinese, InputType::Sentence) => Self::chinese_sentence_template(),
            (Language::Mixed, InputType::Word) => Self::mixed_word_template(),
            (Language::Mixed, InputType::Phrase) => Self::mixed_phrase_template(),
            (Language::Mixed, InputType::Sentence) => Self::mixed_sentence_template(),
        }
    }

    fn english_word_template() -> (out: String)
        ensures
            out@ == ENGLISH_WORD@,
    {
        String::from_str(ENGLISH_WORD)
    }

    fn english_phrase_template() -> (out: String)
        ensures
            out@ == ENGLISH_PHRASE@,
    {
        String::from_str(ENGLISH_PHRASE)
    }

    fn english_sentence_template() -> (out: String)
        ensures
            out@ == ENGLISH_SENTENCE@,
    {
        String::from_str(ENGLISH_SENTENCE)
    }

    fn chinese_word_template() -> (out: String)
        ensures
            out@ == CHINESE_WORD@,
    {
        String::from_str(CHINESE_WORD)
    }

    fn chinese_phrase_template() -> (out: String)
        ensures
            out@ == CHINESE_PHRASE@,
    {
        String::from_str(CHINESE_PHRASE)
    }

    fn chinese_sentence_template() -> (out: String)
        ensures
            out@ == CHINESE_SENTENCE@,
    {
        String::from_str(CHINESE_SENTENCE)
    }

    fn mixed_word_template() -> (out: String)
        ensures
            out@ == MIXED_WORD@,
    {
        String::from_str(MIXED_WORD)
    }

    fn mixed_phrase_template() -> (out: String)
        ensures
            out@ == MIXED_PHRASE@,
    {
        String::from_str(MIXED_PHRASE)
    }

    fn mixed_sentence_template() -> (out: String)
        ensures
            out@ == MIXED_SENTENCE@,
    {
        String::from_str(MIXED_SENTENCE)
    }

    /// The prompt for a sentence that uses two given words.
    pub fn compose_sentence_template() -> (out: String)
        ensures
            out@ == COMPOSE_SENTENCE@,
    {
        String::from_str(COMPOSE_SENTENCE)
    }

    /// The two words as they are put into the prompt: each in quotation
    /// marks, with a comma between them.
    pub fn word_pair(word1: &str, word2: &str) -> (out: String)
        ensures
            out@ == "\""@ + word1@ + "\", \""@ + word2@ + "\""@,
    {
        let mut chars = to_chars("\"");
        push_all(&mut chars, &to_chars(word1));
        push_all(&mut chars, &to_chars("\", \""));
        push_all(&mut chars, &to_chars(word2));
        push_all(&mut chars, &to_chars("\""));
        from_chars(&chars)
    }

    /// The prompt with the input in the place of every placeholder.
    pub fn fill(template: &str, input: &str) -> (out: String)
        ensures
            out@ == replaced(template@, PLACEHOLDER@, input@),
    {
        proof {
            reveal_strlit("[INSERT TEXT HERE]");
        }
        let t = to_chars(template);
        let p = to_chars(PLACEHOLDER);
        let w = to_chars(input);
        from_chars(&replace_all(&t, &p, &w))
    }
}

impl PromptTemplates {
    /// The prompt with the word, in lower case, in the place of every
    /// placeholder for a word.
    pub fn fill_word(template: &str, word: &str) -> (out: String)
        ensures
            out@ == replaced(template@, WORD_PLACEHOLDER@, crate::text::lowercase(word@)),
    {
        let lower = word.to_lowercase();
        PromptTemplates::fill_with(template, WORD_PLACEHOLDER, lower.as_str())
    }

    /// The prompt with `input` in the place of every `placeholder`. An
    /// empty placeholder stands nowhere.
    pub fn fill_with(template: &str, placeholder: &str, input: &str) -> (out: String)
        ensures
            out@ == replaced(template@, placeholder@, input@),
    {
        let t = to_chars(template);
        let p = to_chars(placeholder);
        let w = to_chars(input);
        if p.len() == 0 {
            from_chars(&t)
        } else {
            from_chars(&replace_all(&t, &p, &w))
        }
    }
}

/// The text with `with` in the place of every `pattern`, from left to
/// right, no two places overlapping.
pub open spec fn replaced(s: Seq<char>, pattern: Seq<char>, with: Seq<char>) -> Seq<char>
    decreases s.len(),
{
    if pattern.len() == 0 {
        s
    } else {
        match find(s, pattern) {
            Some(k) => if 0 <= k && k + pattern.len() <= s.len() {
                s.take(k) + with + replaced(s.skip(k + pattern.len()), pattern, with)
            } else {
                s
            },
            None => s,
        }
    }
}

/// Where a pattern stands first in the rest of a text.
pub proof fn lemma_find_in_rest(s: Seq<char>, p: Seq<char>, from: int, i: int)
    requires
        0 <= from <= i,
        i <= s.len(),
    ensures
        crate::text::find_from(s, p, i) == match crate::text::find_from(s.skip(from), p, i - from) {
            Some(k) => Some(k + from),
            None => None,
        },
    decreases s.len() - i,
{
    let rest = s.skip(from);
    if i + p.len() > s.len() {
    } else {
        assert(s.subrange(i, i + p.len()) =~= rest.subrange(i - from, i - from + p.len()));
        if !occurs_at(s, p, i) {
            if i < s.len() {
                lemma_find_in_rest(s, p, from, i + 1);
            }
        }
    }
}

/// Puts `with` in the place of every `pattern`.
pub fn replace_all(s: &Vec<char>, pattern: &Vec<char>, with: &Vec<char>) -> (out: Vec<char>)
    requires
        pattern.len() > 0,
    ensures
        out@ == replaced(s@, pattern@, with@),
{
    let n: usize = s.len();
    let mut out: Vec<char> = Vec::new();
    let mut at: usize = 0;
    assert(s@.skip(0) =~= s@);
    assert(out@ + replaced(s@, pattern@, with@) =~= replaced(s@, pattern@, with@));
    loop
        invariant
            at <= n,
            n == s.len(),
            pattern.len() > 0,
            replaced(s@, pattern@, with@) == out@ + replaced(s@.skip(at as int), pattern@, with@),
        decreases n - at,
    {
        let ghost rest = s@.skip(at as int);
        let ghost before = out@;
        proof {
            lemma_find_in_rest(s@, pattern@, at as int, at as int);
        }
        match search_from(s, pattern, at) {
            Some(k) => {
                let piece = slice_of(s, at, k);
                push_all(&mut out, &piece);
                push_all(&mut out, with);
                assert(piece@ =~= rest.take(k - at));
                assert(rest.skip(k - at + pattern.len()) =~= s@.skip(k + pattern.len()));
                assert(before + (rest.take(k - at) + with@ + replaced(
                    s@.skip(k + pattern.len()),
                    pattern@,
                    with@,
                )) =~= out@ + replaced(s@.skip(k + pattern.len()), pattern@, with@));
                at = k + pattern.len();
            },
            None => {
                let piece = slice_of(s, at, n);
                push_all(&mut out, &piece);
                assert(piece@ =~= rest);
                return out;
            },
        }
    }
}

} // verus!
