use word4you::utils::{
    classify_input, determine_input_type, determine_language, is_chinese_ideograph,
    is_chinese_punctuation, validate_text, validate_text_with, validate_word, InputError,
    InputType, Language,
};

#[test]
fn test_validate_text() {
    assert!(validate_text("hello").is_ok());
    assert!(validate_text("test-word").is_ok());
    assert!(validate_text("a").is_ok());
    assert!(validate_text("你好").is_ok());
    assert!(validate_text("Hello world").is_ok());
    assert!(validate_text("这是一个句子。").is_ok());

    assert!(validate_text("").is_err());
    assert!(validate_text("   ").is_err());

    let long_text = "a".repeat(201);
    assert!(validate_text(&long_text).is_err());
}

#[test]
fn test_language_classification() {
    // English
    assert_eq!(determine_language("hello"), Language::English);
    assert_eq!(determine_language("Hello world!"), Language::English);

    // Chinese
    assert_eq!(determine_language("你好"), Language::Chinese);
    assert_eq!(determine_language("这是一个测试。"), Language::Chinese);

    // Mixed
    assert_eq!(determine_language("Hello 你好"), Language::Mixed);
    assert_eq!(determine_language("API接口"), Language::Mixed);
}

#[test]
fn test_input_type_classification() {
    // English words
    let classification = classify_input("hello");
    assert_eq!(classification.language, Language::English);
    assert_eq!(classification.input_type, InputType::Word);

    // English phrases
    let classification = classify_input("break the ice");
    assert_eq!(classification.language, Language::English);
    assert_eq!(classification.input_type, InputType::Phrase);

    // English sentences
    let classification = classify_input("The early bird catches the worm.");
    assert_eq!(classification.language, Language::English);
    assert_eq!(classification.input_type, InputType::Sentence);

    // Chinese words
    let classification = classify_input("你好");
    assert_eq!(classification.language, Language::Chinese);
    assert_eq!(classification.input_type, InputType::Phrase); // 2 characters = phrase

    let classification = classify_input("好");
    assert_eq!(classification.language, Language::Chinese);
    assert_eq!(classification.input_type, InputType::Word);

    // Chinese phrases
    let classification = classify_input("打破僵局");
    assert_eq!(classification.language, Language::Chinese);
    assert_eq!(classification.input_type, InputType::Phrase);

    // Chinese sentences
    let classification = classify_input("早起的鸟儿有虫吃。");
    assert_eq!(classification.language, Language::Chinese);
    assert_eq!(classification.input_type, InputType::Sentence);

    // Mixed language
    let classification = classify_input("Hello 世界");
    assert_eq!(classification.language, Language::Mixed);
}

#[test]
fn test_chinese_character_detection() {
    assert!(is_chinese_ideograph('你'));
    assert!(is_chinese_ideograph('好'));
    assert!(is_chinese_ideograph('世'));
    assert!(is_chinese_ideograph('界'));

    assert!(!is_chinese_ideograph('a'));
    assert!(!is_chinese_ideograph('A'));
    assert!(!is_chinese_ideograph('1'));
    assert!(!is_chinese_ideograph(' '));
}

#[test]
fn test_chinese_punctuation_detection() {
    assert!(is_chinese_punctuation('。'));
    assert!(is_chinese_punctuation('，'));
    assert!(is_chinese_punctuation('？'));
    assert!(is_chinese_punctuation('！'));

    assert!(!is_chinese_punctuation('.'));
    assert!(!is_chinese_punctuation(','));
    assert!(!is_chinese_punctuation('?'));
    assert!(!is_chinese_punctuation('!'));
}

#[test]
fn validate_text_names_the_rule_that_is_broken() {
    assert_eq!(validate_text(" \t "), Err(InputError::Empty));
    assert_eq!(validate_text("hello\u{1F600}"), Err(InputError::InvalidCharacter));
    assert_eq!(validate_text("1234 !?"), Err(InputError::NoLetter));
    assert_eq!(validate_text(&"a".repeat(200)), Ok(()));
    assert_eq!(validate_text(&"a".repeat(201)), Err(InputError::BadLength));
    // 67 ideographs take 201 bytes
    assert_eq!(validate_text(&"好".repeat(66)), Ok(()));
    assert_eq!(validate_text(&"好".repeat(67)), Err(InputError::BadLength));
    // the white space around the text does not count
    assert_eq!(validate_text(&format!("  {}  ", "a".repeat(200))), Ok(()));
}

#[test]
fn validate_text_goes_by_the_letters_it_is_told() {
    // "é" is a letter only because the caller says so
    assert_eq!(validate_text_with("é", &vec![true]), Ok(()));
    assert_eq!(validate_text_with("é", &vec![false]), Err(InputError::InvalidCharacter));
    assert_eq!(validate_text_with("a1", &vec![false, false]), Err(InputError::InvalidCharacter));
    assert_eq!(validate_text_with("-1", &vec![false, false]), Err(InputError::NoLetter));
}

#[test]
fn validate_text_takes_letters_from_the_standard_library() {
    assert_eq!(validate_text("été"), Ok(()));
    assert_eq!(validate_text("Ärger"), Ok(()));
    assert_eq!(validate_text("€"), Err(InputError::InvalidCharacter));
}

#[test]
fn validate_word_rules() {
    assert_eq!(validate_word("hello"), Ok(()));
    assert_eq!(validate_word("well-being"), Ok(()));
    assert_eq!(validate_word("  hello "), Ok(()));
    assert_eq!(validate_word(""), Err(InputError::Empty));
    assert_eq!(validate_word("two words"), Err(InputError::InvalidCharacter));
    assert_eq!(validate_word("caf\u{e9}"), Err(InputError::InvalidCharacter));
    assert_eq!(validate_word(&"a".repeat(50)), Ok(()));
    assert_eq!(validate_word(&"a".repeat(51)), Err(InputError::BadLength));
}

#[test]
fn language_is_chinese_from_three_in_five() {
    // 3 of 5 solid characters are Chinese
    assert_eq!(determine_language("ab你好吗"), Language::Chinese);
    // 2 of 4
    assert_eq!(determine_language("ab你好"), Language::Mixed);
    // white space does not count
    assert_eq!(determine_language("a b 你 好 吗"), Language::Chinese);
    assert_eq!(determine_language(""), Language::English);
    assert_eq!(determine_language("   "), Language::English);
    // punctuation counts as Chinese
    assert_eq!(determine_language("。。a"), Language::Chinese);
}

#[test]
fn input_type_by_words_and_marks() {
    assert_eq!(determine_input_type("hello", &Language::English), InputType::Word);
    assert_eq!(determine_input_type("hello!", &Language::English), InputType::Sentence);
    assert_eq!(determine_input_type("a b c d e", &Language::English), InputType::Phrase);
    assert_eq!(determine_input_type("a b c d e f", &Language::English), InputType::Sentence);
    assert_eq!(determine_input_type("一二三四五六七", &Language::Chinese), InputType::Phrase);
    assert_eq!(determine_input_type("一二三四五六七八", &Language::Chinese), InputType::Sentence);
    // no ideograph at all: the words decide
    assert_eq!(determine_input_type("API", &Language::Mixed), InputType::Word);
    assert_eq!(determine_input_type("a b c d", &Language::Mixed), InputType::Phrase);
    assert_eq!(determine_input_type("a b c d e", &Language::Mixed), InputType::Sentence);
    // one ideograph among words
    assert_eq!(determine_input_type("好 a", &Language::Mixed), InputType::Phrase);
}
