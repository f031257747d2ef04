use word4you::config::{mask_key, ConfigError, ConfigManager, UserConfig};

#[test]
fn test_migrate_old_config() {
    let old_config_str = r#"
gemini_api_key = "test_key_123"
gemini_model_name = "gemini-1.5-flash"
vocabulary_base_dir = "~/Documents"
git_enabled = true
git_remote_url = "https://github.com/user/repo.git"
"#;

    let migrated_config = ConfigManager::migrate_old_config(old_config_str).unwrap();

    assert_eq!(migrated_config.ai_provider, "gemini");
    assert_eq!(migrated_config.gemini_api_key, "test_key_123");
    assert_eq!(migrated_config.gemini_model_name, "gemini-1.5-flash");
    assert_eq!(migrated_config.qwen_api_key, "");
    assert_eq!(migrated_config.qwen_model_name, "qwen-turbo");
    assert_eq!(migrated_config.vocabulary_base_dir, "~/Documents");
    assert_eq!(migrated_config.git_enabled, true);
    assert_eq!(
        migrated_config.git_remote_url,
        Some("https://github.com/user/repo.git".to_string())
    );
}

#[test]
fn test_migrate_old_config_invalid_toml() {
    let invalid_config_str = r#"
gemini_api_key = "test_key_123"
invalid_field = "should_fail"
"#;

    let result = ConfigManager::migrate_old_config(invalid_config_str);
    assert!(result.is_err());
}

const NEW: &str = r#"
ai_provider = "qwen"
gemini_api_key = "g"
gemini_model_name = "gm"
qwen_api_key = "q"
qwen_model_name = "qm"
vocabulary_base_dir = "/data"
git_enabled = false
unknown = 5
"#;

#[test]
fn settings_of_today_are_read_as_they_stand() {
    let (c, migrated) = UserConfig::from_text(NEW).unwrap();
    assert!(!migrated);
    assert_eq!(c.ai_provider, "qwen");
    assert_eq!(c.gemini_api_key, "g");
    assert_eq!(c.gemini_model_name, "gm");
    assert_eq!(c.qwen_api_key, "q");
    assert_eq!(c.qwen_model_name, "qm");
    assert_eq!(c.vocabulary_base_dir, "/data");
    assert!(!c.git_enabled);
    assert_eq!(c.git_remote_url, None);
}

#[test]
fn settings_in_the_older_format_are_brought_up_to_date() {
    let old = "gemini_api_key = \"k\"\ngemini_model_name = \"m\"\nvocabulary_base_dir = \"~\"\ngit_enabled = false\n";
    let (c, migrated) = UserConfig::from_text(old).unwrap();
    assert!(migrated);
    assert_eq!(c.ai_provider, "gemini");
    assert_eq!(c.gemini_api_key, "k");
    assert_eq!(c.qwen_model_name, "qwen-turbo");
    assert_eq!(c.git_remote_url, None);
    // a file of today with a field too few is read as one in the older format
    let partly = format!("{}ai_provider = \"qwen\"\n", old);
    let (c, migrated) = UserConfig::from_text(&partly).unwrap();
    assert!(migrated);
    assert_eq!(c.ai_provider, "gemini");
}

#[test]
fn what_is_no_settings_file_is_refused() {
    for text in [
        "",
        "not toml at all [",
        "gemini_api_key = 1\ngemini_model_name = \"m\"\nvocabulary_base_dir = \"~\"\ngit_enabled = false\n",
        "gemini_api_key = \"k\"\ngemini_model_name = \"m\"\nvocabulary_base_dir = \"~\"\ngit_enabled = \"false\"\n",
        "gemini_api_key = \"k\"\ngemini_model_name = \"m\"\nvocabulary_base_dir = \"~\"\ngit_enabled = false\ngit_remote_url = 7\n",
        "gemini_api_key = \"k\"\ngemini_api_key = \"k\"\n",
    ] {
        assert_eq!(UserConfig::from_text(text).unwrap_err(), ConfigError::Malformed, "{:?}", text);
        assert_eq!(
            ConfigManager::migrate_old_config(text).unwrap_err(),
            ConfigError::Malformed,
            "{:?}",
            text
        );
    }
    assert_eq!(ConfigError::Malformed.message(), "Configuration file is not valid");
}

#[test]
fn a_key_is_shown_by_its_first_characters() {
    assert_eq!(mask_key("abcdefgh"), "abcd...");
    assert_eq!(mask_key("abcd"), "abcd...");
    assert_eq!(mask_key("ab"), "ab...");
    assert_eq!(mask_key(""), "...");
    assert_eq!(mask_key("日本語テキスト"), "日本語テ...");
}
