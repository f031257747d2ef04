use word4you::ai_client::AiProvider;
use word4you::config::{
    expand_tilde_path, Config, ConfigError, ConfigManager, EnvSettings, UserConfig,
};
use word4you::prompt_templates::{
    replace_all, PromptTemplates, CHINESE_SENTENCE, ENGLISH_WORD, GENERAL, MIXED_PHRASE,
    PLACEHOLDER,
};
use word4you::text::{from_chars, to_chars};
use word4you::utils::{classify_input, InputClassification, InputType, Language};

#[test]
fn providers_are_read_whatever_the_case() {
    assert_eq!(AiProvider::parse("gemini"), Ok(AiProvider::Gemini));
    assert_eq!(AiProvider::parse("QWEN"), Ok(AiProvider::Qwen));
    assert_eq!(AiProvider::parse("Gemini"), Ok(AiProvider::Gemini));
    assert_eq!(AiProvider::parse("GPT "), Err("Unknown AI provider: GPT ".to_string()));
    assert_eq!(AiProvider::parse(""), Err("Unknown AI provider: ".to_string()));
    assert_eq!("qwen".parse::<AiProvider>(), Ok(AiProvider::Qwen));
    assert_eq!("GEMINI".parse::<AiProvider>(), Ok(AiProvider::Gemini));
    assert_eq!("Mistral".parse::<AiProvider>(), Err("Unknown AI provider: Mistral".to_string()));
    assert_eq!(AiProvider::from_lowercase("X", "qwen"), Ok(AiProvider::Qwen));
    assert_eq!(AiProvider::from_lowercase("qwen", "x"), Err("Unknown AI provider: qwen".to_string()));
    assert_eq!(AiProvider::Gemini.name(), "gemini");
    assert_eq!(AiProvider::Qwen.name(), "qwen");
}

#[test]
fn a_user_who_set_nothing_has_the_defaults() {
    let c = UserConfig::default();
    assert_eq!(c.ai_provider, "gemini");
    assert_eq!(c.gemini_api_key, "");
    assert_eq!(c.gemini_model_name, "gemini-2.0-flash-001");
    assert_eq!(c.qwen_api_key, "");
    assert_eq!(c.qwen_model_name, "qwen-turbo");
    assert_eq!(c.vocabulary_base_dir, "~");
    assert!(!c.git_enabled);
    assert_eq!(c.git_remote_url, None);
}

fn env() -> EnvSettings {
    EnvSettings {
        ai_provider: None,
        gemini_api_key: None,
        gemini_model_name: None,
        qwen_api_key: None,
        qwen_model_name: None,
        vocabulary_base_dir: None,
        git_enabled: None,
        git_remote_url: None,
    }
}

#[test]
fn the_environment_counts_where_it_holds_a_gemini_key() {
    assert!(UserConfig::from_env(env()).is_none());
    let mut e = env();
    e.qwen_api_key = Some("q".to_string());
    assert!(UserConfig::from_env(e).is_none());
    let mut e = env();
    e.gemini_api_key = Some("g".to_string());
    let c = UserConfig::from_env(e).unwrap();
    assert_eq!(c.ai_provider, "gemini");
    assert_eq!(c.gemini_api_key, "g");
    assert_eq!(c.gemini_model_name, "gemini-2.0-flash-001");
    assert_eq!(c.qwen_api_key, "");
    assert_eq!(c.qwen_model_name, "qwen-turbo");
    assert_eq!(c.vocabulary_base_dir, "~");
    assert!(!c.git_enabled);
    assert_eq!(c.git_remote_url, None);
    let mut e = env();
    e.gemini_api_key = Some("g".to_string());
    e.ai_provider = Some("qwen".to_string());
    e.qwen_api_key = Some("q".to_string());
    e.vocabulary_base_dir = Some("/data".to_string());
    e.git_enabled = Some("TRUE".to_string());
    e.git_remote_url = Some(String::new());
    let c = UserConfig::from_env(e).unwrap();
    assert_eq!(c.ai_provider, "qwen");
    assert_eq!(c.qwen_api_key, "q");
    assert_eq!(c.vocabulary_base_dir, "/data");
    assert!(c.git_enabled);
    assert_eq!(c.git_remote_url, None);
    let mut e = env();
    e.gemini_api_key = Some("g".to_string());
    e.git_enabled = Some("yes".to_string());
    e.git_remote_url = Some("git@host:r.git".to_string());
    let c = UserConfig::from_env(e).unwrap();
    assert!(!c.git_enabled);
    assert_eq!(c.git_remote_url.as_deref(), Some("git@host:r.git"));
}

#[test]
fn a_tilde_at_the_start_stands_for_the_home_directory() {
    assert_eq!(expand_tilde_path("~", "/home/me"), "/home/me");
    assert_eq!(expand_tilde_path("~/Documents", "/home/me"), "/home/me/Documents");
    assert_eq!(expand_tilde_path("/x/~", "/home/me"), "/x/~");
    assert_eq!(expand_tilde_path("", "/home/me"), "");
    assert_eq!(expand_tilde_path("~~", "h"), "h~");
}

#[test]
fn the_settings_are_kept_below_the_home_directory() {
    assert_eq!(
        ConfigManager::get_config_file_path(Some("/home/me")),
        Ok("/home/me/.config/word4you/config.toml".to_string())
    );
    assert_eq!(ConfigManager::get_config_dir(Some("/home/me")), Ok("/home/me/.config/word4you".to_string()));
    assert_eq!(ConfigManager::get_config_file_path(None), Err(ConfigError::NoHome));
    assert_eq!(ConfigError::NoHome.message(), "Could not determine home directory");
}

#[test]
fn the_program_works_with_what_the_user_keeps() {
    let mut user = UserConfig::default();
    assert!(matches!(Config::from_user(user, "/home/me"), Err(ConfigError::NoApiKey)));
    user = UserConfig::default();
    user.qwen_api_key = "q".to_string();
    user.ai_provider = "qwen".to_string();
    user.git_enabled = true;
    user.git_remote_url = Some("url".to_string());
    let c = Config::from_user(user, "/home/me").unwrap();
    assert_eq!(c.vocabulary_notebook_file, "/home/me/word4you/vocabulary_notebook.md");
    assert_eq!(c.ai_provider, "qwen");
    assert_eq!(c.qwen_api_key, "q");
    assert_eq!(c.prompt_template, GENERAL);
    assert!(c.git_enabled);
    assert_eq!(c.git_remote_url.as_deref(), Some("url"));
    assert_eq!(c.provider(), Ok(AiProvider::Qwen));
    let mut user = UserConfig::default();
    user.qwen_api_key = "q".to_string();
    let c = Config::from_user(user, "/home/me").unwrap();
    assert_eq!(c.provider(), Err(ConfigError::MissingKey(AiProvider::Gemini)));
    assert_eq!(
        ConfigError::MissingKey(AiProvider::Gemini).message(),
        "Gemini API key not configured"
    );
    let mut user = UserConfig::default();
    user.gemini_api_key = "g".to_string();
    user.ai_provider = "qwen".to_string();
    let c = Config::from_user(user, "/home/me").unwrap();
    assert_eq!(c.provider(), Err(ConfigError::MissingKey(AiProvider::Qwen)));
    assert_eq!(ConfigError::MissingKey(AiProvider::Qwen).message(), "QWEN API key not configured");
    let mut user = UserConfig::default();
    user.gemini_api_key = "g".to_string();
    user.ai_provider = "anything".to_string();
    assert_eq!(Config::from_user(user, "h").unwrap().provider(), Ok(AiProvider::Gemini));
}

#[test]
fn each_language_and_kind_has_its_prompt() {
    let mut seen: Vec<String> = Vec::new();
    for language in [Language::English, Language::Chinese, Language::Mixed] {
        for input_type in [InputType::Word, InputType::Phrase, InputType::Sentence] {
            let t = PromptTemplates::get_template(&InputClassification { language, input_type });
            assert!(t.contains(PLACEHOLDER), "{:?} {:?}", language, input_type);
            assert!(t.contains("**Output Structure:**"));
            assert!(!seen.contains(&t));
            seen.push(t);
        }
    }
    assert_eq!(PromptTemplates::get_template(&classify_input("hello")), ENGLISH_WORD);
    assert_eq!(PromptTemplates::get_template(&classify_input("早起的鸟儿有虫吃。")), CHINESE_SENTENCE);
    assert_eq!(PromptTemplates::get_template(&classify_input("API 接口 doc")), MIXED_PHRASE);
    assert!(ENGLISH_WORD.starts_with("\n**Role:** You are a bilingual dictionary assistant providing structured explanations for English words.\n"));
    assert!(ENGLISH_WORD.ends_with("Please provide the structured explanation for: [INSERT TEXT HERE]\n"));
}

#[test]
fn the_input_takes_the_place_of_the_placeholder() {
    assert_eq!(
        PromptTemplates::fill("Explain: [INSERT TEXT HERE]\n", "résumé"),
        "Explain: résumé\n"
    );
    assert_eq!(
        PromptTemplates::fill("[INSERT TEXT HERE] and [INSERT TEXT HERE]", "x"),
        "x and x"
    );
    assert_eq!(PromptTemplates::fill("nothing to fill", "x"), "nothing to fill");
    let filled = PromptTemplates::fill(ENGLISH_WORD, "hello");
    assert_eq!(filled, ENGLISH_WORD.replace("[INSERT TEXT HERE]", "hello"));
    let got = replace_all(&to_chars("aaaa"), &to_chars("aa"), &to_chars("b"));
    assert_eq!(from_chars(&got), "bb");
    let got = replace_all(&to_chars("abab"), &to_chars("ab"), &to_chars("abab"));
    assert_eq!(from_chars(&got), "abababab");
}
