//! The file of the user's settings: a TOML table, read as the settings it
//! holds. A file in the older format, which knew Gemini alone, is read as
//! well and brought up to date.

use crate::config::{ConfigError, UserConfig, UserConfigView};
use vstd::prelude::*;

verus! {

/// A TOML table of the crate `toml`.
#[verifier::external_type_specification]
#[verifier::external_body]
#[verifier::reject_recursive_types(K)]
#[verifier::reject_recursive_types(V)]
pub struct ExTomlMap<K, V>(toml::map::Map<K, V>);

/// A TOML value of the crate `toml`.
#[verifier::external_type_specification]
#[verifier::external_body]
pub struct ExTomlValue(toml::Value);

/// What a table holds: for each of its keys the text of a string, or the
/// truth value of a boolean, or nothing more where the value is of another
/// kind.
pub uninterp spec fn table_entries(t: toml::Table) -> Map<Seq<char>, Result<Seq<char>, Option<bool>>>;

/// What `toml::Table::from_str` reads out of a text: the entries of the
/// table that the text holds as a TOML document, or nothing where the text is
/// no such document.
pub uninterp spec fn toml_document(text: Seq<char>) -> Option<
    Map<Seq<char>, Result<Seq<char>, Option<bool>>>,
>;

/// Calls `toml::Table::from_str`, through `str::parse`, which reads a TOML
/// document. The contract claims that the outcome depends on the characters
/// of the text alone: whether there is a table, and what it holds. Which
/// texts are documents, and what they hold, is not said.
#[verifier::external_body]
pub(crate) fn parse_table(text: &str) -> (r: Option<toml::Table>)
    ensures
        match r {
            Some(t) => toml_document(text@) == Some(table_entries(t)),
            None => toml_document(text@) is None,
        },
{
    match text.parse::<toml::Table>() {
        Ok(table) => Some(table),
        Err(_) => None,
    }
}

/// Calls `toml::map::Map::get` and hands out the text where the value is a
/// string.
#[verifier::external_body]
pub(crate) fn table_text(t: &toml::Table, key: &str) -> (r: Option<String>)
    ensures
        match r {
            Some(s) => table_entries(*t).contains_key(key@) && table_entries(*t)[key@] == Ok::<
                Seq<char>,
                Option<bool>,
            >(s@),
            None => !table_entries(*t).contains_key(key@) || table_entries(*t)[key@] is Err,
        },
{
    match t.get(key) {
        Some(toml::Value::String(s)) => Some(s.clone()),
        _ => None,
    }
}

/// Calls `toml::map::Map::get` and hands out the truth value where the
/// value is a boolean.
#[verifier::external_body]
pub(crate) fn table_flag(t: &toml::Table, key: &str) -> (r: Option<bool>)
    ensures
        match r {
            Some(b) => table_entries(*t).contains_key(key@) && table_entries(*t)[key@] == Err::<
                Seq<char>,
                Option<bool>,
            >(Some(b)),
            None => !table_entries(*t).contains_key(key@) || !(table_entries(*t)[key@] matches Err(
                Some(_),
            )),
        },
{
    match t.get(key) {
        Some(toml::Value::Boolean(b)) => Some(*b),
        _ => None,
    }
}

/// Calls `toml::map::Map::contains_key`.
#[verifier::external_body]
pub(crate) fn table_has(t: &toml::Table, key: &str) -> (r: bool)
    ensures
        r == table_entries(*t).contains_key(key@),
{
    t.contains_key(key)
}

/// The entries of a table.
pub type Entries = Map<Seq<char>, Result<Seq<char>, Option<bool>>>;

/// The text under a key, where the key holds a string.
pub open spec fn text_at(e: Entries, key: Seq<char>) -> Option<Seq<char>> {
    if e.contains_key(key) {
        match e[key] {
            Ok(s) => Some(s),
            Err(_) => None,
        }
    } else {
        None
    }
}

/// The truth value under a key, where the key holds a boolean.
pub open spec fn flag_at(e: Entries, key: Seq<char>) -> Option<bool> {
    if e.contains_key(key) {
        match e[key] {
            Err(Some(b)) => Some(b),
            _ => None,
        }
    } else {
        None
    }
}

/// Whether a key is absent or holds a string.
pub open spec fn text_or_absent(e: Entries, key: Seq<char>) -> bool {
    !e.contains_key(key) || e[key] is Ok
}

/// The settings that a table in the older format holds: the
/// Gemini key and model, the base directory, the use of git and, where it is
/// given, the remote. The provider is Gemini and the Qwen settings are the
/// defaults.
pub open spec fn old_settings(e: Entries) -> Option<UserConfigView> {
    match (
        text_at(e, "gemini_api_key"@),
        text_at(e, "gemini_model_name"@),
        text_at(e, "vocabulary_base_dir"@),
        flag_at(e, "git_enabled"@),
    ) {
        (Some(key), Some(model), Some(dir), Some(git)) if text_or_absent(e, "git_remote_url"@) => {
            Some(
                UserConfigView {
                    ai_provider: "gemini"@,
                    gemini_api_key: key,
                    gemini_model_name: model,
                    qwen_api_key: Seq::empty(),
                    qwen_model_name: "qwen-turbo"@,
                    vocabulary_base_dir: dir,
                    git_enabled: git,
                    git_remote_url: text_at(e, "git_remote_url"@),
                },
            )
        },
        _ => None,
    }
}

/// The settings that a table in the format of today holds: what the older
/// format holds, and with it the provider and the Qwen key and model.
pub open spec fn new_settings(e: Entries) -> Option<UserConfigView> {
    match (
        old_settings(e),
        text_at(e, "ai_provider"@),
        text_at(e, "qwen_api_key"@),
        text_at(e, "qwen_model_name"@),
    ) {
        (Some(old), Some(provider), Some(key), Some(model)) => Some(
            UserConfigView {
                ai_provider: provider,
                qwen_api_key: key,
                qwen_model_name: model,
                ..old
            },
        ),
        _ => None,
    }
}

/// The settings that a table holds, and whether they had to be brought up
/// to date.
pub open spec fn settings_in(e: Entries) -> Option<(UserConfigView, bool)> {
    match new_settings(e) {
        Some(c) => Some((c, false)),
        None => match old_settings(e) {
            Some(c) => Some((c, true)),
            None => None,
        },
    }
}

/// What the text of a settings file is read as: the settings that its
/// table holds, in either format, and whether they had to be brought up to
/// date. A text that is no TOML document, or whose table holds no settings,
/// is refused.
pub open spec fn settings_of_text(text: Seq<char>) -> Result<(UserConfigView, bool), ConfigError> {
    match toml_document(text) {
        Some(e) => match settings_in(e) {
            Some(found) => Ok(found),
            None => Err(ConfigError::Malformed),
        },
        None => Err(ConfigError::Malformed),
    }
}

/// What the text of a settings file in the older format is read as: the
/// settings that its table holds in that format. A text that is no TOML
/// document, or whose table lacks one of them, is refused.
pub open spec fn old_settings_of_text(text: Seq<char>) -> Result<UserConfigView, ConfigError> {
    match toml_document(text) {
        Some(e) => match old_settings(e) {
            Some(c) => Ok(c),
            None => Err(ConfigError::Malformed),
        },
        None => Err(ConfigError::Malformed),
    }
}

/// The view of settings that were read from a text, with the note whether
/// they were brought up to date.
pub open spec fn found_view(r: Result<(UserConfig, bool), ConfigError>) -> Result<
    (UserConfigView, bool),
    ConfigError,
> {
    match r {
        Ok((c, migrated)) => Ok((c@, migrated)),
        Err(e) => Err(e),
    }
}

/// The view of settings that were read from a text.
pub open spec fn migrated_view(r: Result<UserConfig, ConfigError>) -> Result<
    UserConfigView,
    ConfigError,
> {
    match r {
        Ok(c) => Ok(c@),
        Err(e) => Err(e),
    }
}

/// The view of settings that were read.
pub open spec fn read_view(r: Option<UserConfig>) -> Option<UserConfigView> {
    match r {
        Some(c) => Some(c@),
        None => None,
    }
}

impl UserConfig {
    /// Reads the settings out of a table in the older format.
    pub fn from_old_table(t: &toml::Table) -> (r: Option<UserConfig>)
        ensures
            read_view(r) == old_settings(table_entries(*t)),
    {
        let key = table_text(t, "gemini_api_key");
        let model = table_text(t, "gemini_model_name");
        let dir = table_text(t, "vocabulary_base_dir");
        let git = table_flag(t, "git_enabled");
        let url = table_text(t, "git_remote_url");
        if url.is_none() && table_has(t, "git_remote_url") {
            return None;
        }
        match (key, model, dir, git) {
            (Some(key), Some(model), Some(dir), Some(git)) => Some(
                UserConfig {
                    ai_provider: String::from_str("gemini"),
                    gemini_api_key: key,
                    gemini_model_name: model,
                    qwen_api_key: String::new(),
                    qwen_model_name: String::from_str("qwen-turbo"),
                    vocabulary_base_dir: dir,
                    git_enabled: git,
                    git_remote_url: url,
                },
            ),
            _ => None,
        }
    }

    /// Reads the settings out of a table in the format of today.
    pub fn from_table(t: &toml::Table) -> (r: Option<UserConfig>)
        ensures
            read_view(r) == new_settings(table_entries(*t)),
    {
        let old = UserConfig::from_old_table(t);
        let provider = table_text(t, "ai_provider");
        let key = table_text(t, "qwen_api_key");
        let model = table_text(t, "qwen_model_name");
        match (old, provider, key, model) {
            (Some(old), Some(provider), Some(key), Some(model)) => Some(
                UserConfig {
                    ai_provider: provider,
                    gemini_api_key: old.gemini_api_key,
                    gemini_model_name: old.gemini_model_name,
                    qwen_api_key: key,
                    qwen_model_name: model,
                    vocabulary_base_dir: old.vocabulary_base_dir,
                    git_enabled: old.git_enabled,
                    git_remote_url: old.git_remote_url,
                },
            ),
            _ => None,
        }
    }

    /// Reads the settings out of a table in either format, and tells
    /// whether they had to be brought up to date.
    pub fn from_either_table(t: &toml::Table) -> (r: Option<(UserConfig, bool)>)
        ensures
            match r {
                Some((c, migrated)) => settings_in(table_entries(*t)) == Some((c@, migrated)),
                None => settings_in(table_entries(*t)) is None,
            },
    {
        match UserConfig::from_table(t) {
            Some(c) => Some((c, false)),
            None => match UserConfig::from_old_table(t) {
                Some(c) => Some((c, true)),
                None => None,
            },
        }
    }

    /// Reads the settings out of the text of their file, and tells whether
    /// they had to be brought up to date. A text that is no TOML document, or
    /// whose table holds no settings, gives an error.
    pub fn from_text(text: &str) -> (r: Result<(UserConfig, bool), ConfigError>)
        ensures
            found_view(r) == settings_of_text(text@),
    {
        match parse_table(text) {
            Some(t) => match UserConfig::from_either_table(&t) {
                Some(found) => Ok(found),
                None => Err(ConfigError::Malformed),
            },
            None => Err(ConfigError::Malformed),
        }
    }
}

impl crate::config::ConfigManager {
    /// Reads settings that were written in the older format: the Gemini
    /// key and model, the base directory, the use of git and the remote are
    /// those of the file; the provider is Gemini and the Qwen settings are the
    /// defaults.
    pub fn migrate_old_config(config_str: &str) -> (r: Result<UserConfig, ConfigError>)
        ensures
            migrated_view(r) == old_settings_of_text(config_str@),
    {
        match parse_table(config_str) {
            Some(t) => match UserConfig::from_old_table(&t) {
                Some(c) => Ok(c),
                None => Err(ConfigError::Malformed),
            },
            None => Err(ConfigError::Malformed),
        }
    }
}

} // verus!
