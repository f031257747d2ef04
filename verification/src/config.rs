//! The settings of the program, as the user keeps them and as the program
//! works with them.

use crate::ai_client::AiProvider;
use crate::notebook::text_of;
use crate::pairing::same_text;
use crate::paths::joined_path;
use crate::prompt_templates::GENERAL;
use crate::text::{from_chars, lowercase, push_all, slice_of, to_chars};
use vstd::prelude::*;

verus! {

/// The settings that the program works with.
#[derive(Debug)]
pub struct Config {
    pub ai_provider: String,
    pub gemini_api_key: String,
    pub gemini_model_name: String,
    pub qwen_api_key: String,
    pub qwen_model_name: String,
    pub prompt_template: String,
    pub vocabulary_notebook_file: String,
    pub git_enabled: bool,
    pub git_remote_url: Option<String>,
}

/// The settings that the user keeps.
#[derive(Debug)]
pub struct UserConfig {
    pub ai_provider: String,
    pub gemini_api_key: String,
    pub gemini_model_name: String,
    pub qwen_api_key: String,
    pub qwen_model_name: String,
    pub vocabulary_base_dir: String,
    pub git_enabled: bool,
    pub git_remote_url: Option<String>,
}

/// The user's settings as a mathematical value.
pub struct UserConfigView {
    pub ai_provider: Seq<char>,
    pub gemini_api_key: Seq<char>,
    pub gemini_model_name: Seq<char>,
    pub qwen_api_key: Seq<char>,
    pub qwen_model_name: Seq<char>,
    pub vocabulary_base_dir: Seq<char>,
    pub git_enabled: bool,
    pub git_remote_url: Option<Seq<char>>,
}

impl View for UserConfig {
    type V = UserConfigView;

    open spec fn view(&self) -> UserConfigView {
        UserConfigView {
            ai_provider: self.ai_provider@,
            gemini_api_key: self.gemini_api_key@,
            gemini_model_name: self.gemini_model_name@,
            qwen_api_key: self.qwen_api_key@,
            qwen_model_name: self.qwen_model_name@,
            vocabulary_base_dir: self.vocabulary_base_dir@,
            git_enabled: self.git_enabled,
            git_remote_url: text_of(self.git_remote_url),
        }
    }
}

/// The settings of a user who has set nothing.
pub open spec fn default_settings() -> UserConfigView {
    UserConfigView {
        ai_provider: "gemini"@,
        gemini_api_key: Seq::empty(),
        gemini_model_name: "gemini-2.0-flash-001"@,
        qwen_api_key: Seq::empty(),
        qwen_model_name: "qwen-turbo"@,
        vocabulary_base_dir: "~"@,
        git_enabled: false,
        git_remote_url: None,
    }
}

impl Default for UserConfig {
    fn default() -> (r: UserConfig)
        ensures
            r@ == default_settings(),
    {
        UserConfig {
            ai_provider: String::from_str("gemini"),
            gemini_api_key: String::new(),
            gemini_model_name: String::from_str("gemini-2.0-flash-001"),
            qwen_api_key: String::new(),
            qwen_model_name: String::from_str("qwen-turbo"),
            vocabulary_base_dir: String::from_str("~"),
            git_enabled: false,
            git_remote_url: None,
        }
    }
}

/// Why there are no settings to work with.
#[derive(Debug, Clone, Copy, PartialEq, Eq, Structural)]
pub enum ConfigError {
    /// The home directory is not known.
    NoHome,
    /// Neither provider has a key.
    NoApiKey,
    /// The chosen provider has no key.
    MissingKey(AiProvider),
    /// The file of the settings cannot be read as settings.
    Malformed,
}

impl ConfigError {
    /// The error in words.
    pub fn message(&self) -> (out: String)
        ensures
            out@ == match *self {
                ConfigError::NoHome => "Could not determine home directory"@,
                ConfigError::NoApiKey =>
                    "No API key found in configuration. Run 'word4you config' to update your configuration."@,
                ConfigError::MissingKey(AiProvider::Qwen) => "QWEN API key not configured"@,
                ConfigError::MissingKey(AiProvider::Gemini) => "Gemini API key not configured"@,
                ConfigError::Malformed => "Configuration file is not valid"@,
            },
    {
        match self {
            ConfigError::NoHome => String::from_str("Could not determine home directory"),
            ConfigError::NoApiKey => String::from_str(
                "No API key found in configuration. Run 'word4you config' to update your configuration.",
            ),
            ConfigError::MissingKey(AiProvider::Qwen) => String::from_str(
                "QWEN API key not configured",
            ),
            ConfigError::MissingKey(AiProvider::Gemini) => String::from_str(
                "Gemini API key not configured",
            ),
            ConfigError::Malformed => String::from_str("Configuration file is not valid"),
        }
    }
}

/// A key as it is shown: its first four characters, and dots for the rest.
pub open spec fn masked(key: Seq<char>) -> Seq<char> {
    if key.len() <= 4 {
        key + "..."@
    } else {
        key.take(4) + "..."@
    }
}

/// Shows a key by its first four characters.
pub fn mask_key(key: &str) -> (out: String)
    ensures
        out@ == masked(key@),
{
    let chars = to_chars(key);
    let shown: usize = if chars.len() <= 4 {
        chars.len()
    } else {
        4
    };
    let mut out = slice_of(&chars, 0, shown);
    assert(chars@.subrange(0, chars.len() as int) =~= chars@);
    assert(chars@.subrange(0, 4) =~= chars@.take(4));
    let dots = to_chars("...");
    push_all(&mut out, &dots);
    from_chars(&out)
}

/// The path with the home directory in the place of a tilde at its start.
pub open spec fn expanded(path: Seq<char>, home: Seq<char>) -> Seq<char> {
    if path.len() > 0 && path[0] == '~' {
        home + path.skip(1)
    } else {
        path
    }
}

/// Puts the home directory in the place of a tilde at the start of a path.
pub fn expand_tilde_path(path: &str, home: &str) -> (out: String)
    ensures
        out@ == expanded(path@, home@),
{
    let chars = to_chars(path);
    if chars.len() > 0 && chars[0] == '~' {
        let mut out = to_chars(home);
        let rest = slice_of(&chars, 1, chars.len());
        push_all(&mut out, &rest);
        from_chars(&out)
    } else {
        from_chars(&chars)
    }
}

/// What the environment says of the settings, variable by variable.
#[derive(Debug)]
pub struct EnvSettings {
    pub ai_provider: Option<String>,
    pub gemini_api_key: Option<String>,
    pub gemini_model_name: Option<String>,
    pub qwen_api_key: Option<String>,
    pub qwen_model_name: Option<String>,
    pub vocabulary_base_dir: Option<String>,
    pub git_enabled: Option<String>,
    pub git_remote_url: Option<String>,
}

/// The text of a variable, or a default where it is not set.
pub open spec fn or_default(value: Option<String>, default: Seq<char>) -> Seq<char> {
    match value {
        Some(s) => s@,
        None => default,
    }
}

fn take_or(value: Option<String>, default: &str) -> (out: String)
    ensures
        out@ == or_default(value, default@),
{
    match value {
        Some(s) => s,
        None => String::from_str(default),
    }
}

/// The settings that the environment gives: those of its variables, with
/// the defaults for what is not set. Git is in use where its variable says
/// `true`, in whatever case. Without a Gemini key the environment gives no
/// settings.
pub open spec fn env_settings(env: EnvSettings) -> Option<UserConfigView> {
    match env.gemini_api_key {
        None => None,
        Some(key) => Some(
            UserConfigView {
                ai_provider: or_default(env.ai_provider, "gemini"@),
                gemini_api_key: key@,
                gemini_model_name: or_default(env.gemini_model_name, "gemini-2.0-flash-001"@),
                qwen_api_key: or_default(env.qwen_api_key, ""@),
                qwen_model_name: or_default(env.qwen_model_name, "qwen-turbo"@),
                vocabulary_base_dir: or_default(env.vocabulary_base_dir, "~"@),
                git_enabled: env.git_enabled matches Some(v) && lowercase(v@) == "true"@,
                git_remote_url: match env.git_remote_url {
                    Some(url) if url@.len() > 0 => Some(url@),
                    _ => None,
                },
            },
        ),
    }
}

/// The view of optional settings.
pub open spec fn settings_view(o: Option<UserConfig>) -> Option<UserConfigView> {
    match o {
        Some(c) => Some(c@),
        None => None,
    }
}

impl UserConfig {
    /// The settings that the environment gives.
    pub fn from_env(env: EnvSettings) -> (r: Option<UserConfig>)
        ensures
            settings_view(r) == env_settings(env),
    {
        let EnvSettings {
            ai_provider,
            gemini_api_key,
            gemini_model_name,
            qwen_api_key,
            qwen_model_name,
            vocabulary_base_dir,
            git_enabled,
            git_remote_url,
        } = env;
        let key = match gemini_api_key {
            Some(k) => k,
            None => {
                return None;
            },
        };
        let enabled = match &git_enabled {
            Some(v) => {
                let lower = v.as_str().to_lowercase();
                same_text(lower.as_str(), "true")
            },
            None => false,
        };
        let url = match git_remote_url {
            Some(u) => {
                if u.as_str().unicode_len() > 0 {
                    Some(u)
                } else {
                    None
                }
            },
            None => None,
        };
        Some(
            UserConfig {
                ai_provider: take_or(ai_provider, "gemini"),
                gemini_api_key: key,
                gemini_model_name: take_or(gemini_model_name, "gemini-2.0-flash-001"),
                qwen_api_key: take_or(qwen_api_key, ""),
                qwen_model_name: take_or(qwen_model_name, "qwen-turbo"),
                vocabulary_base_dir: take_or(vocabulary_base_dir, "~"),
                git_enabled: enabled,
                git_remote_url: url,
            },
        )
    }
}

/// Where the settings are kept.
pub struct ConfigManager;

impl ConfigManager {
    /// The directory of the settings, below the home directory.
    pub fn get_config_dir(home: Option<&str>) -> (r: Result<String, ConfigError>)
        ensures
            home is None <==> r is Err,
            r matches Err(e) ==> e == ConfigError::NoHome,
    {
        match home {
            Some(h) => {
                let dir = joined_path(h, ".config");
                Ok(joined_path(dir.as_str(), "word4you"))
            },
            None => Err(ConfigError::NoHome),
        }
    }

    /// The file of the settings, below the home directory.
    pub fn get_config_file_path(home: Option<&str>) -> (r: Result<String, ConfigError>)
        ensures
            home is None <==> r is Err,
            r matches Err(e) ==> e == ConfigError::NoHome,
    {
        match ConfigManager::get_config_dir(home) {
            Ok(dir) => Ok(joined_path(dir.as_str(), "config.toml")),
            Err(e) => Err(e),
        }
    }
}

/// The provider that the settings choose: Qwen where they name it, else
/// Gemini; and none where the chosen one has no key.
pub open spec fn chosen_provider(name: Seq<char>, gemini_key: Seq<char>, qwen_key: Seq<char>) -> Result<
    AiProvider,
    ConfigError,
> {
    if name == "qwen"@ {
        if qwen_key.len() == 0 {
            Err(ConfigError::MissingKey(AiProvider::Qwen))
        } else {
            Ok(AiProvider::Qwen)
        }
    } else if gemini_key.len() == 0 {
        Err(ConfigError::MissingKey(AiProvider::Gemini))
    } else {
        Ok(AiProvider::Gemini)
    }
}

impl Config {
    /// The settings to work with, from those that the user keeps. The
    /// notebook lies in the directory `word4you` below the user's base
    /// directory. Without any key there are none.
    pub fn from_user(user: UserConfig, home: &str) -> (r: Result<Config, ConfigError>)
        ensures
            r is Err <==> user.gemini_api_key@.len() == 0 && user.qwen_api_key@.len() == 0,
            match r {
                Ok(c) => {
                    &&& c.ai_provider == user.ai_provider
                    &&& c.gemini_api_key == user.gemini_api_key
                    &&& c.gemini_model_name == user.gemini_model_name
                    &&& c.qwen_api_key == user.qwen_api_key
                    &&& c.qwen_model_name == user.qwen_model_name
                    &&& c.prompt_template@ == GENERAL@
                    &&& c.git_enabled == user.git_enabled
                    &&& c.git_remote_url == user.git_remote_url
                },
                Err(e) => e == ConfigError::NoApiKey,
            },
    {
        if user.gemini_api_key.as_str().unicode_len() == 0 && user.qwen_api_key.as_str().unicode_len()
            == 0 {
            return Err(ConfigError::NoApiKey);
        }
        let base = expand_tilde_path(user.vocabulary_base_dir.as_str(), home);
        let dir = joined_path(base.as_str(), "word4you");
        let file = joined_path(dir.as_str(), "vocabulary_notebook.md");
        Ok(
            Config {
                ai_provider: user.ai_provider,
                gemini_api_key: user.gemini_api_key,
                gemini_model_name: user.gemini_model_name,
                qwen_api_key: user.qwen_api_key,
                qwen_model_name: user.qwen_model_name,
                prompt_template: String::from_str(GENERAL),
                vocabulary_notebook_file: file,
                git_enabled: user.git_enabled,
                git_remote_url: user.git_remote_url,
            },
        )
    }

    /// The provider that the settings choose.
    pub fn provider(&self) -> (r: Result<AiProvider, ConfigError>)
        ensures
            r == chosen_provider(self.ai_provider@, self.gemini_api_key@, self.qwen_api_key@),
    {
        if same_text(self.ai_provider.as_str(), "qwen") {
            if self.qwen_api_key.as_str().unicode_len() == 0 {
                Err(ConfigError::MissingKey(AiProvider::Qwen))
            } else {
                Ok(AiProvider::Qwen)
            }
        } else if self.gemini_api_key.as_str().unicode_len() == 0 {
            Err(ConfigError::MissingKey(AiProvider::Gemini))
        } else {
            Ok(AiProvider::Gemini)
        }
    }
}

} // verus!
