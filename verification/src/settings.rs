//! Application settings: defaults, the resolution of the data directory,
//! the API key and the model, and the rules a saved setting must meet.
use vstd::prelude::*;
use crate::calls;
use crate::error::AppError;
use crate::paths::{join_path, path_join};
use crate::text::{is_blank, opt_chars, owned, str_eq, str_is_blank};

verus! {

/// The API address used when none is configured.
pub const DEFAULT_BASE_URL: &'static str = "https://api.deepseek.com";

/// The model used when none is configured.
pub const DEFAULT_MODEL: &'static str = "deepseek-v4-flash";

/// The settings the library reads. The sampling temperature is kept beside
/// them by the application shell: the library never computes with it.
#[derive(Debug, Clone, PartialEq, Eq)]
pub struct Settings {
    pub api_key: String,
    pub base_url: String,
    pub model: String,
    pub system_prompt: String,
    pub allow_bash: bool,
    pub workspace_dir: String,
    pub max_tool_rounds: usize,
    pub enabled_skills: Vec<String>,
}

/// The data directory: the override when it is set and not blank, otherwise
/// `DeepSeekApp` in the platform's data directory (or in `.` without one).
pub open spec fn data_dir_of(env_override: Option<Seq<char>>, platform: Option<Seq<char>>) -> Seq<char> {
    match env_override {
        Some(d) if !is_blank(d) => d,
        _ => path_join(
            match platform {
                Some(p) => p,
                None => "."@,
            },
            "DeepSeekApp"@,
        ),
    }
}

/// Resolves the data directory from the override variable's value and the
/// platform's data directory.
pub fn resolve_data_dir(env_override: Option<&str>, platform: Option<String>) -> (r: String)
    ensures
        r@ == data_dir_of(
            match env_override {
                Some(d) => Some(d@),
                None => None,
            },
            match platform {
                Some(p) => Some(p@),
                None => None,
            },
        ),
{
    match env_override {
        Some(d) => {
            if !str_is_blank(d) {
                return owned(d);
            }
        },
        None => {},
    }
    match platform {
        Some(p) => join_path(p.as_str(), "DeepSeekApp"),
        None => join_path(".", "DeepSeekApp"),
    }
}

/// The data directory for the override variable's value, on this platform.
pub fn data_dir(env_override: Option<&str>) -> (r: String)
    ensures
        exists|platform: Option<Seq<char>>|
            r@ == #[trigger] data_dir_of(opt_chars(env_override), platform),
{
    let platform = calls::platform_data_dir();
    resolve_data_dir(env_override, platform)
}

/// A model id with the legacy ids mapped to their successors.
pub open spec fn model_successor(m: Seq<char>) -> Seq<char> {
    if m == "deepseek-chat"@ {
        "deepseek-v4-flash"@
    } else if m == "deepseek-reasoner"@ {
        "deepseek-v4-pro"@
    } else {
        m
    }
}

/// The API key in effect: the environment's when it is set and not blank,
/// else the keychain's, else the one in the settings file.
pub open spec fn effective_key_of(
    env_key: Option<Seq<char>>,
    keychain_key: Option<Seq<char>>,
    file_key: Seq<char>,
) -> Seq<char> {
    match env_key {
        Some(k) if !is_blank(k) => k,
        _ => match keychain_key {
            Some(k) => k,
            None => file_key,
        },
    }
}

impl Settings {
    /// The defaults: no API key (a key from the environment is read where it
    /// is used, never stored), the default API address and model, no extra
    /// prompt, bash off, the home directory as workspace (`.` without one),
    /// 20 tool rounds, every skill enabled.
    pub fn defaults_with(home: Option<String>) -> (s: Settings)
        ensures
            s.api_key@.len() == 0,
            s.base_url@ == "https://api.deepseek.com"@,
            s.model@ == "deepseek-v4-flash"@,
            s.system_prompt@.len() == 0,
            !s.allow_bash,
            s.workspace_dir@ == match home {
                Some(h) => h@,
                None => "."@,
            },
            s.max_tool_rounds == 20,
            s.enabled_skills@.len() == 0,
    {
        Settings {
            api_key: String::new(),
            base_url: owned(DEFAULT_BASE_URL),
            model: owned(DEFAULT_MODEL),
            system_prompt: String::new(),
            allow_bash: false,
            workspace_dir: match home {
                Some(h) => h,
                None => owned("."),
            },
            max_tool_rounds: 20,
            enabled_skills: Vec::new(),
        }
    }

    /// The defaults on this machine.
    pub fn defaults() -> (s: Settings)
        ensures
            s.api_key@.len() == 0,
            s.base_url@ == "https://api.deepseek.com"@,
            s.model@ == "deepseek-v4-flash"@,
            s.system_prompt@.len() == 0,
            !s.allow_bash,
            s.max_tool_rounds == 20,
            s.enabled_skills@.len() == 0,
    {
        Settings::defaults_with(calls::home_dir())
    }

    /// The workspace as an absolute path: the configured directory when it
    /// is absolute, otherwise joined onto the current directory `cwd`.
    pub fn workspace_path(&self, cwd: &str) -> (r: String)
        ensures
            r@ == if self.workspace_dir@.len() > 0 && self.workspace_dir@[0] == '/' {
                self.workspace_dir@
            } else {
                path_join(cwd@, self.workspace_dir@)
            },
    {
        join_path(cwd, self.workspace_dir.as_str())
    }

    /// The API key in effect, given the environment variable's value and the
    /// keychain's entry.
    pub fn effective_api_key(&self, env_key: Option<&str>, keychain_key: Option<String>) -> (r: String)
        ensures
            r@ == effective_key_of(
                match env_key {
                    Some(k) => Some(k@),
                    None => None,
                },
                match keychain_key {
                    Some(k) => Some(k@),
                    None => None,
                },
                self.api_key@,
            ),
    {
        match env_key {
            Some(k) => {
                if !str_is_blank(k) {
                    return owned(k);
                }
            },
            None => {},
        }
        match keychain_key {
            Some(k) => k,
            None => self.api_key.clone(),
        }
    }

    /// The model id, legacy ids mapped to their successors.
    pub fn effective_model(&self) -> (r: String)
        ensures
            r@ == model_successor(self.model@),
    {
        if str_eq(self.model.as_str(), "deepseek-chat") {
            owned("deepseek-v4-flash")
        } else if str_eq(self.model.as_str(), "deepseek-reasoner") {
            owned("deepseek-v4-pro")
        } else {
            self.model.clone()
        }
    }

    /// The key to move into the keychain: the file's key unless it is blank.
    pub fn key_to_migrate(&self) -> (r: Option<String>)
        ensures
            is_blank(self.api_key@) ==> r is None,
            !is_blank(self.api_key@) ==> r == Some(self.api_key),
    {
        if str_is_blank(self.api_key.as_str()) {
            None
        } else {
            Some(self.api_key.clone())
        }
    }

    /// These settings with the key removed (once the keychain holds it).
    pub fn without_api_key(&self) -> (r: Settings)
        ensures
            r.api_key@.len() == 0,
            r.base_url == self.base_url,
            r.model == self.model,
            r.system_prompt == self.system_prompt,
            r.allow_bash == self.allow_bash,
            r.workspace_dir == self.workspace_dir,
            r.max_tool_rounds == self.max_tool_rounds,
            r.enabled_skills@ == self.enabled_skills@,
    {
        Settings {
            api_key: String::new(),
            base_url: self.base_url.clone(),
            model: self.model.clone(),
            system_prompt: self.system_prompt.clone(),
            allow_bash: self.allow_bash,
            workspace_dir: self.workspace_dir.clone(),
            max_tool_rounds: self.max_tool_rounds,
            enabled_skills: crate::text::dup_strings(&self.enabled_skills),
        }
    }

    /// These settings as the window sends them back: the window never sees the
    /// stored key, so a blank key keeps `stored_key`; any other key replaces it.
    pub fn with_key_kept(&self, stored_key: &str) -> (r: Settings)
        ensures
            is_blank(self.api_key@) ==> r.api_key@ == stored_key@,
            !is_blank(self.api_key@) ==> r.api_key == self.api_key,
            r.base_url == self.base_url,
            r.model == self.model,
            r.system_prompt == self.system_prompt,
            r.allow_bash == self.allow_bash,
            r.workspace_dir == self.workspace_dir,
            r.max_tool_rounds == self.max_tool_rounds,
            r.enabled_skills@ == self.enabled_skills@,
    {
        Settings {
            api_key: if str_is_blank(self.api_key.as_str()) {
                owned(stored_key)
            } else {
                self.api_key.clone()
            },
            base_url: self.base_url.clone(),
            model: self.model.clone(),
            system_prompt: self.system_prompt.clone(),
            allow_bash: self.allow_bash,
            workspace_dir: self.workspace_dir.clone(),
            max_tool_rounds: self.max_tool_rounds,
            enabled_skills: crate::text::dup_strings(&self.enabled_skills),
        }
    }

    /// The text fields a saved setting must have: an API address and a model.
    pub fn check(&self) -> (r: Result<(), AppError>)
        ensures
            is_blank(self.base_url@) ==> (r matches Err(AppError::Config(m)) && m@ == "base_url 不能为空"@),
            !is_blank(self.base_url@) && is_blank(self.model@) ==> (r matches Err(AppError::Config(m))
                && m@ == "model 不能为空"@),
            !is_blank(self.base_url@) && !is_blank(self.model@) ==> r is Ok,
    {
        if str_is_blank(self.base_url.as_str()) {
            return Err(AppError::Config(owned("base_url 不能为空")));
        }
        if str_is_blank(self.model.as_str()) {
            return Err(AppError::Config(owned("model 不能为空")));
        }
        Ok(())
    }
}

/// Mapping a model id twice changes nothing more than mapping it once.
pub proof fn lemma_model_successor_idempotent(m: Seq<char>)
    ensures
        model_successor(model_successor(m)) == model_successor(m),
{
    reveal_strlit("deepseek-chat");
    reveal_strlit("deepseek-reasoner");
    reveal_strlit("deepseek-v4-flash");
    reveal_strlit("deepseek-v4-pro");
    assert("deepseek-v4-flash"@ != "deepseek-chat"@) by {
        assert("deepseek-v4-flash"@.len() != "deepseek-chat"@.len());
    }
    assert("deepseek-v4-flash"@ != "deepseek-reasoner"@) by {
        assert("deepseek-v4-flash"@[9] != "deepseek-reasoner"@[9]);
    }
    assert("deepseek-v4-pro"@ != "deepseek-chat"@) by {
        assert("deepseek-v4-pro"@[9] != "deepseek-chat"@[9]);
    }
    assert("deepseek-v4-pro"@ != "deepseek-reasoner"@) by {
        assert("deepseek-v4-pro"@.len() != "deepseek-reasoner"@.len());
    }
}

/// Where settings are kept.
#[derive(Debug, Clone)]
pub struct SettingsStore {
    path: String,
}

impl SettingsStore {
    /// The settings file.
    pub closed spec fn path_view(&self) -> Seq<char> {
        self.path@
    }

    /// The store under the data directory `root`: `settings.json` there.
    pub fn new(root: &str) -> (r: SettingsStore)
        ensures
            r.path_view() == path_join(root@, "settings.json"@),
    {
        SettingsStore { path: join_path(root, "settings.json") }
    }

    /// The settings file.
    pub fn path(&self) -> (r: &str)
        ensures
            r@ == self.path_view(),
    {
        self.path.as_str()
    }
}

} // verus!
