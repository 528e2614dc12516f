//! What the user has configured, and what holds where nothing is
//! configured: the settings shown to the user, the access to the remote
//! text generator, and the choice of the outbound proxy.

use vstd::prelude::*;
use crate::item::copy_optional_text;
use crate::text::same_text;

verus! {

/// The settings as the user sees them.
#[derive(Debug)]
pub struct Settings {
    pub theme: String,
    pub ai_model: String,
    pub ai_base_url: String,
    pub ai_api_key: String,
    pub ai_summary_enabled: bool,
}

/// What `Settings` hold, as plain values.
pub struct SettingsView {
    pub theme: Seq<char>,
    pub ai_model: Seq<char>,
    pub ai_base_url: Seq<char>,
    pub ai_api_key: Seq<char>,
    pub ai_summary_enabled: bool,
}

impl View for Settings {
    type V = SettingsView;

    open spec fn view(&self) -> SettingsView {
        SettingsView {
            theme: self.theme@,
            ai_model: self.ai_model@,
            ai_base_url: self.ai_base_url@,
            ai_api_key: self.ai_api_key@,
            ai_summary_enabled: self.ai_summary_enabled,
        }
    }
}

/// The settings as they are stored, each value only where it was ever
/// written.
#[derive(Debug)]
pub struct StoredSettings {
    pub theme: Option<String>,
    pub ai_model: Option<String>,
    pub ai_base_url: Option<String>,
    pub ai_api_key: Option<String>,
    pub ai_summary_enabled: Option<String>,
}

/// What `StoredSettings` hold, as plain values.
pub struct StoredSettingsView {
    pub theme: Option<Seq<char>>,
    pub ai_model: Option<Seq<char>>,
    pub ai_base_url: Option<Seq<char>>,
    pub ai_api_key: Option<Seq<char>>,
    pub ai_summary_enabled: Option<Seq<char>>,
}

impl View for StoredSettings {
    type V = StoredSettingsView;

    open spec fn view(&self) -> StoredSettingsView {
        StoredSettingsView {
            theme: self.theme.deep_view(),
            ai_model: self.ai_model.deep_view(),
            ai_base_url: self.ai_base_url.deep_view(),
            ai_api_key: self.ai_api_key.deep_view(),
            ai_summary_enabled: self.ai_summary_enabled.deep_view(),
        }
    }
}

/// What the environment of the process says about the remote generator.
#[derive(Debug)]
pub struct AiEnvironment {
    pub base_url: Option<String>,
    pub api_key: Option<String>,
    pub model: Option<String>,
}

/// What an `AiEnvironment` holds, as plain values.
pub struct AiEnvironmentView {
    pub base_url: Option<Seq<char>>,
    pub api_key: Option<Seq<char>>,
    pub model: Option<Seq<char>>,
}

impl View for AiEnvironment {
    type V = AiEnvironmentView;

    open spec fn view(&self) -> AiEnvironmentView {
        AiEnvironmentView {
            base_url: self.base_url.deep_view(),
            api_key: self.api_key.deep_view(),
            model: self.model.deep_view(),
        }
    }
}

/// How the remote generator is reached.
#[derive(Debug)]
pub struct AiConfig {
    pub base_url: String,
    pub api_key: String,
    pub model: String,
}

/// What an `AiConfig` holds, as plain values.
pub struct AiConfigView {
    pub base_url: Seq<char>,
    pub api_key: Seq<char>,
    pub model: Seq<char>,
}

impl View for AiConfig {
    type V = AiConfigView;

    open spec fn view(&self) -> AiConfigView {
        AiConfigView { base_url: self.base_url@, api_key: self.api_key@, model: self.model@ }
    }
}

impl DeepView for AiConfig {
    type V = AiConfigView;

    open spec fn deep_view(&self) -> AiConfigView {
        self@
    }
}

impl AiConfig {
    /// A copy that holds the same values.
    pub fn duplicate(&self) -> (r: AiConfig)
        ensures
            r@ == self@,
    {
        AiConfig {
            base_url: self.base_url.clone(),
            api_key: self.api_key.clone(),
            model: self.model.clone(),
        }
    }
}

/// What the remote generator cannot be reached without.
#[derive(Clone, Copy, Debug, PartialEq, Eq, Structural)]
pub enum ConfigError {
    MissingBaseUrl,
    MissingApiKey,
}

/// The model that is asked where none is configured.
pub open spec fn default_model() -> Seq<char> {
    "qwen3-max"@
}

/// The theme that holds where none is stored.
pub open spec fn default_theme() -> Seq<char> {
    "auto"@
}

/// A stored value, or `default` where none is stored.
pub open spec fn stored_or(stored: Option<Seq<char>>, default: Seq<char>) -> Seq<char> {
    match stored {
        Some(v) => v,
        None => default,
    }
}

/// The stored value where one is stored and not empty.
pub open spec fn stored_text(stored: Option<Seq<char>>) -> Option<Seq<char>> {
    match stored {
        Some(v) => if v.len() > 0 {
            Some(v)
        } else {
            None
        },
        None => None,
    }
}

/// The stored value where one is stored and not empty, else what the
/// environment says where it says anything but the empty text. An empty
/// value is a missing one, wherever it stands.
pub open spec fn stored_else_env(stored: Option<Seq<char>>, env: Option<Seq<char>>) -> Option<
    Seq<char>,
> {
    match stored_text(stored) {
        Some(v) => Some(v),
        None => stored_text(env),
    }
}

/// The settings shown to the user: what is stored, with the environment
/// and then fixed defaults standing in for what is not.
pub open spec fn effective_settings(
    stored: StoredSettingsView,
    env: AiEnvironmentView,
) -> SettingsView {
    SettingsView {
        theme: stored_or(stored.theme, default_theme()),
        ai_model: stored_or(stored_else_env(stored.ai_model, env.model), default_model()),
        ai_base_url: stored_or(stored_else_env(stored.ai_base_url, env.base_url), Seq::empty()),
        ai_api_key: stored_or(stored_else_env(stored.ai_api_key, env.api_key), Seq::empty()),
        ai_summary_enabled: stored_or(stored.ai_summary_enabled, "true"@) == "true"@,
    }
}

/// The access to the remote generator for a request of the user: what is
/// stored comes before the environment, and only the model has a default.
pub open spec fn resolved_config(stored: StoredSettingsView, env: AiEnvironmentView) -> Result<
    AiConfigView,
    ConfigError,
> {
    match stored_else_env(stored.ai_base_url, env.base_url) {
        None => Err(ConfigError::MissingBaseUrl),
        Some(base_url) => match stored_else_env(stored.ai_api_key, env.api_key) {
            None => Err(ConfigError::MissingApiKey),
            Some(api_key) => Ok(
                AiConfigView {
                    base_url,
                    api_key,
                    model: stored_or(stored_else_env(stored.ai_model, env.model), default_model()),
                },
            ),
        },
    }
}

/// The access to the remote generator for an ingestion run, which reads
/// the environment alone: there is none unless both the address and the
/// key are set and not empty.
pub open spec fn environment_config(env: AiEnvironmentView) -> Option<AiConfigView> {
    let base_url = stored_or(env.base_url, Seq::empty());
    let api_key = stored_or(env.api_key, Seq::empty());
    if base_url.len() > 0 && api_key.len() > 0 {
        Some(
            AiConfigView {
                base_url,
                api_key,
                model: stored_or(stored_text(env.model), default_model()),
            },
        )
    } else {
        None
    }
}

fn set_text(value: &Option<String>) -> (r: Option<String>)
    ensures
        r.deep_view() == stored_text(value.deep_view()),
{
    match value {
        Some(v) => if v.as_str().is_empty() {
            None
        } else {
            Some(v.clone())
        },
        None => None,
    }
}

fn pick(stored: &Option<String>, env: &Option<String>) -> (r: Option<String>)
    ensures
        r.deep_view() == stored_else_env(stored.deep_view(), env.deep_view()),
{
    match set_text(stored) {
        Some(v) => Some(v),
        None => set_text(env),
    }
}

fn or_text(value: Option<String>, default: &str) -> (r: String)
    ensures
        r@ == stored_or(value.deep_view(), default@),
{
    match value {
        Some(v) => v,
        None => default.to_owned(),
    }
}

/// Works out the settings to show.
pub fn settings_get(stored: &StoredSettings, env: &AiEnvironment) -> (s: Settings)
    ensures
        s@ == effective_settings(stored@, env@),
{
    let enabled = or_text(copy_optional_text(&stored.ai_summary_enabled), "true");
    proof {
        reveal_strlit("");
        assert(""@ =~= Seq::<char>::empty());
    }
    Settings {
        theme: or_text(copy_optional_text(&stored.theme), "auto"),
        ai_model: or_text(pick(&stored.ai_model, &env.model), "qwen3-max"),
        ai_base_url: or_text(pick(&stored.ai_base_url, &env.base_url), ""),
        ai_api_key: or_text(pick(&stored.ai_api_key, &env.api_key), ""),
        ai_summary_enabled: same_text(enabled.as_str(), "true"),
    }
}

/// What is stored after the user has saved `s`: every value, the switch
/// as `true` or `false`.
pub open spec fn settings_to_store(s: SettingsView) -> StoredSettingsView {
    StoredSettingsView {
        theme: Some(s.theme),
        ai_model: Some(s.ai_model),
        ai_base_url: Some(s.ai_base_url),
        ai_api_key: Some(s.ai_api_key),
        ai_summary_enabled: Some(
            if s.ai_summary_enabled {
                "true"@
            } else {
                "false"@
            },
        ),
    }
}

/// Works out what to store when the user saves `s`.
pub fn settings_update(s: &Settings) -> (stored: StoredSettings)
    ensures
        stored@ == settings_to_store(s@),
{
    StoredSettings {
        theme: Some(s.theme.clone()),
        ai_model: Some(s.ai_model.clone()),
        ai_base_url: Some(s.ai_base_url.clone()),
        ai_api_key: Some(s.ai_api_key.clone()),
        ai_summary_enabled: Some(
            if s.ai_summary_enabled {
                "true".to_owned()
            } else {
                "false".to_owned()
            },
        ),
    }
}

/// Works out how to reach the remote generator for a request of the user.
pub fn resolve_config(stored: &StoredSettings, env: &AiEnvironment) -> (r: Result<
    AiConfig,
    ConfigError,
>)
    ensures
        match r {
            Ok(c) => resolved_config(stored@, env@) == Ok::<AiConfigView, ConfigError>(c@),
            Err(e) => resolved_config(stored@, env@) == Err::<AiConfigView, ConfigError>(e),
        },
{
    match pick(&stored.ai_base_url, &env.base_url) {
        None => Err(ConfigError::MissingBaseUrl),
        Some(base_url) => match pick(&stored.ai_api_key, &env.api_key) {
            None => Err(ConfigError::MissingApiKey),
            Some(api_key) => Ok(
                AiConfig {
                    base_url,
                    api_key,
                    model: or_text(pick(&stored.ai_model, &env.model), "qwen3-max"),
                },
            ),
        },
    }
}

/// Works out how an ingestion run reaches the remote generator, if it
/// does.
pub fn config_from_environment(env: &AiEnvironment) -> (r: Option<AiConfig>)
    ensures
        r.deep_view() == environment_config(env@),
{
    proof {
        reveal_strlit("");
        assert(""@ =~= Seq::<char>::empty());
    }
    let base_url = or_text(copy_optional_text(&env.base_url), "");
    let api_key = or_text(copy_optional_text(&env.api_key), "");
    if !base_url.as_str().is_empty() && !api_key.as_str().is_empty() {
        Some(AiConfig { base_url, api_key, model: or_text(set_text(&env.model), "qwen3-max") })
    } else {
        None
    }
}

/// The message of a configuration error, for the user.
pub open spec fn config_error_message(e: ConfigError) -> Seq<char> {
    match e {
        ConfigError::MissingBaseUrl => "请先在设置中配置 AI API Base URL"@,
        ConfigError::MissingApiKey => "请先在设置中配置 AI API Key"@,
    }
}

/// The message of a configuration error, for the user.
pub fn config_error_text(e: ConfigError) -> (r: String)
    ensures
        r@ == config_error_message(e),
{
    match e {
        ConfigError::MissingBaseUrl => "请先在设置中配置 AI API Base URL".to_owned(),
        ConfigError::MissingApiKey => "请先在设置中配置 AI API Key".to_owned(),
    }
}

/// What a batch says where the remote generator cannot be reached.
pub open spec fn batch_config_message() -> Seq<char> {
    "请先在设置中配置 AI API (Base URL 和 API Key)，或确保 .env 文件中有正确的配置"@
}

/// What a batch says where the remote generator cannot be reached.
pub fn batch_config_error_text() -> (r: String)
    ensures
        r@ == batch_config_message(),
{
    "请先在设置中配置 AI API (Base URL 和 API Key)，或确保 .env 文件中有正确的配置".to_owned()
}

/// Which proxy a client is built with.
#[derive(Debug)]
pub enum ProxyChoice {
    /// No proxy.
    Direct,
    /// The proxy that the environment names.
    Configured(String),
    /// The proxy at the fixed local address.
    LocalDefault(String),
}

/// What a `ProxyChoice` holds, as plain values.
pub enum ProxyChoiceView {
    Direct,
    Configured(Seq<char>),
    LocalDefault(Seq<char>),
}

impl View for ProxyChoice {
    type V = ProxyChoiceView;

    open spec fn view(&self) -> ProxyChoiceView {
        match self {
            ProxyChoice::Direct => ProxyChoiceView::Direct,
            ProxyChoice::Configured(u) => ProxyChoiceView::Configured(u@),
            ProxyChoice::LocalDefault(u) => ProxyChoiceView::LocalDefault(u@),
        }
    }
}

/// The local address that is tried where the environment names no proxy.
pub open spec fn local_proxy() -> Seq<char> {
    "http://127.0.0.1:7897"@
}

/// The first of `candidates` that is set.
pub open spec fn first_set(candidates: Seq<Option<Seq<char>>>) -> Option<Seq<char>>
    decreases candidates.len(),
{
    if candidates.len() == 0 {
        None
    } else {
        match candidates[0] {
            Some(v) => Some(v),
            None => first_set(candidates.drop_first()),
        }
    }
}

/// The proxy for a request: none where the target needs none; else the
/// first that the environment names, in the order in which `candidates`
/// lists its variables; else the local default.
pub open spec fn chosen_proxy(use_proxy: bool, candidates: Seq<Option<Seq<char>>>) -> ProxyChoiceView {
    if !use_proxy {
        ProxyChoiceView::Direct
    } else {
        match first_set(candidates) {
            Some(u) => ProxyChoiceView::Configured(u),
            None => ProxyChoiceView::LocalDefault(local_proxy()),
        }
    }
}

/// Chooses the proxy for a request. `candidates` are the values of the
/// proxy variables of the environment, in the order of their precedence.
/// A chosen proxy that then cannot be set up leaves the client without
/// one.
pub fn choose_proxy(use_proxy: bool, candidates: &Vec<Option<String>>) -> (r: ProxyChoice)
    ensures
        r@ == chosen_proxy(use_proxy, candidates.deep_view()),
{
    if !use_proxy {
        return ProxyChoice::Direct;
    }
    let ghost all = candidates.deep_view();
    let mut i: usize = 0;
    assert(all.skip(0) =~= all);
    while i < candidates.len()
        invariant
            use_proxy,
            i <= candidates.len(),
            all == candidates.deep_view(),
            first_set(all) == first_set(all.skip(i as int)),
        decreases candidates.len() - i,
    {
        proof {
            assert(all.skip(i as int).drop_first() =~= all.skip(i + 1));
            assert(all.skip(i as int)[0] == candidates[i as int].deep_view());
        }
        match &candidates[i] {
            Some(u) => {
                return ProxyChoice::Configured(u.clone());
            },
            None => {},
        }
        i += 1;
    }
    ProxyChoice::LocalDefault("http://127.0.0.1:7897".to_owned())
}

/// Where the database lies below the home directory of the user.
pub open spec fn database_directory(home: Seq<char>) -> Seq<char> {
    home + "/.newsagregator"@
}

/// The database file in its directory.
pub open spec fn database_file(directory: Seq<char>) -> Seq<char> {
    directory + "/news.db"@
}

/// The directory that holds the database.
pub fn db_directory(home: &str) -> (r: String)
    ensures
        r@ == database_directory(home@),
{
    crate::text::concat2(home, "/.newsagregator")
}

/// The path of the database file.
pub fn db_path(directory: &str) -> (r: String)
    ensures
        r@ == database_file(directory@),
{
    crate::text::concat2(directory, "/news.db")
}

} // verus!
