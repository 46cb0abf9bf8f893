//! Model providers and their configuration: provider names, configuration
//! from the environment or a saved profile, shortcuts, the chat history sent
//! to a provider (consecutive same-role messages merged so roles alternate),
//! and token usage accounting.
use vstd::prelude::*;
use vstd::string::StrSliceExecFns;
use crate::text::{
    chars_eq_str, chars_of, decimal, decimal_string, eq_ignore_ascii_case, eq_ignore_case,
    extend_chars, extend_str, starts_with_str, string_of, to_lowercase, trim, trim_end,
    trim_end_index, trim_str, truncate_dots, truncate_with_dots, unicode_lowercase,
};

verus! {

broadcast use vstd::string::group_string_axioms;

/// A model provider.
#[derive(Clone, Copy, Debug, PartialEq, Eq, Structural)]
pub enum Provider {
    OpenAI,
    Anthropic,
    Google,
    OpenAICompat,
    LMStudio,
}

/// One chat message.
pub struct Msg {
    pub role: &'static str,
    pub text: String,
}

/// A resolved configuration.
pub struct Config {
    pub provider: Provider,
    pub api_key: String,
    pub base_url: String,
    pub model: String,
    pub base_system: String,
}

/// The saved profile (no API key).
pub struct ConfigProfile {
    pub provider: String,
    pub model: String,
    pub base_url: String,
    pub custom_system_prompt: Option<String>,
}

/// A user shortcut: typing `key` runs `command`.
pub struct Shortcut {
    pub key: String,
    pub command: String,
}

// ---------------------------------------------------------------------------
// Providers
// ---------------------------------------------------------------------------

pub open spec fn provider_name_spec(p: Provider) -> Seq<char> {
    match p {
        Provider::OpenAI => "openai"@,
        Provider::Anthropic => "anthropic"@,
        Provider::Google => "google"@,
        Provider::OpenAICompat => "openai_compatible"@,
        Provider::LMStudio => "lm_studio"@,
    }
}

/// The name a provider is saved under.
pub fn provider_name(provider: Provider) -> (s: &'static str)
    ensures
        s@ == provider_name_spec(provider),
{
    match provider {
        Provider::OpenAI => "openai",
        Provider::Anthropic => "anthropic",
        Provider::Google => "google",
        Provider::OpenAICompat => "openai_compatible",
        Provider::LMStudio => "lm_studio",
    }
}

/// The provider a saved profile names (lowercased).
pub open spec fn profile_provider_spec(lower: Seq<char>) -> Option<Provider> {
    if lower == "openai"@ {
        Some(Provider::OpenAI)
    } else if lower == "anthropic"@ {
        Some(Provider::Anthropic)
    } else if lower == "google"@ {
        Some(Provider::Google)
    } else if lower == "openai_compatible"@ || lower == "openai_compat"@ {
        Some(Provider::OpenAICompat)
    } else if lower == "lm_studio"@ || lower == "lmstudio"@ {
        Some(Provider::LMStudio)
    } else {
        None
    }
}

/// The provider named in `AI_PROVIDER` (lowercased).
pub open spec fn env_provider_spec(lower: Seq<char>) -> Option<Provider> {
    if lower == "openai"@ {
        Some(Provider::OpenAI)
    } else if lower == "anthropic"@ {
        Some(Provider::Anthropic)
    } else if lower == "google"@ || lower == "gemini"@ {
        Some(Provider::Google)
    } else if lower == "openai_compat"@ || lower == "openai-compatible"@ || lower == "compat"@ {
        Some(Provider::OpenAICompat)
    } else if lower == "lmstudio"@ || lower == "lm_studio"@ || lower == "lm-studio"@ {
        Some(Provider::LMStudio)
    } else {
        None
    }
}

fn eq_any(v: &[char], a: &str, b: &str, c: &str) -> (r: bool)
    ensures
        r == (v@ == a@ || v@ == b@ || v@ == c@),
{
    chars_eq_str(v, a) || chars_eq_str(v, b) || chars_eq_str(v, c)
}

/// The provider a saved profile names, case-insensitively.
pub fn profile_provider(name: &str) -> (r: Result<Provider, String>)
    ensures
        match r {
            Ok(p) => profile_provider_spec(unicode_lowercase(name@)) == Some(p),
            Err(e) => profile_provider_spec(unicode_lowercase(name@)) is None
                && e@ == "unknown provider in saved profile: "@ + name@,
        },
{
    let lower = to_lowercase(name);
    let l = chars_of(lower.as_str());
    let s = l.as_slice();
    if chars_eq_str(s, "openai") {
        Ok(Provider::OpenAI)
    } else if chars_eq_str(s, "anthropic") {
        Ok(Provider::Anthropic)
    } else if chars_eq_str(s, "google") {
        Ok(Provider::Google)
    } else if eq_any(s, "openai_compatible", "openai_compat", "openai_compat") {
        Ok(Provider::OpenAICompat)
    } else if eq_any(s, "lm_studio", "lmstudio", "lmstudio") {
        Ok(Provider::LMStudio)
    } else {
        let mut v = chars_of("unknown provider in saved profile: ");
        extend_str(&mut v, name);
        Err(string_of(v.as_slice()))
    }
}

/// The provider named in `AI_PROVIDER` (`openai` when unset),
/// case-insensitively.
pub fn env_provider(value: Option<&str>) -> (r: Result<Provider, String>)
    ensures
        match value {
            None => r == Ok::<Provider, String>(Provider::OpenAI),
            Some(v) => match r {
                Ok(p) => env_provider_spec(unicode_lowercase(v@)) == Some(p),
                Err(e) => env_provider_spec(unicode_lowercase(v@)) is None
                    && e@ == "unknown AI_PROVIDER: "@ + unicode_lowercase(v@),
            },
        },
{
    let v = match value {
        Some(v) => v,
        None => return Ok(Provider::OpenAI),
    };
    let lower = to_lowercase(v);
    let l = chars_of(lower.as_str());
    let s = l.as_slice();
    if chars_eq_str(s, "openai") {
        Ok(Provider::OpenAI)
    } else if chars_eq_str(s, "anthropic") {
        Ok(Provider::Anthropic)
    } else if eq_any(s, "google", "gemini", "gemini") {
        Ok(Provider::Google)
    } else if eq_any(s, "openai_compat", "openai-compatible", "compat") {
        Ok(Provider::OpenAICompat)
    } else if eq_any(s, "lmstudio", "lm_studio", "lm-studio") {
        Ok(Provider::LMStudio)
    } else {
        let mut w = chars_of("unknown AI_PROVIDER: ");
        extend_chars(&mut w, l.as_slice());
        Err(string_of(w.as_slice()))
    }
}

/// A saved provider name reads back as the same provider.
pub proof fn law_saved_provider_name_round_trips(p: Provider)
    requires
        unicode_lowercase(provider_name_spec(p)) == provider_name_spec(p),
    ensures
        profile_provider_spec(unicode_lowercase(provider_name_spec(p))) == Some(p),
{
    reveal_strlit("openai");
    reveal_strlit("anthropic");
    reveal_strlit("google");
    reveal_strlit("openai_compatible");
    reveal_strlit("openai_compat");
    reveal_strlit("lm_studio");
    reveal_strlit("lmstudio");
    assert("openai"@.len() == 6);
    assert("anthropic"@.len() == 9);
    assert("google"@.len() == 6);
    assert("openai_compatible"@.len() == 17);
    assert("lm_studio"@.len() == 9);
    assert("openai"@[0] != "google"@[0]);
    assert("anthropic"@[0] != "lm_studio"@[0]);
}

/// The environment variable that holds a provider's API key.
pub fn key_env_var(p: Provider) -> (s: &'static str)
    ensures
        s@ == match p {
            Provider::OpenAI => "OPENAI_API_KEY"@,
            Provider::Anthropic => "ANTHROPIC_API_KEY"@,
            Provider::Google => "GEMINI_API_KEY"@,
            Provider::OpenAICompat => "OPENAI_COMPAT_API_KEY"@,
            Provider::LMStudio => "LMSTUDIO_API_KEY"@,
        },
{
    match p {
        Provider::OpenAI => "OPENAI_API_KEY",
        Provider::Anthropic => "ANTHROPIC_API_KEY",
        Provider::Google => "GEMINI_API_KEY",
        Provider::OpenAICompat => "OPENAI_COMPAT_API_KEY",
        Provider::LMStudio => "LMSTUDIO_API_KEY",
    }
}

/// The key used when none is given: empty for OpenAI-compatible servers,
/// `lm-studio` for LM Studio, none (a key is required) otherwise.
pub fn default_key(p: Provider) -> (s: Option<&'static str>)
    ensures
        match p {
            Provider::OpenAICompat => s is Some && s->0@ == ""@,
            Provider::LMStudio => s is Some && s->0@ == "lm-studio"@,
            _ => s is None,
        },
{
    match p {
        Provider::OpenAICompat => Some(""),
        Provider::LMStudio => Some("lm-studio"),
        _ => None,
    }
}

/// The base URL a provider uses unless told otherwise.
pub open spec fn default_base_url_spec(p: Provider) -> Seq<char> {
    match p {
        Provider::OpenAI => "https://api.openai.com/v1"@,
        Provider::Anthropic => "https://api.anthropic.com/v1"@,
        Provider::Google => "https://generativelanguage.googleapis.com/v1beta"@,
        Provider::OpenAICompat => "http://localhost:8000/v1"@,
        Provider::LMStudio => "http://localhost:1234/v1"@,
    }
}

pub fn default_base_url(p: Provider) -> (s: &'static str)
    ensures
        s@ == default_base_url_spec(p),
{
    match p {
        Provider::OpenAI => "https://api.openai.com/v1",
        Provider::Anthropic => "https://api.anthropic.com/v1",
        Provider::Google => "https://generativelanguage.googleapis.com/v1beta",
        Provider::OpenAICompat => "http://localhost:8000/v1",
        Provider::LMStudio => "http://localhost:1234/v1",
    }
}

/// The system prompt used unless the profile sets its own.
pub open spec fn default_prompt_spec(cwd: Seq<char>) -> Seq<char> {
    "You are Biscuits, a fast and practical AI agent launched in "@ + cwd
        + ". Treat this directory as the workspace. Use the available tools when they help, and be direct about what you did."@
}

pub fn default_prompt(cwd: &str) -> (out: String)
    ensures
        out@ == default_prompt_spec(cwd@),
{
    let mut v = chars_of("You are Biscuits, a fast and practical AI agent launched in ");
    extend_str(&mut v, cwd);
    extend_str(
        &mut v,
        ". Treat this directory as the workspace. Use the available tools when they help, and be direct about what you did.",
    );
    string_of(v.as_slice())
}

/// The environment a configuration is read from (`None` for an unset
/// variable).
pub struct EnvSettings {
    pub ai_provider: Option<String>,
    pub openai_api_key: Option<String>,
    pub anthropic_api_key: Option<String>,
    pub gemini_api_key: Option<String>,
    pub openai_compat_api_key: Option<String>,
    pub lmstudio_api_key: Option<String>,
    pub ai_base_url: Option<String>,
    pub ai_model: Option<String>,
}

pub open spec fn opt_view(o: Option<String>) -> Option<Seq<char>> {
    match o {
        Some(s) => Some(s@),
        None => None,
    }
}

pub open spec fn or_default(o: Option<Seq<char>>, d: Seq<char>) -> Seq<char> {
    match o {
        Some(s) => s,
        None => d,
    }
}

fn value_or(o: &Option<String>, d: &str) -> (s: String)
    ensures
        s@ == or_default(opt_view(*o), d@),
{
    match o {
        Some(v) => v.clone(),
        None => String::from_str(d),
    }
}

/// The key, base URL and model a provider gets from the environment: an
/// error names the variable that a provider requires and is unset.
pub open spec fn env_config_spec(p: Provider, env: EnvSettings) -> Result<(Seq<char>, Seq<char>, Seq<char>), Seq<char>> {
    let base = or_default(opt_view(env.ai_base_url), default_base_url_spec(p));
    match p {
        Provider::OpenAI => match env.openai_api_key {
            Some(k) => Ok((k@, base, or_default(opt_view(env.ai_model), "gpt-4o-mini"@))),
            None => Err("OPENAI_API_KEY is required"@),
        },
        Provider::Anthropic => match env.anthropic_api_key {
            Some(k) => Ok((k@, base, or_default(opt_view(env.ai_model), ""@))),
            None => Err("ANTHROPIC_API_KEY is required"@),
        },
        Provider::Google => match env.gemini_api_key {
            Some(k) => Ok((k@, base, or_default(opt_view(env.ai_model), "gemini-2.0-flash"@))),
            None => Err("GEMINI_API_KEY is required"@),
        },
        Provider::OpenAICompat => match env.ai_model {
            Some(m) => Ok((or_default(opt_view(env.openai_compat_api_key), ""@), base, m@)),
            None => Err("AI_MODEL is required for OpenAI-compatible providers"@),
        },
        Provider::LMStudio => Ok((
            or_default(opt_view(env.lmstudio_api_key), "lm-studio"@),
            base,
            or_default(opt_view(env.ai_model), ""@),
        )),
    }
}

/// The configuration the environment describes, with `base_system` as the
/// system prompt. An LM Studio configuration may come back without a model:
/// the first loaded model is then looked up, and [`finish_config`] checks
/// that a model was found.
pub fn config_from_env(env: &EnvSettings, base_system: String) -> (r: Result<Config, String>)
    ensures
        match r {
            Ok(c) => {
                let p = c.provider;
                &&& env.ai_provider is None ==> p == Provider::OpenAI
                &&& (env.ai_provider matches Some(v) ==> env_provider_spec(unicode_lowercase(v@)) == Some(p))
                &&& env_config_spec(p, *env) == Ok::<(Seq<char>, Seq<char>, Seq<char>), Seq<char>>((c.api_key@, c.base_url@, c.model@))
                &&& c.base_system@ == base_system@
            },
            Err(e) => match env.ai_provider {
                Some(v) => match env_provider_spec(unicode_lowercase(v@)) {
                    None => e@ == "unknown AI_PROVIDER: "@ + unicode_lowercase(v@),
                    Some(p) => env_config_spec(p, *env) == Err::<(Seq<char>, Seq<char>, Seq<char>), Seq<char>>(e@),
                },
                None => env_config_spec(Provider::OpenAI, *env) == Err::<(Seq<char>, Seq<char>, Seq<char>), Seq<char>>(e@),
            },
        },
{
    let provider = match &env.ai_provider {
        Some(v) => match env_provider(Some(v.as_str())) {
            Ok(p) => p,
            Err(e) => return Err(e),
        },
        None => Provider::OpenAI,
    };
    let base_url = value_or(&env.ai_base_url, default_base_url(provider));
    let (api_key, model) = match provider {
        Provider::OpenAI => match &env.openai_api_key {
            Some(k) => (k.clone(), value_or(&env.ai_model, "gpt-4o-mini")),
            None => return Err(String::from_str("OPENAI_API_KEY is required")),
        },
        Provider::Anthropic => match &env.anthropic_api_key {
            Some(k) => (k.clone(), value_or(&env.ai_model, "")),
            None => return Err(String::from_str("ANTHROPIC_API_KEY is required")),
        },
        Provider::Google => match &env.gemini_api_key {
            Some(k) => (k.clone(), value_or(&env.ai_model, "gemini-2.0-flash")),
            None => return Err(String::from_str("GEMINI_API_KEY is required")),
        },
        Provider::OpenAICompat => match &env.ai_model {
            Some(m) => (value_or(&env.openai_compat_api_key, ""), m.clone()),
            None => return Err(String::from_str("AI_MODEL is required for OpenAI-compatible providers")),
        },
        Provider::LMStudio => (value_or(&env.lmstudio_api_key, "lm-studio"), value_or(&env.ai_model, "")),
    };
    Ok(Config { provider, api_key, base_url, model, base_system })
}

/// Whether the model must be looked up from the server (LM Studio without a
/// model named).
pub fn needs_model_lookup(config: &Config) -> (b: bool)
    ensures
        b == (config.provider == Provider::LMStudio && config.model@.len() == 0),
{
    config.provider == Provider::LMStudio && config.model.as_str().unicode_len() == 0
}

/// The configuration, once it names a model; otherwise `message`.
pub fn finish_config(config: Config, message: &str) -> (r: Result<Config, String>)
    ensures
        config.model@.len() == 0 ==> r is Err && r->Err_0@ == message@,
        config.model@.len() > 0 ==> r is Ok && r->Ok_0 == config,
{
    if config.model.as_str().unicode_len() == 0 {
        Err(String::from_str(message))
    } else {
        Ok(config)
    }
}

/// Whether the answer to "Use saved config?" accepts it: `y`, `yes` (any
/// case) or nothing.
pub fn accepts_saved(answer: &str) -> (b: bool)
    ensures
        b == (eq_ignore_ascii_case(answer@, "y"@) || eq_ignore_ascii_case(answer@, "yes"@)
            || answer@.len() == 0),
{
    let a = chars_of(answer);
    eq_ignore_case(a.as_slice(), "y") || eq_ignore_case(a.as_slice(), "yes") || a.len() == 0
}

/// The configuration a saved profile describes, with the key given and the
/// profile's own system prompt when it has one.
pub fn config_from_profile(profile: &ConfigProfile, api_key: String, default_prompt: &str) -> (r: Result<Config, String>)
    ensures
        match r {
            Ok(c) => {
                &&& profile_provider_spec(unicode_lowercase(profile.provider@)) == Some(c.provider)
                &&& c.api_key@ == api_key@
                &&& c.base_url@ == profile.base_url@
                &&& c.model@ == profile.model@
                &&& c.base_system@ == or_default(opt_view(profile.custom_system_prompt), default_prompt@)
            },
            Err(e) => profile_provider_spec(unicode_lowercase(profile.provider@)) is None
                && e@ == "unknown provider in saved profile: "@ + profile.provider@,
        },
{
    let provider = match profile_provider(profile.provider.as_str()) {
        Ok(p) => p,
        Err(e) => return Err(e),
    };
    let base_system = value_or(&profile.custom_system_prompt, default_prompt);
    Ok(Config {
        provider,
        api_key,
        base_url: profile.base_url.clone(),
        model: profile.model.clone(),
        base_system,
    })
}

/// The profile saved after an interactive setup (no key, no custom prompt).
pub fn profile_of(config: &Config) -> (p: ConfigProfile)
    ensures
        p.provider@ == provider_name_spec(config.provider),
        p.model@ == config.model@,
        p.base_url@ == config.base_url@,
        p.custom_system_prompt is None,
{
    ConfigProfile {
        provider: String::from_str(provider_name(config.provider)),
        model: config.model.clone(),
        base_url: config.base_url.clone(),
        custom_system_prompt: None,
    }
}

// ---------------------------------------------------------------------------
// Profiles and shortcuts
// ---------------------------------------------------------------------------

/// `/config prompt <text>` and `/config prompt clear`: the saved profile,
/// or an empty one when there is none, with its custom prompt replaced.
pub fn with_custom_prompt(profile: Option<ConfigProfile>, prompt: Option<String>) -> (p: ConfigProfile)
    ensures
        match profile {
            Some(q) => p.provider == q.provider && p.model == q.model && p.base_url == q.base_url,
            None => p.provider@.len() == 0 && p.model@.len() == 0 && p.base_url@.len() == 0,
        },
        p.custom_system_prompt == prompt,
{
    match profile {
        Some(q) => ConfigProfile {
            provider: q.provider,
            model: q.model,
            base_url: q.base_url,
            custom_system_prompt: prompt,
        },
        None => ConfigProfile {
            provider: String::new(),
            model: String::new(),
            base_url: String::new(),
            custom_system_prompt: prompt,
        },
    }
}

/// What `/config prompt` shows: the saved custom prompt, if there is one.
pub fn prompt_info(profile: Option<&ConfigProfile>) -> (out: String)
    ensures
        out@ == match profile {
            Some(p) => match p.custom_system_prompt {
                Some(c) => "custom system prompt:\n  "@ + c@,
                None => "using default system prompt"@,
            },
            None => "using default system prompt"@,
        },
{
    if let Some(p) = profile {
        if let Some(c) = &p.custom_system_prompt {
            let mut v = chars_of("custom system prompt:\n  ");
            extend_str(&mut v, c.as_str());
            return string_of(v.as_slice());
        }
    }
    String::from_str("using default system prompt")
}

/// The reply to saving a custom prompt.
pub fn prompt_saved(text: &str) -> (out: String)
    ensures
        out@ == "custom system prompt saved (takes effect next launch):\n  "@ + text@,
{
    let mut v = chars_of("custom system prompt saved (takes effect next launch):\n  ");
    extend_str(&mut v, text);
    string_of(v.as_slice())
}

/// The saved profile as shown by `/config`.
pub open spec fn show_profile_spec(profile: Option<ConfigProfile>, path: Option<Seq<char>>) -> Seq<char> {
    match profile {
        None => "no saved config profile"@,
        Some(p) => "saved config profile:\n  provider: "@ + p.provider@ + "\n  model: "@ + p.model@
            + "\n  base_url: "@ + p.base_url@ + (match p.custom_system_prompt {
            Some(c) => "\n  custom_prompt: "@ + truncate_dots(c@, 120),
            None => Seq::empty(),
        }) + "\n  path: "@ + or_default(path, "unknown"@),
    }
}

/// Show the saved profile (`None` when there is none) and the path it lives
/// at (`None` when the config directory is unknown).
pub fn show_profile(profile: Option<&ConfigProfile>, path: Option<&str>) -> (out: String)
    ensures
        out@ == show_profile_spec(
            match profile { Some(p) => Some(*p), None => None },
            match path { Some(p) => Some(p@), None => None },
        ),
{
    let p = match profile {
        Some(p) => p,
        None => return String::from_str("no saved config profile"),
    };
    let mut v = chars_of("saved config profile:\n  provider: ");
    extend_str(&mut v, p.provider.as_str());
    extend_str(&mut v, "\n  model: ");
    extend_str(&mut v, p.model.as_str());
    extend_str(&mut v, "\n  base_url: ");
    extend_str(&mut v, p.base_url.as_str());
    let ghost mid = v@;
    match &p.custom_system_prompt {
        Some(c) => {
            extend_str(&mut v, "\n  custom_prompt: ");
            let cc = chars_of(c.as_str());
            let t = truncate_with_dots(cc.as_slice(), 120);
            extend_chars(&mut v, t.as_slice());
        },
        None => {
            assert(v@ =~= mid + Seq::<char>::empty());
        },
    }
    extend_str(&mut v, "\n  path: ");
    match path {
        Some(x) => extend_str(&mut v, x),
        None => extend_str(&mut v, "unknown"),
    }
    string_of(v.as_slice())
}

pub open spec fn shortcut_lines(s: Seq<Shortcut>) -> Seq<char>
    decreases s.len(),
{
    if s.len() == 0 {
        Seq::empty()
    } else {
        shortcut_lines(s.drop_last()) + "  "@ + s.last().key@ + " → "@ + s.last().command@ + "\n"@
    }
}

pub open spec fn show_shortcuts_spec(s: Seq<Shortcut>) -> Seq<char> {
    if s.len() == 0 {
        "no shortcuts configured. use /shortcut add <key> <command>"@
    } else {
        trim_end("shortcuts:\n"@ + shortcut_lines(s))
    }
}

/// The configured shortcuts, one `key → command` per line.
pub fn show_shortcuts(shortcuts: &[Shortcut]) -> (out: String)
    ensures
        out@ == show_shortcuts_spec(shortcuts@),
{
    if shortcuts.len() == 0 {
        return String::from_str("no shortcuts configured. use /shortcut add <key> <command>");
    }
    let mut v = chars_of("shortcuts:\n");
    let ghost head = v@;
    let mut i: usize = 0;
    while i < shortcuts.len()
        invariant
            i <= shortcuts@.len(),
            head == "shortcuts:\n"@,
            v@ == head + shortcut_lines(shortcuts@.take(i as int)),
        decreases shortcuts@.len() - i,
    {
        let s = &shortcuts[i];
        extend_str(&mut v, "  ");
        extend_str(&mut v, s.key.as_str());
        extend_str(&mut v, " → ");
        extend_str(&mut v, s.command.as_str());
        extend_str(&mut v, "\n");
        assert(shortcuts@.take(i + 1).drop_last() =~= shortcuts@.take(i as int));
        i += 1;
    }
    assert(shortcuts@.take(i as int) =~= shortcuts@);
    let k = trim_end_index(v.as_slice());
    let t = crate::text::slice_chars(v.as_slice(), 0, k);
    string_of(t.as_slice())
}

/// The shortcuts as `(key, command)` pairs.
pub open spec fn pairs(s: Seq<Shortcut>) -> Seq<(Seq<char>, Seq<char>)>
    decreases s.len(),
{
    if s.len() == 0 {
        Seq::empty()
    } else {
        pairs(s.drop_last()).push((s.last().key@, s.last().command@))
    }
}

/// The pairs whose key, lowercased, is not `key`, in their order.
pub open spec fn without_key(s: Seq<(Seq<char>, Seq<char>)>, key: Seq<char>) -> Seq<(Seq<char>, Seq<char>)>
    decreases s.len(),
{
    if s.len() == 0 {
        s
    } else if unicode_lowercase(s.last().0) == key {
        without_key(s.drop_last(), key)
    } else {
        without_key(s.drop_last(), key).push(s.last())
    }
}

pub open spec fn shortcut_usage() -> Seq<char> {
    "usage: /shortcut add <key> <command>\nexample: /shortcut add ctrl+r /clear"@
}

/// The shortcuts without those whose key matches `key` once lowercased.
fn shortcuts_without(shortcuts: &Vec<Shortcut>, key: &[char]) -> (kept: Vec<Shortcut>)
    ensures
        pairs(kept@) == without_key(pairs(shortcuts@), key@),
{
    let mut kept: Vec<Shortcut> = Vec::new();
    let mut i: usize = 0;
    while i < shortcuts.len()
        invariant
            i <= shortcuts@.len(),
            pairs(kept@) == without_key(pairs(shortcuts@.take(i as int)), key@),
        decreases shortcuts@.len() - i,
    {
        let s = &shortcuts[i];
        let kl = to_lowercase(s.key.as_str());
        let kc = chars_of(kl.as_str());
        let ghost before = kept@;
        assert(shortcuts@.take(i + 1).drop_last() =~= shortcuts@.take(i as int));
        assert(shortcuts@.take(i + 1).last() == shortcuts@[i as int]);
        let ghost t = shortcuts@.take(i + 1);
        assert(pairs(t) == pairs(t.drop_last()).push((t.last().key@, t.last().command@)));
        assert(pairs(t).drop_last() =~= pairs(shortcuts@.take(i as int)));
        assert(pairs(t).last().0 == s.key@);
        assert(kc@ == unicode_lowercase(s.key@));
        if !crate::text::chars_eq(kc.as_slice(), key) {
            let k2 = s.key.clone();
            let c2 = s.command.clone();
            kept.push(Shortcut { key: k2, command: c2 });
            assert(kept@.drop_last() =~= before);
            assert(pairs(kept@) == pairs(before).push((k2@, c2@)));
        }
        i += 1;
    }
    assert(shortcuts@.take(i as int) =~= shortcuts@);
    kept
}

/// `/shortcut add <key> <command>`: the key is the first word, lowercased;
/// the command the rest, trimmed. A shortcut with the same key is replaced
/// and the new one goes last. Without a command, the usage text comes back
/// and nothing changes.
pub fn add_shortcut(shortcuts: &mut Vec<Shortcut>, rest: &str) -> (r: Result<String, String>)
    ensures
        ({
            let s = rest@;
            let k = crate::text::word_len(s);
            if k == s.len() || trim(s.skip(k as int + 1)).len() == 0 {
                &&& r matches Err(e) && e@ == shortcut_usage()
                &&& final(shortcuts)@ == old(shortcuts)@
            } else {
                let key = unicode_lowercase(s.take(k as int));
                let command = trim(s.skip(k as int + 1));
                &&& r matches Ok(m) && m@ == "shortcut added: "@ + key + " → "@ + command
                &&& pairs(final(shortcuts)@) == without_key(pairs(old(shortcuts)@), key).push((key, command))
            }
        }),
{
    let c = chars_of(rest);
    let k = crate::text::word_len_exec(c.as_slice());
    if k == c.len() {
        return Err(String::from_str("usage: /shortcut add <key> <command>\nexample: /shortcut add ctrl+r /clear"));
    }
    let tail = crate::text::slice_chars(c.as_slice(), k + 1, c.len());
    let command = crate::text::trim_chars(tail.as_slice());
    if command.len() == 0 {
        return Err(String::from_str("usage: /shortcut add <key> <command>\nexample: /shortcut add ctrl+r /clear"));
    }
    let word = crate::text::slice_chars(c.as_slice(), 0, k);
    let ws = string_of(word.as_slice());
    let key = to_lowercase(ws.as_str());
    let kc = chars_of(key.as_str());
    let mut kept = shortcuts_without(shortcuts, kc.as_slice());
    let mut msg = chars_of("shortcut added: ");
    extend_chars(&mut msg, kc.as_slice());
    extend_str(&mut msg, " → ");
    extend_chars(&mut msg, command.as_slice());
    let ghost before = kept@;
    kept.push(Shortcut { key, command: string_of(command.as_slice()) });
    assert(kept@.drop_last() =~= before);
    *shortcuts = kept;
    Ok(string_of(msg.as_slice()))
}

/// `/shortcut remove <key>`: drops the shortcuts whose key matches the
/// trimmed, lowercased `key`; when none does, says so and changes nothing.
pub fn remove_shortcut(shortcuts: &mut Vec<Shortcut>, key: &str) -> (r: Result<String, String>)
    ensures
        ({
            let k = unicode_lowercase(trim(key@));
            let kept = without_key(pairs(old(shortcuts)@), k);
            if kept.len() == old(shortcuts)@.len() {
                &&& r matches Err(e) && e@ == "no shortcut found for: "@ + k
                &&& final(shortcuts)@ == old(shortcuts)@
            } else {
                &&& r matches Ok(m) && m@ == "shortcut removed: "@ + k
                &&& pairs(final(shortcuts)@) == kept
            }
        }),
{
    let t = trim_str(key);
    let ts = string_of(t.as_slice());
    let lower = to_lowercase(ts.as_str());
    let kc = chars_of(lower.as_str());
    let kept = shortcuts_without(shortcuts, kc.as_slice());
    proof {
        lemma_pairs_len(shortcuts@);
        lemma_pairs_len(kept@);
    }
    if kept.len() == shortcuts.len() {
        let mut msg = chars_of("no shortcut found for: ");
        extend_chars(&mut msg, kc.as_slice());
        return Err(string_of(msg.as_slice()));
    }
    let mut msg = chars_of("shortcut removed: ");
    extend_chars(&mut msg, kc.as_slice());
    *shortcuts = kept;
    Ok(string_of(msg.as_slice()))
}

pub proof fn lemma_pairs_len(s: Seq<Shortcut>)
    ensures
        pairs(s).len() == s.len(),
        forall|i: int| 0 <= i < s.len() ==> #[trigger] pairs(s)[i] == (s[i].key@, s[i].command@),
    decreases s.len(),
{
    if s.len() > 0 {
        lemma_pairs_len(s.drop_last());
    }
}

/// No pair that `without_key` keeps has the key it removed, and it keeps
/// every pair when none has that key.
pub proof fn lemma_without_key(s: Seq<(Seq<char>, Seq<char>)>, key: Seq<char>)
    ensures
        forall|i: int| 0 <= i < without_key(s, key).len() ==> unicode_lowercase(#[trigger] without_key(s, key)[i].0) != key,
        without_key(s, key).len() <= s.len(),
        without_key(s, key).len() == s.len() <==> forall|i: int| 0 <= i < s.len() ==> unicode_lowercase(#[trigger] s[i].0) != key,
    decreases s.len(),
{
    if s.len() > 0 {
        lemma_without_key(s.drop_last(), key);
        let r = without_key(s.drop_last(), key);
        if unicode_lowercase(s.last().0) != key {
            assert forall|i: int| 0 <= i < without_key(s, key).len() implies unicode_lowercase(#[trigger] without_key(s, key)[i].0) != key by {
                if i < r.len() {
                    assert(without_key(s, key)[i] == r[i]);
                }
            }
            if r.len() == s.len() - 1 {
                assert forall|i: int| 0 <= i < s.len() implies unicode_lowercase(#[trigger] s[i].0) != key by {
                    if i < s.len() - 1 {
                        assert(s[i] == s.drop_last()[i]);
                    }
                }
            } else {
                let j = choose|j: int| 0 <= j < s.len() - 1 && unicode_lowercase(#[trigger] s.drop_last()[j].0) == key;
                assert(s[j] == s.drop_last()[j]);
            }
        } else {
            assert(unicode_lowercase(s[s.len() - 1].0) == key);
        }
    }
}

/// After `/shortcut add`, the new shortcut is the only one left under its
/// key: no other shortcut's key, lowercased, is that key.
pub proof fn law_added_shortcut_replaces_its_key(
    before: Seq<(Seq<char>, Seq<char>)>,
    key: Seq<char>,
    command: Seq<char>,
)
    ensures
        ({
            let after = without_key(before, key).push((key, command));
            &&& after.last() == (key, command)
            &&& forall|i: int| 0 <= i < after.len() - 1 ==> unicode_lowercase(#[trigger] after[i].0) != key
        }),
{
    lemma_without_key(before, key);
    let w = without_key(before, key);
    let after = w.push((key, command));
    assert forall|i: int| 0 <= i < after.len() - 1 implies unicode_lowercase(#[trigger] after[i].0) != key by {
        assert(after[i] == w[i]);
    }
}

/// Removing a key that no shortcut has leaves the shortcuts as they are.
pub proof fn law_removing_an_absent_key_changes_nothing(s: Seq<(Seq<char>, Seq<char>)>, key: Seq<char>)
    requires
        forall|i: int| 0 <= i < s.len() ==> unicode_lowercase(#[trigger] s[i].0) != key,
    ensures
        without_key(s, key) == s,
    decreases s.len(),
{
    if s.len() > 0 {
        law_removing_an_absent_key_changes_nothing(s.drop_last(), key);
        assert(unicode_lowercase(s[s.len() - 1].0) != key);
        assert(s.drop_last().push(s.last()) =~= s);
    }
}

/// Index of the first shortcut whose key equals `key` once both are
/// lowercased, or -1.
pub open spec fn find_shortcut(s: Seq<Shortcut>, key: Seq<char>) -> int
    decreases s.len(),
{
    if s.len() == 0 {
        -1
    } else if find_shortcut(s.drop_last(), key) >= 0 {
        find_shortcut(s.drop_last(), key)
    } else if unicode_lowercase(s.last().key@) == key {
        s.len() - 1
    } else {
        -1
    }
}

/// The command of the shortcut `input` names (case-insensitively), if any.
pub fn expand_shortcut(shortcuts: &[Shortcut], input: &str) -> (r: Option<String>)
    ensures
        ({
            let k = find_shortcut(shortcuts@, unicode_lowercase(trim(input@)));
            match r {
                Some(c) => 0 <= k < shortcuts@.len() && c@ == shortcuts@[k].command@,
                None => k == -1,
            }
        }),
{
    let t = trim_str(input);
    let ts = string_of(t.as_slice());
    let lower = to_lowercase(ts.as_str());
    let want = chars_of(lower.as_str());
    let ghost key = unicode_lowercase(trim(input@));
    let mut i: usize = 0;
    while i < shortcuts.len()
        invariant
            i <= shortcuts@.len(),
            want@ == key,
            key == unicode_lowercase(trim(input@)),
            find_shortcut(shortcuts@.take(i as int), key) == -1,
        decreases shortcuts@.len() - i,
    {
        let kl = to_lowercase(shortcuts[i].key.as_str());
        let kc = chars_of(kl.as_str());
        assert(shortcuts@.take(i + 1).drop_last() =~= shortcuts@.take(i as int));
        if crate::text::chars_eq(kc.as_slice(), want.as_slice()) {
            proof {
                lemma_find_shortcut_prefix(shortcuts@, key, i as int);
            }
            return Some(shortcuts[i].command.clone());
        }
        i += 1;
    }
    assert(shortcuts@.take(i as int) =~= shortcuts@);
    None
}

proof fn lemma_find_shortcut_prefix(s: Seq<Shortcut>, key: Seq<char>, i: int)
    requires
        0 <= i < s.len(),
        find_shortcut(s.take(i), key) == -1,
        unicode_lowercase(s[i].key@) == key,
    ensures
        find_shortcut(s, key) == i,
    decreases s.len(),
{
    if i < s.len() - 1 {
        assert(s.drop_last().take(i) =~= s.take(i));
        lemma_find_shortcut_prefix(s.drop_last(), key, i);
    } else {
        assert(s.drop_last() =~= s.take(i));
    }
}

// ---------------------------------------------------------------------------
// Chat history
// ---------------------------------------------------------------------------

impl Msg {
    pub fn new(role: &'static str, text: &str) -> (m: Msg)
        ensures
            m.role == role,
            m.text@ == text@,
    {
        Msg { role, text: String::from_str(text) }
    }
}

pub open spec fn msgs_view(h: Seq<Msg>) -> Seq<(Seq<char>, Seq<char>)> {
    h.map_values(|m: Msg| (m.role@, m.text@))
}

pub open spec fn pairs_view(h: Seq<(&'static str, String)>) -> Seq<(Seq<char>, Seq<char>)> {
    h.map_values(|p: (&'static str, String)| (p.0@, p.1@))
}

/// The history with consecutive same-role messages joined by a blank line.
pub open spec fn merge_spec(h: Seq<(Seq<char>, Seq<char>)>) -> Seq<(Seq<char>, Seq<char>)>
    decreases h.len(),
{
    if h.len() == 0 {
        Seq::empty()
    } else {
        let m = merge_spec(h.drop_last());
        let (role, text) = h.last();
        if m.len() > 0 && m.last().0 == role {
            m.drop_last().push((role, m.last().1 + "\n\n"@ + text))
        } else {
            m.push((role, text))
        }
    }
}

/// Collapse consecutive same-role messages into one, so the roles alternate.
pub fn merge_adjacent(history: &[Msg]) -> (out: Vec<(&'static str, String)>)
    ensures
        pairs_view(out@) == merge_spec(msgs_view(history@)),
{
    let mut out: Vec<(&'static str, String)> = Vec::new();
    let ghost h = msgs_view(history@);
    let mut i: usize = 0;
    while i < history.len()
        invariant
            i <= history@.len(),
            h == msgs_view(history@),
            pairs_view(out@) == merge_spec(h.take(i as int)),
        decreases history@.len() - i,
    {
        let m = &history[i];
        let ghost before = pairs_view(out@);
        assert(h.take(i + 1).drop_last() =~= h.take(i as int));
        assert(h.take(i + 1).last() == (m.role@, m.text@));
        let n = out.len();
        let same = if n > 0 {
            let r = out[n - 1].0;
            let rc = chars_of(r);
            chars_eq_str(rc.as_slice(), m.role)
        } else {
            false
        };
        if same {
            let (role, text) = out.pop().unwrap();
            let mut v = chars_of(text.as_str());
            extend_str(&mut v, "\n\n");
            extend_str(&mut v, m.text.as_str());
            out.push((role, string_of(v.as_slice())));
            assert(pairs_view(out@) =~= before.drop_last().push((before.last().0, before.last().1 + "\n\n"@ + m.text@)));
        } else {
            out.push((m.role, String::from_str(m.text.as_str())));
            assert(pairs_view(out@) =~= before.push((m.role@, m.text@)));
        }
        i += 1;
    }
    assert(h.take(i as int) =~= h);
    out
}

/// No two neighbours share a role.
pub open spec fn alternating(h: Seq<(Seq<char>, Seq<char>)>) -> bool {
    forall|i: int| 0 <= i < h.len() - 1 ==> (#[trigger] h[i]).0 != h[i + 1].0
}

/// After merging, roles strictly alternate (what Anthropic and Gemini
/// require).
pub proof fn law_merged_history_alternates(h: Seq<(Seq<char>, Seq<char>)>)
    ensures
        alternating(merge_spec(h)),
    decreases h.len(),
{
    if h.len() > 0 {
        law_merged_history_alternates(h.drop_last());
        lemma_merge_last_role(h.drop_last());
    }
}

proof fn lemma_merge_last_role(h: Seq<(Seq<char>, Seq<char>)>)
    ensures
        h.len() > 0 ==> merge_spec(h).len() > 0 && merge_spec(h).last().0 == h.last().0,
        h.len() == 0 ==> merge_spec(h).len() == 0,
        merge_spec(h).len() <= h.len(),
    decreases h.len(),
{
    if h.len() > 0 {
        lemma_merge_last_role(h.drop_last());
    }
}

/// A history whose roles already alternate is sent unchanged.
pub proof fn law_merge_keeps_alternating_history(h: Seq<(Seq<char>, Seq<char>)>)
    requires
        alternating(h),
    ensures
        merge_spec(h) == h,
    decreases h.len(),
{
    if h.len() > 0 {
        let p = h.drop_last();
        assert(alternating(p)) by {
            assert forall|i: int| 0 <= i < p.len() - 1 implies (#[trigger] p[i]).0 != p[i + 1].0 by {
                assert(h[i].0 != h[i + 1].0);
            }
        }
        law_merge_keeps_alternating_history(p);
        if p.len() > 0 {
            assert(h[h.len() - 2].0 != h[h.len() - 1].0);
        }
        assert(merge_spec(h) =~= h);
    }
}

/// The Gemini role for a chat role.
pub fn google_role(role: &str) -> (r: &'static str)
    ensures
        r@ == (if role@ == "assistant"@ { "model"@ } else { "user"@ }),
{
    let c = chars_of(role);
    if chars_eq_str(c.as_slice(), "assistant") {
        "model"
    } else {
        "user"
    }
}

/// The model name without a leading `models/`.
pub fn google_model(model: &str) -> (r: &str)
    ensures
        r@ == (if "models/"@.is_prefix_of(model@) { model@.skip(7) } else { model@ }),
{
    let c = chars_of(model);
    proof {
        reveal_strlit("models/");
    }
    if starts_with_str(c.as_slice(), "models/") {
        model.substring_char(7, c.len())
    } else {
        model
    }
}

/// `url` without trailing slashes.
pub fn clean_base(url: &str) -> (r: &str)
    ensures
        r@ == trim_trailing_slashes(url@),
{
    let c = chars_of(url);
    let mut k = c.len();
    assert(url@.take(k as int) =~= url@);
    while k > 0 && c[k - 1] == '/'
        invariant
            k <= c@.len(),
            c@ == url@,
            trim_trailing_slashes(url@) == trim_trailing_slashes(url@.take(k as int)),
        decreases k,
    {
        assert(url@.take(k as int).drop_last() =~= url@.take(k - 1));
        k -= 1;
    }
    url.substring_char(0, k)
}

pub open spec fn trim_trailing_slashes(s: Seq<char>) -> Seq<char>
    decreases s.len(),
{
    if s.len() > 0 && s.last() == '/' { trim_trailing_slashes(s.drop_last()) } else { s }
}

// ---------------------------------------------------------------------------
// Usage
// ---------------------------------------------------------------------------

/// Token usage of one reply, as the provider reported it.
pub struct Usage {
    input: Option<u64>,
    output: Option<u64>,
    total: Option<u64>,
    estimated: bool,
}

/// A settled usage record.
#[derive(Clone, Copy)]
pub struct UsageSnapshot {
    pub input: u64,
    pub output: u64,
    pub total: u64,
    pub estimated: bool,
}

/// Session totals.
pub struct Totals {
    turns: u64,
    tokens: u64,
    estimated: bool,
}

pub open spec fn unwrap0(o: Option<u64>) -> u64 {
    match o {
        Some(n) => n,
        None => 0,
    }
}

/// About four characters per token, rounded up.
pub open spec fn estimate_spec(chars: nat) -> nat {
    (chars + 3) / 4
}

pub fn estimate_tokens(chars: usize) -> (t: u64)
    ensures
        t == estimate_spec(chars as nat),
{
    let c = chars as u64;
    let q = c / 4;
    if c % 4 == 0 { q } else { q + 1 }
}

impl Usage {
    pub closed spec fn input_count(&self) -> Option<u64> {
        self.input
    }

    pub closed spec fn output_count(&self) -> Option<u64> {
        self.output
    }

    pub closed spec fn total_count(&self) -> Option<u64> {
        self.total
    }

    pub closed spec fn is_estimated(&self) -> bool {
        self.estimated
    }

    pub fn new() -> (u: Usage)
        ensures
            u.input_count() is None,
            u.output_count() is None,
            u.total_count() is None,
            !u.is_estimated(),
    {
        Usage { input: None, output: None, total: None, estimated: false }
    }

    /// Fold in counts read from a streamed event; an absent count keeps the
    /// one seen before.
    pub fn record(&mut self, input: Option<u64>, output: Option<u64>, total: Option<u64>)
        ensures
            final(self).input_count() == (if input is Some { input } else { old(self).input_count() }),
            final(self).output_count() == (if output is Some { output } else { old(self).output_count() }),
            final(self).total_count() == (if total is Some { total } else { old(self).total_count() }),
            final(self).is_estimated() == old(self).is_estimated(),
    {
        if input.is_some() {
            self.input = input;
        }
        if output.is_some() {
            self.output = output;
        }
        if total.is_some() {
            self.total = total;
        }
    }

    /// Settle the record once the reply is complete: missing input or output
    /// counts are estimated from the character counts (and the record marked
    /// estimated), and a missing total is their sum.
    pub fn finish(&mut self, input_chars: usize, output_chars: usize)
        requires
            old(self).total_count() is None ==> (match old(self).input_count() {
                Some(n) => n as nat,
                None => estimate_spec(input_chars as nat),
            }) + (match old(self).output_count() {
                Some(n) => n as nat,
                None => estimate_spec(output_chars as nat),
            }) <= u64::MAX,
        ensures
            ({
                let missing = old(self).input_count() is None || old(self).output_count() is None;
                let i = if missing && old(self).input_count() is None { estimate_spec(input_chars as nat) } else { unwrap0(old(self).input_count()) as nat };
                let o = if missing && old(self).output_count() is None { estimate_spec(output_chars as nat) } else { unwrap0(old(self).output_count()) as nat };
                &&& final(self).is_estimated() == (old(self).is_estimated() || missing)
                &&& final(self).input_count() == Some(i as u64)
                &&& final(self).output_count() == Some(o as u64)
                &&& final(self).total_count() == (match old(self).total_count() {
                    Some(t) => Some(t),
                    None => Some((i + o) as u64),
                })
            }),
    {
        if self.input.is_none() || self.output.is_none() {
            self.estimated = true;
            if self.input.is_none() {
                self.input = Some(estimate_tokens(input_chars));
            }
            if self.output.is_none() {
                self.output = Some(estimate_tokens(output_chars));
            }
        }
        if self.total.is_none() {
            let i = match self.input {
                Some(n) => n,
                None => 0,
            };
            let o = match self.output {
                Some(n) => n,
                None => 0,
            };
            self.total = Some(i + o);
        }
    }

    /// The record with absent counts as zero.
    pub fn snapshot(&self) -> (s: UsageSnapshot)
        ensures
            s.input == unwrap0(self.input_count()),
            s.output == unwrap0(self.output_count()),
            s.total == unwrap0(self.total_count()),
            s.estimated == self.is_estimated(),
    {
        UsageSnapshot {
            input: match self.input {
                Some(n) => n,
                None => 0,
            },
            output: match self.output {
                Some(n) => n,
                None => 0,
            },
            total: match self.total {
                Some(n) => n,
                None => 0,
            },
            estimated: self.estimated,
        }
    }
}

impl Totals {
    pub closed spec fn turn_count(&self) -> u64 {
        self.turns
    }

    pub closed spec fn token_count(&self) -> u64 {
        self.tokens
    }

    pub closed spec fn any_estimated(&self) -> bool {
        self.estimated
    }

    pub fn new() -> (t: Totals)
        ensures
            t.turn_count() == 0,
            t.token_count() == 0,
            !t.any_estimated(),
    {
        Totals { turns: 0, tokens: 0, estimated: false }
    }

    pub fn turns(&self) -> (n: u64)
        ensures
            n == self.turn_count(),
    {
        self.turns
    }

    pub fn tokens(&self) -> (n: u64)
        ensures
            n == self.token_count(),
    {
        self.tokens
    }

    /// Count one more turn and its tokens.
    pub fn record(&mut self, usage: UsageSnapshot)
        requires
            old(self).turn_count() < u64::MAX,
            old(self).token_count() + usage.total <= u64::MAX,
        ensures
            final(self).turn_count() == old(self).turn_count() + 1,
            final(self).token_count() == old(self).token_count() + usage.total,
            final(self).any_estimated() == (old(self).any_estimated() || usage.estimated),
    {
        self.turns = self.turns + 1;
        self.tokens = self.tokens + usage.total;
        self.estimated = self.estimated || usage.estimated;
    }
}

/// The usage line printed after a reply.
pub open spec fn usage_report_spec(u: UsageSnapshot, turns: u64, tokens: u64, estimated: bool) -> Seq<char> {
    "\n[tokens"@ + (if u.estimated { " approx"@ } else { Seq::empty() }) + "] input="@ + decimal(u.input as nat)
        + " output="@ + decimal(u.output as nat) + " total="@ + decimal(u.total as nat)
        + " | session turns="@ + decimal(turns as nat) + " total="@ + decimal(tokens as nat) + (if estimated {
        " approx"@
    } else {
        Seq::empty()
    })
}

/// The usage line for one reply, with the session totals (already counting
/// it).
pub fn usage_report(usage: UsageSnapshot, totals: &Totals) -> (out: String)
    ensures
        out@ == usage_report_spec(usage, totals.turn_count(), totals.token_count(), totals.any_estimated()),
{
    let mut v = chars_of("\n[tokens");
    let ghost m0 = v@;
    if usage.estimated {
        extend_str(&mut v, " approx");
    } else {
        assert(v@ =~= m0 + Seq::<char>::empty());
    }
    extend_str(&mut v, "] input=");
    let d = decimal_string(usage.input);
    extend_chars(&mut v, d.as_slice());
    extend_str(&mut v, " output=");
    let d = decimal_string(usage.output);
    extend_chars(&mut v, d.as_slice());
    extend_str(&mut v, " total=");
    let d = decimal_string(usage.total);
    extend_chars(&mut v, d.as_slice());
    extend_str(&mut v, " | session turns=");
    let d = decimal_string(totals.turns);
    extend_chars(&mut v, d.as_slice());
    extend_str(&mut v, " total=");
    let d = decimal_string(totals.tokens);
    extend_chars(&mut v, d.as_slice());
    let ghost m1 = v@;
    if totals.estimated {
        extend_str(&mut v, " approx");
    } else {
        assert(v@ =~= m1 + Seq::<char>::empty());
    }
    string_of(v.as_slice())
}

} // verus!
