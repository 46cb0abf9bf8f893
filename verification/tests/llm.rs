use biscuits::llm::{
    accepts_saved, clean_base, config_from_env, config_from_profile, default_key, default_prompt,
    env_provider, estimate_tokens, expand_shortcut, finish_config, google_model, google_role,
    merge_adjacent, needs_model_lookup, profile_of, profile_provider, provider_name, show_profile,
    show_shortcuts, usage_report, add_shortcut, remove_shortcut, with_custom_prompt, prompt_info,
    prompt_saved, ConfigProfile, EnvSettings, Msg, Provider, Shortcut, Totals,
    Usage,
};

#[test]
fn merges_consecutive_same_role_messages() {
    let history = vec![
        Msg::new("user", "question"),
        Msg::new("assistant", "plan"),
        Msg::new("user", "result one"),
        Msg::new("user", "result two"),
    ];
    let merged = merge_adjacent(&history);
    assert_eq!(merged.len(), 3);
    assert_eq!(merged[0].0, "user");
    assert_eq!(merged[1].0, "assistant");
    assert_eq!(merged[2].0, "user");
    assert_eq!(merged[2].1, "result one\n\nresult two");
}

#[test]
fn merge_is_identity_when_already_alternating() {
    let history = vec![
        Msg::new("user", "a"),
        Msg::new("assistant", "b"),
        Msg::new("user", "c"),
    ];
    let merged = merge_adjacent(&history);
    assert_eq!(merged.len(), 3);
    assert_eq!(merged[1], ("assistant", "b".to_string()));
}

#[test]
fn merged_roles_alternate() {
    let history = vec![
        Msg::new("user", "1"),
        Msg::new("user", "2"),
        Msg::new("user", "3"),
        Msg::new("assistant", "4"),
        Msg::new("assistant", "5"),
    ];
    let merged = merge_adjacent(&history);
    assert_eq!(
        merged,
        vec![("user", "1\n\n2\n\n3".to_string()), ("assistant", "4\n\n5".to_string())]
    );
}

fn env(provider: Option<&str>) -> EnvSettings {
    EnvSettings {
        ai_provider: provider.map(|s| s.to_string()),
        openai_api_key: None,
        anthropic_api_key: None,
        gemini_api_key: None,
        openai_compat_api_key: None,
        lmstudio_api_key: None,
        ai_base_url: None,
        ai_model: None,
    }
}

#[test]
fn provider_names_round_trip() {
    for p in [
        Provider::OpenAI,
        Provider::Anthropic,
        Provider::Google,
        Provider::OpenAICompat,
        Provider::LMStudio,
    ] {
        assert_eq!(profile_provider(provider_name(p)), Ok(p));
    }
    assert_eq!(profile_provider("LMStudio"), Ok(Provider::LMStudio));
    assert_eq!(
        profile_provider("Foo").unwrap_err(),
        "unknown provider in saved profile: Foo"
    );
    assert_eq!(env_provider(None), Ok(Provider::OpenAI));
    assert_eq!(env_provider(Some("Anthropic")), Ok(Provider::Anthropic));
    assert_eq!(env_provider(Some("NOPE")).unwrap_err(), "unknown AI_PROVIDER: nope");
    assert_eq!(default_key(Provider::LMStudio), Some("lm-studio"));
    assert_eq!(default_key(Provider::OpenAI), None);
}

#[test]
fn config_from_env_defaults_and_errors() {
    let mut e = env(Some("openai"));
    assert_eq!(
        config_from_env(&e, "sys".to_string()).err().unwrap(),
        "OPENAI_API_KEY is required"
    );
    e.openai_api_key = Some("k".to_string());
    let c = config_from_env(&e, "sys".to_string()).ok().unwrap();
    assert_eq!(c.base_url, "https://api.openai.com/v1");
    assert_eq!(c.model, "gpt-4o-mini");
    assert_eq!(c.base_system, "sys");
    let e = env(Some("compat"));
    assert_eq!(
        config_from_env(&e, "s".to_string()).err().unwrap(),
        "AI_MODEL is required for OpenAI-compatible providers"
    );
    let e = env(Some("lm-studio"));
    let c = config_from_env(&e, "s".to_string()).ok().unwrap();
    assert_eq!(c.api_key, "lm-studio");
    assert!(needs_model_lookup(&c));
    assert_eq!(
        finish_config(c, "AI_MODEL is required").err().unwrap(),
        "AI_MODEL is required"
    );
}

#[test]
fn profile_configuration() {
    let p = ConfigProfile {
        provider: "Anthropic".to_string(),
        model: "m".to_string(),
        base_url: "u".to_string(),
        custom_system_prompt: None,
    };
    let c = config_from_profile(&p, "key".to_string(), "default").ok().unwrap();
    assert_eq!(c.provider, Provider::Anthropic);
    assert_eq!(c.base_system, "default");
    let back = profile_of(&c);
    assert_eq!(back.provider, "anthropic");
    assert!(accepts_saved("YES"));
    assert!(accepts_saved(""));
    assert!(!accepts_saved("n"));
    assert!(default_prompt("/w").contains("launched in /w. Treat"));
}

#[test]
fn show_profile_and_shortcuts() {
    assert_eq!(show_profile(None, None), "no saved config profile");
    let p = ConfigProfile {
        provider: "openai".to_string(),
        model: "gpt".to_string(),
        base_url: "https://x".to_string(),
        custom_system_prompt: Some("be brief".to_string()),
    };
    assert_eq!(
        show_profile(Some(&p), Some("/c/config.json")),
        "saved config profile:\n  provider: openai\n  model: gpt\n  base_url: https://x\n  custom_prompt: be brief\n  path: /c/config.json"
    );
    assert_eq!(
        show_shortcuts(&[]),
        "no shortcuts configured. use /shortcut add <key> <command>"
    );
    let shortcuts = vec![
        Shortcut { key: "T".to_string(), command: "/test plan".to_string() },
        Shortcut { key: "g".to_string(), command: "/goal".to_string() },
    ];
    assert_eq!(show_shortcuts(&shortcuts), "shortcuts:\n  T → /test plan\n  g → /goal");
    assert_eq!(expand_shortcut(&shortcuts, " t "), Some("/test plan".to_string()));
    assert_eq!(expand_shortcut(&shortcuts, "x"), None);
}

#[test]
fn urls_and_roles() {
    assert_eq!(clean_base("http://x/v1//"), "http://x/v1");
    assert_eq!(google_model("models/gemini"), "gemini");
    assert_eq!(google_model("gemini"), "gemini");
    assert_eq!(google_role("assistant"), "model");
    assert_eq!(google_role("user"), "user");
}

#[test]
fn usage_estimates_and_totals() {
    assert_eq!(estimate_tokens(0), 0);
    assert_eq!(estimate_tokens(5), 2);
    assert_eq!(estimate_tokens(8), 2);
    let mut u = Usage::new();
    u.record(Some(10), None, None);
    u.finish(100, 9);
    let s = u.snapshot();
    assert_eq!((s.input, s.output, s.total, s.estimated), (10, 3, 13, true));
    let mut totals = Totals::new();
    totals.record(s);
    assert_eq!((totals.turns(), totals.tokens()), (1, 13));
    assert_eq!(
        usage_report(s, &totals),
        "\n[tokens approx] input=10 output=3 total=13 | session turns=1 total=13 approx"
    );
}

fn shortcut(key: &str, command: &str) -> Shortcut {
    Shortcut { key: key.to_string(), command: command.to_string() }
}

fn keys(s: &[Shortcut]) -> Vec<(String, String)> {
    s.iter().map(|x| (x.key.clone(), x.command.clone())).collect()
}

#[test]
fn adding_a_shortcut_replaces_one_with_the_same_key() {
    let mut list = vec![shortcut("Ctrl+R", "/old"), shortcut("ctrl+k", "/keep")];
    let r = add_shortcut(&mut list, "CTRL+R   /clear now ");
    assert_eq!(r, Ok("shortcut added: ctrl+r → /clear now".to_string()));
    assert_eq!(keys(&list), vec![("ctrl+k".to_string(), "/keep".to_string()), ("ctrl+r".to_string(), "/clear now".to_string())]);
}

#[test]
fn adding_a_shortcut_without_a_command_shows_usage() {
    let mut list = vec![shortcut("ctrl+k", "/keep")];
    let usage = "usage: /shortcut add <key> <command>\nexample: /shortcut add ctrl+r /clear".to_string();
    assert_eq!(add_shortcut(&mut list, "ctrl+r"), Err(usage.clone()));
    assert_eq!(add_shortcut(&mut list, "ctrl+r    "), Err(usage));
    assert_eq!(keys(&list), vec![("ctrl+k".to_string(), "/keep".to_string())]);
}

#[test]
fn removing_shortcuts_matches_keys_case_insensitively() {
    let mut list = vec![shortcut("Ctrl+R", "/a"), shortcut("ctrl+k", "/b")];
    assert_eq!(remove_shortcut(&mut list, " ctrl+r "), Ok("shortcut removed: ctrl+r".to_string()));
    assert_eq!(keys(&list), vec![("ctrl+k".to_string(), "/b".to_string())]);
    assert_eq!(remove_shortcut(&mut list, "ctrl+x"), Err("no shortcut found for: ctrl+x".to_string()));
    assert_eq!(list.len(), 1);
}

#[test]
fn custom_prompt_is_set_on_the_saved_profile() {
    let saved = ConfigProfile {
        provider: "openai".to_string(),
        model: "m".to_string(),
        base_url: "u".to_string(),
        custom_system_prompt: None,
    };
    let p = with_custom_prompt(Some(saved), Some("be brief".to_string()));
    assert_eq!(p.provider, "openai");
    assert_eq!(p.custom_system_prompt.as_deref(), Some("be brief"));
    assert_eq!(prompt_info(Some(&p)), "custom system prompt:\n  be brief");
    let cleared = with_custom_prompt(Some(p), None);
    assert_eq!(prompt_info(Some(&cleared)), "using default system prompt");
    let fresh = with_custom_prompt(None, Some("x".to_string()));
    assert_eq!(fresh.provider, "");
    assert_eq!(prompt_info(None), "using default system prompt");
    assert_eq!(prompt_saved("x"), "custom system prompt saved (takes effect next launch):\n  x");
}
