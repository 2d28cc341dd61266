use codeg_core::json::parse_json;
use codeg_core::native_config::{
    catalog_item_id_of, catalog_item_window_of, codeg_catalog_from_json, context_windows_from_json,
    model_id_from_json, window_entry_of,
    completions_model_id, effective_compact_prompt, env_has_provider_bind, is_loopback_http_url,
    overlay_bound_provider, project_bound_provider_catalog, resolve_codeg_agent_config,
    trimmed_optional, BoundProvider, CodegProtocol, EnvMap, NativeConfigError, WireProtocol,
    API_BASE_URL_KEY, API_KEY_KEY, COMPACT_MODEL_KEY, COMPACT_PROMPT_KEY,
    COMPACT_RECENT_TURNS_KEY, COMPACT_SOFT_PERCENT_KEY, CONTEXT_WINDOWS_KEY,
    DEFAULT_COMPACT_PROMPT, DEFAULT_COMPACT_RECENT_TURNS, DEFAULT_COMPACT_SOFT_PERCENT,
    DEFAULT_MAX_OUTPUT_TOKENS, DEFAULT_MAX_TURNS, LOCAL_API_KEY, MAX_OUTPUT_TOKENS_KEY,
    MAX_TURNS_KEY, MODEL_KEY, PROVIDER_BOUND_KEY, SYSTEM_PROMPT_KEY,
};

fn provider(url: &str, key: &str, model: &str) -> BoundProvider {
    BoundProvider {
        api_url: url.into(),
        api_key: key.into(),
        model: Some(model.into()),
    }
}

fn env_with_windows(model: &str, window: u32) -> EnvMap {
    let mut env = EnvMap::new();
    env.insert(
        CONTEXT_WINDOWS_KEY.into(),
        format!(r#"{{"{model}": {window}}}"#),
    );
    env
}

#[test]
fn missing_provider_fails_without_reading_env_creds() {
    let mut env = env_with_windows("gpt-4.1", 128000);
    env.insert(API_KEY_KEY.into(), "sk-from-env".into());
    env.insert(API_BASE_URL_KEY.into(), "https://api.example.com/v1".into());
    env.insert(MODEL_KEY.into(), "gpt-4.1".into());
    assert!(
        !env_has_provider_bind(&env),
        "leftover CODEG_AGENT_API_* keys are not a bind"
    );
    assert!(matches!(
        resolve_codeg_agent_config(&env, None),
        Err(NativeConfigError::MissingProvider)
    ));
}

#[test]
fn overlay_sets_internal_bind_marker_and_resolves() {
    let mut env = env_with_windows("gpt-4.1", 128000);
    env.insert(API_KEY_KEY.into(), "sk-leftover".into());
    let p = provider("https://gw.example/v1", "sk-bound", "gpt-4.1");
    overlay_bound_provider(&mut env, &p);
    assert!(env_has_provider_bind(&env));
    assert_eq!(env.get(PROVIDER_BOUND_KEY).map(String::as_str), Some("1"));
    let cfg = resolve_codeg_agent_config(&env, Some(&p)).expect("valid");
    assert_eq!(cfg.api_key, "sk-bound");
    assert_eq!(cfg.model_id, "gpt-4.1");
    assert_eq!(cfg.api_base_url, "https://gw.example/v1");
}

#[test]
fn provider_overlay_clears_stale_model() {
    let mut env = env_with_windows("fresh", 128000);
    env.insert(MODEL_KEY.into(), "stale".into());
    env.insert(API_KEY_KEY.into(), "old-key".into());
    let p = provider("https://gw.example/v1", "sk-new", "fresh");
    let cfg = resolve_codeg_agent_config(&env, Some(&p)).expect("valid");
    assert_eq!(cfg.model_id, "fresh");
    assert_eq!(cfg.api_key, "sk-new");
    assert_eq!(cfg.max_output_tokens, DEFAULT_MAX_OUTPUT_TOKENS);
}

#[test]
fn empty_provider_model_does_not_keep_old_env_model() {
    let mut env = env_with_windows("stale", 128000);
    env.insert(MODEL_KEY.into(), "stale".into());
    let p = BoundProvider {
        api_url: "https://gw.example/v1".into(),
        api_key: "sk-new".into(),
        model: None,
    };
    assert_eq!(
        resolve_codeg_agent_config(&env, Some(&p)).err(),
        Some(NativeConfigError::MissingModelId)
    );
}

#[test]
fn unknown_window_is_not_defaulted() {
    let env = env_with_windows("other", 128000);
    let p = provider("https://gw.example/v1", "sk", "gateway-model");
    assert!(matches!(
        resolve_codeg_agent_config(&env, Some(&p)),
        Err(NativeConfigError::MissingContextWindow { model_id }) if model_id == "gateway-model"
    ));
}

#[test]
fn rejects_non_http_url() {
    let env = env_with_windows("m", 128000);
    let p = provider("not-a-url", "sk", "m");
    assert_eq!(
        resolve_codeg_agent_config(&env, Some(&p)).err(),
        Some(NativeConfigError::InvalidApiUrl)
    );
}

#[test]
fn output_must_fit_after_safety_margin() {
    let mut env = env_with_windows("m", 4096);
    env.insert(MAX_OUTPUT_TOKENS_KEY.into(), "4096".into());
    let p = provider("https://gw.example/v1", "sk", "m");
    assert!(matches!(
        resolve_codeg_agent_config(&env, Some(&p)),
        Err(NativeConfigError::OutputExceedsWindow { .. })
    ));
}

#[test]
fn valid_window_and_default_output() {
    let env = env_with_windows("m", 128000);
    let p = provider("https://gw.example/v1", "sk", "m");
    let cfg = resolve_codeg_agent_config(&env, Some(&p)).expect("valid");
    assert_eq!(cfg.context_windows.get("m"), Some(&128000));
    assert_eq!(cfg.max_output_tokens, 4096);
    assert_eq!(cfg.system_prompt, None);
    assert_eq!(cfg.compact_prompt, None);
    assert_eq!(
        effective_compact_prompt(cfg.compact_prompt.as_deref()),
        DEFAULT_COMPACT_PROMPT
    );
}

#[test]
fn empty_prompts_trim_to_builtin_default() {
    let mut env = env_with_windows("m", 128000);
    env.insert(SYSTEM_PROMPT_KEY.into(), "   ".into());
    env.insert(COMPACT_PROMPT_KEY.into(), "\n".into());
    let p = provider("https://gw.example/v1", "sk", "m");
    let cfg = resolve_codeg_agent_config(&env, Some(&p)).expect("valid");
    assert_eq!(cfg.system_prompt, None);
    assert_eq!(cfg.compact_prompt, None);
}

#[test]
fn configured_prompts_are_snapshotted() {
    let mut env = env_with_windows("m", 128000);
    env.insert(SYSTEM_PROMPT_KEY.into(), " Be terse. ".into());
    env.insert(COMPACT_PROMPT_KEY.into(), " Keep paths; no replay. ".into());
    let p = provider("https://gw.example/v1", "sk", "m");
    let cfg = resolve_codeg_agent_config(&env, Some(&p)).expect("valid");
    assert_eq!(cfg.system_prompt.as_deref(), Some("Be terse."));
    assert_eq!(cfg.compact_prompt.as_deref(), Some("Keep paths; no replay."));
    assert_eq!(
        effective_compact_prompt(cfg.compact_prompt.as_deref()),
        "Keep paths; no replay."
    );
}

#[test]
fn claude_json_provider_uses_main_as_completions_model() {
    let env = env_with_windows("sonnet-main-5", 128000);
    let p = provider(
        "https://gw.example/v1",
        "sk",
        r#"{"main":"sonnet-main-5","reasoning":"opus-reasoning-4"}"#,
    );
    let cfg = resolve_codeg_agent_config(&env, Some(&p)).expect("valid");
    assert_eq!(cfg.model_id, "sonnet-main-5");
}

#[test]
fn codex_catalog_provider_uses_default_then_first_slug() {
    assert_eq!(
        completions_model_id(Some(
            r#"{"customs":[{"slug":"gpt-4.1","base":"gpt-4.1"}],"default":"gpt-4.1"}"#
        )),
        Some("gpt-4.1".into())
    );
    assert_eq!(
        completions_model_id(Some(r#"{"models":[{"slug":"o4-mini"}]}"#)),
        Some("o4-mini".into())
    );
    assert_eq!(
        completions_model_id(Some("gateway-model")),
        Some("gateway-model".into())
    );
    assert_eq!(completions_model_id(Some(r#"{"unrelated":true}"#)), None);
    assert_eq!(
        completions_model_id(Some(
            r#"{"kind":"codeg_agent_catalog","default":"b","models":[{"id":"a"},{"id":"b"}]}"#
        )),
        Some("b".into())
    );
}

#[test]
fn catalog_bind_projects_protocol_and_windows() {
    let mut env = EnvMap::new();
    let p = BoundProvider {
        api_url: "https://gw.example/v1".into(),
        api_key: "sk".into(),
        model: Some(
            r#"{"kind":"codeg_agent_catalog","protocol":"responses","default":"b","models":[{"id":"a","context_window":32000},{"id":"b","context_window":64000}]}"#
                .into(),
        ),
    };
    project_bound_provider_catalog(&mut env, &p);
    overlay_bound_provider(&mut env, &p);
    let cfg = resolve_codeg_agent_config(&env, Some(&p)).expect("valid");
    assert_eq!(cfg.protocol, CodegProtocol::Responses);
    assert_eq!(cfg.wire_protocol(), WireProtocol::Responses);
    assert_eq!(cfg.model_id, "b");
    assert_eq!(cfg.context_windows.get("a"), Some(&32000));
    assert_eq!(cfg.context_windows.get("b"), Some(&64000));
}

#[test]
fn compact_model_id_is_optional_override() {
    let mut env = env_with_windows("m", 128000);
    env.insert(COMPACT_MODEL_KEY.into(), " summarizer ".into());
    let p = provider("https://gw.example/v1", "sk", "m");
    let cfg = resolve_codeg_agent_config(&env, Some(&p)).expect("valid");
    assert_eq!(cfg.compact_model_id.as_deref(), Some("summarizer"));
    assert_eq!(cfg.model_id, "m");
}

#[test]
fn loopback_url_allows_empty_api_key() {
    let env = env_with_windows("llama3", 8192);
    let p = BoundProvider {
        api_url: "http://127.0.0.1:11434/v1".into(),
        api_key: String::new(),
        model: Some("llama3".into()),
    };
    let cfg = resolve_codeg_agent_config(&env, Some(&p)).expect("local ollama");
    assert_eq!(cfg.api_key, LOCAL_API_KEY);
    assert_eq!(cfg.model_id, "llama3");
}

#[test]
fn remote_url_still_requires_api_key() {
    let env = env_with_windows("m", 128000);
    let p = BoundProvider {
        api_url: "https://api.openai.com/v1".into(),
        api_key: String::new(),
        model: Some("m".into()),
    };
    assert_eq!(
        resolve_codeg_agent_config(&env, Some(&p)).err(),
        Some(NativeConfigError::EmptyApiKey)
    );
}

#[test]
fn compact_and_runtime_env_keys_parse() {
    let mut env = env_with_windows("m", 128000);
    env.insert(COMPACT_SOFT_PERCENT_KEY.into(), "70".into());
    env.insert(COMPACT_RECENT_TURNS_KEY.into(), "8".into());
    env.insert(MAX_TURNS_KEY.into(), "24".into());
    let p = provider("https://gw.example/v1", "sk", "m");
    let cfg = resolve_codeg_agent_config(&env, Some(&p)).expect("valid");
    assert_eq!(cfg.compact_soft_percent, 70);
    assert_eq!(cfg.compact_recent_turns, 8);
    assert_eq!(cfg.max_turns, 24);
}

#[test]
fn invalid_compact_and_runtime_env_fall_back_to_defaults() {
    let mut env = env_with_windows("m", 128000);
    env.insert(COMPACT_SOFT_PERCENT_KEY.into(), "0".into());
    env.insert(COMPACT_RECENT_TURNS_KEY.into(), "nope".into());
    env.insert(MAX_TURNS_KEY.into(), "-1".into());
    let p = provider("https://gw.example/v1", "sk", "m");
    let cfg = resolve_codeg_agent_config(&env, Some(&p)).expect("valid");
    assert_eq!(cfg.compact_soft_percent, DEFAULT_COMPACT_SOFT_PERCENT);
    assert_eq!(cfg.compact_recent_turns, DEFAULT_COMPACT_RECENT_TURNS);
    assert_eq!(cfg.max_turns, DEFAULT_MAX_TURNS);
}

// ----- further cases -----

#[test]
fn protocol_names_round_trip_through_parse() {
    for p in [CodegProtocol::Auto, CodegProtocol::ChatCompletions, CodegProtocol::Responses] {
        assert_eq!(CodegProtocol::parse(Some(p.as_str())), p);
    }
    for w in [WireProtocol::ChatCompletions, WireProtocol::Responses] {
        assert_eq!(WireProtocol::parse(Some(w.as_str())), Some(w));
    }
    assert_eq!(CodegProtocol::parse(Some("  responses ")), CodegProtocol::Responses);
    assert_eq!(CodegProtocol::parse(None), CodegProtocol::ChatCompletions);
    assert_eq!(WireProtocol::parse(Some("auto")), None);
}

#[test]
fn trimmed_optional_never_yields_blank_text() {
    assert_eq!(trimmed_optional(Some("  x  ")), Some("x".to_string()));
    assert_eq!(trimmed_optional(Some(" \t\n")), None);
    assert_eq!(trimmed_optional(None), None);
}

#[test]
fn loopback_hosts_are_recognised() {
    assert!(is_loopback_http_url("http://localhost:1234/v1"));
    assert!(is_loopback_http_url(" http://user@LOCALHOST/v1 "));
    assert!(is_loopback_http_url("http://[::1]:8080/v1"));
    assert!(is_loopback_http_url("https://0.0.0.0"));
    assert!(!is_loopback_http_url("https://api.openai.com/v1"));
    assert!(!is_loopback_http_url("ftp://localhost"));
}

#[test]
fn error_messages_and_check_ids() {
    assert_eq!(NativeConfigError::MissingProvider.check_id(), "model_provider");
    assert_eq!(NativeConfigError::MissingModelId.check_id(), "model_id");
    assert_eq!(NativeConfigError::InvalidMaxOutputTokens.check_id(), "context_window");
    assert_eq!(
        NativeConfigError::OutputExceedsWindow { max_output: 4096, window: 4096 }.message(),
        "Max output 4096 does not fit in window 4096 after a 1024-token safety margin"
    );
    assert_eq!(
        NativeConfigError::MissingContextWindow { model_id: "m".into() }.message(),
        "No context window configured for model `m` in CODEG_AGENT_CONTEXT_WINDOWS"
    );
}

#[test]
fn invalid_windows_json_is_an_error() {
    let mut env = EnvMap::new();
    env.insert(CONTEXT_WINDOWS_KEY.into(), r#"{"m": 0}"#.into());
    let p = provider("https://gw.example/v1", "sk", "m");
    assert_eq!(
        resolve_codeg_agent_config(&env, Some(&p)).err(),
        Some(NativeConfigError::InvalidContextWindows)
    );
    let mut env = EnvMap::new();
    env.insert(CONTEXT_WINDOWS_KEY.into(), r#"{"m": " 2048 "}"#.into());
    let cfg = resolve_codeg_agent_config(&env, Some(&p)).err();
    assert_eq!(
        cfg,
        Some(NativeConfigError::OutputExceedsWindow { max_output: 4096, window: 2048 })
    );
}

#[test]
fn catalog_absent_clears_protocol_keys() {
    let mut env = EnvMap::new();
    env.insert("CODEG_AGENT_PROTOCOL".into(), "responses".into());
    env.insert("CODEG_AGENT_RESOLVED_PROTOCOL".into(), "responses".into());
    let p = provider("https://gw.example/v1", "sk", "plain-model");
    project_bound_provider_catalog(&mut env, &p);
    assert!(env.get("CODEG_AGENT_PROTOCOL").is_none());
    assert!(env.get("CODEG_AGENT_RESOLVED_PROTOCOL").is_none());
}

#[test]
fn parsed_model_columns_name_their_model() {
    let j = |t: &str| parse_json(t).expect("json");
    assert_eq!(model_id_from_json(&j(r#"" gpt-4o ""#)).as_deref(), Some("gpt-4o"));
    assert_eq!(
        model_id_from_json(&j(r#"{"main":" ","customOption":"c","default":"d"}"#)).as_deref(),
        Some("c")
    );
    assert_eq!(
        model_id_from_json(&j(r#"{"customs":[" ",{"x":1},"s1"],"models":["m"]}"#)).as_deref(),
        Some("s1")
    );
    assert_eq!(model_id_from_json(&j(r#"{"other":"x"}"#)), None);
    assert_eq!(model_id_from_json(&j("42")), None);
}

#[test]
fn parsed_windows_objects_give_their_windows() {
    let j = |t: &str| parse_json(t).expect("json");
    let m = context_windows_from_json(&j(r#"{" a ":1000,"b":" 2000 ","a":3000}"#)).expect("valid");
    assert_eq!(m.get("a"), Some(&3000));
    assert_eq!(m.get("b"), Some(&2000));
    assert_eq!(m.entry_count(), 2);
    assert!(matches!(
        context_windows_from_json(&j(r#"{"a":-5}"#)),
        Err(NativeConfigError::InvalidContextWindows)
    ));
    assert!(matches!(
        context_windows_from_json(&j(r#"{"a":0}"#)),
        Err(NativeConfigError::InvalidContextWindows)
    ));
    assert!(matches!(
        context_windows_from_json(&j("[1]")),
        Err(NativeConfigError::InvalidContextWindows)
    ));
    let e = ("  ".to_string(), j("5"));
    assert!(window_entry_of(&e).is_none());
}

#[test]
fn parsed_catalogs_give_protocol_and_windows() {
    let j = |t: &str| parse_json(t).expect("json");
    let c = codeg_catalog_from_json(&j(
        r#"{"kind":"codeg_agent_catalog","protocol":"responses","models":["a",{"slug":"b","contextWindow":5},{"id":"c","context_window":0}]}"#,
    ))
    .expect("catalog");
    assert_eq!(c.protocol, CodegProtocol::Responses);
    assert_eq!(c.windows.get("b"), Some(&5));
    assert_eq!(c.windows.get("a"), c.windows.get("c"));
    assert_eq!(catalog_item_id_of(&j(r#"{"id":" x "}"#)).as_deref(), Some("x"));
    assert_eq!(catalog_item_window_of(&j(r#"{"context_window":7}"#)), 7);
    assert!(codeg_catalog_from_json(&j(r#"{"kind":"other","models":["a"]}"#)).is_none());
    assert!(codeg_catalog_from_json(&j(r#"{"kind":"codeg_agent_catalog","models":[]}"#)).is_none());
    assert!(codeg_catalog_from_json(&j(r#"{"kind":"codeg_agent_catalog","models":[1]}"#)).is_none());
}

#[test]
fn catalog_windows_are_written_in_key_order_with_escapes() {
    let mut env = EnvMap::new();
    let p = BoundProvider {
        api_url: "https://gw.example/v1".into(),
        api_key: "sk".into(),
        model: Some(
            r#"{"kind":"codeg_agent_catalog","models":[{"id":"zeta","context_window":5},{"id":"a\"q","context_window":6},{"id":"t\tx","context_window":7},{"id":"\u0001","context_window":8},{"id":"é","context_window":9}]}"#
                .into(),
        ),
    };
    project_bound_provider_catalog(&mut env, &p);
    assert_eq!(
        env.get(CONTEXT_WINDOWS_KEY).map(|s| s.as_str()),
        Some(r#"{"\u0001":8,"a\"q":6,"t\tx":7,"zeta":5,"é":9}"#)
    );
}
