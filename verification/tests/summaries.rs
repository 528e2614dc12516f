use ai_news_aggregator::settings::{
    batch_config_error_text, choose_proxy, config_error_text, config_from_environment, resolve_config, settings_get,
    settings_update, AiEnvironment, ConfigError, ProxyChoice, Settings, StoredSettings,
};
use ai_news_aggregator::summary::{
    chat_endpoint, chat_request, make_zh_brief, needs_regeneration, read_reply, single_attempt,
    summary_or_fallback, summary_prompt, summary_request, NextStep, Reply, SendOutcome,
    SummaryCall, SummaryError,
};
use ai_news_aggregator::text::{
    concat2, join_texts, same_text, strip_trailing, take_chars, text_contains, text_starts_with,
    trim_text,
};

fn transport() -> SendOutcome {
    SendOutcome::Transport("timed out".to_string())
}

fn rejected() -> SendOutcome {
    SendOutcome::Rejected { status: "500 Internal Server Error".to_string(), body: "oops".to_string() }
}

fn answered(text: &str) -> SendOutcome {
    SendOutcome::Answered(format!(
        "{{\"choices\":[{{\"message\":{{\"role\":\"assistant\",\"content\":\"{}\"}}}}]}}",
        text
    ))
}

#[test]
fn template_summary_has_the_fixed_wording() {
    assert_eq!(
        make_zh_brief("Title", "short", "any source"),
        "This English-language piece centers on 'Title', covering short among other key points. \
         Click through for the full article."
    );
}

#[test]
fn template_summary_keeps_twenty_characters() {
    assert_eq!(
        make_zh_brief("T", "0123456789012345678901234", "s"),
        "This English-language piece centers on 'T', covering 01234567890123456789 among other key \
         points. Click through for the full article."
    );
    assert_eq!(
        make_zh_brief("T", "01234567890123456789", "s"),
        "This English-language piece centers on 'T', covering 01234567890123456789 among other key \
         points. Click through for the full article."
    );
    let wide = "一二三四五六七八九十一二三四五六七八九十一二三四五";
    let brief = make_zh_brief("T", wide, "s");
    assert!(brief.contains("covering 一二三四五六七八九十一二三四五六七八九十 among"));
}

#[test]
fn template_summary_is_deterministic_and_ignores_the_source() {
    let a = make_zh_brief("Title", "Some content here", "first");
    let b = make_zh_brief("Title", "Some content here", "second");
    let c = make_zh_brief("Title", "Some content here", "first");
    assert_eq!(a, b);
    assert_eq!(a, c);
}

#[test]
fn stale_summaries_are_recognised() {
    assert!(needs_regeneration(""));
    assert!(needs_regeneration(&make_zh_brief("t", "c", "s")));
    assert!(needs_regeneration("x This English-language piece centers on y"));
    assert!(!needs_regeneration("A real summary."));
    assert!(!needs_regeneration("this english-language piece centers on"));
}

#[test]
fn chat_endpoint_ignores_trailing_slashes() {
    assert_eq!(chat_endpoint("https://api.example.com/v1"), "https://api.example.com/v1/chat/completions");
    assert_eq!(chat_endpoint("https://api.example.com/v1///"), "https://api.example.com/v1/chat/completions");
    assert_eq!(chat_endpoint(""), "/chat/completions");
    assert_eq!(chat_endpoint("///"), "/chat/completions");
}

#[test]
fn summary_prompt_truncates_by_characters() {
    assert_eq!(summary_prompt("T", "body"), "标题：T\n\n内容：body");
    let long: String = "é".repeat(3500);
    let prompt = summary_prompt("T", &long);
    assert_eq!(prompt.chars().count(), "标题：T\n\n内容：".chars().count() + 3000);
    let exact: String = "a".repeat(3000);
    assert_eq!(summary_prompt("T", &exact), format!("标题：T\n\n内容：{}", exact));
}

#[test]
fn chat_request_is_complete() {
    let r = summary_request("https://api.example.com/", "SECRET-REDACTED", "m1", "Title", "Body");
    assert_eq!(r.endpoint, "https://api.example.com/chat/completions");
    assert_eq!(r.authorization, "Bearer SECRET-REDACTED");
    assert_eq!(r.model, "m1");
    assert_eq!(r.user, "标题：Title\n\n内容：Body");
    assert!(r.system.contains("100 characters"));
    assert_eq!(r.max_tokens, 200);
    assert_eq!(r.timeout_secs, 30);
    let plain = chat_request("https://api.example.com", "k", "m2", "just this");
    assert_eq!(plain.user, "just this");
    assert_eq!(plain.system, r.system);
}

#[test]
fn reply_is_read_from_the_first_choice() {
    match read_reply("{\"choices\":[{\"message\":{\"content\":\"hello\"}},{\"message\":{\"content\":\"other\"}}]}") {
        Reply::Content(s) => assert_eq!(s, "hello"),
        other => panic!("unexpected reply: {:?}", other),
    }
    assert!(matches!(read_reply("{}"), Reply::Empty));
    assert!(matches!(read_reply("{\"choices\":[]}"), Reply::Empty));
    assert!(matches!(read_reply("{\"choices\":[{\"message\":{\"content\":7}}]}"), Reply::Empty));
    assert!(matches!(read_reply("{\"choices\":{\"0\":{\"message\":{\"content\":\"x\"}}}}"), Reply::Empty));
    assert!(matches!(read_reply("not json"), Reply::Malformed(_)));
    assert!(matches!(read_reply(""), Reply::Malformed(_)));
}

#[test]
fn retry_budget_three_attempts_two_waits() {
    let mut call = SummaryCall::new();
    assert_eq!(call.attempts(), 0);
    assert!(matches!(call.record(transport()), NextStep::Wait(2)));
    assert_eq!(call.attempts(), 1);
    assert!(matches!(call.record(rejected()), NextStep::Wait(4)));
    assert_eq!(call.attempts(), 2);
    match call.record(transport()) {
        NextStep::Failed(SummaryError::Transport(why)) => assert_eq!(why, "timed out"),
        other => panic!("unexpected step: {:?}", other),
    }
    assert_eq!(call.attempts(), 3);
}

#[test]
fn retry_surfaces_the_last_error() {
    let mut call = SummaryCall::new();
    call.record(transport());
    call.record(transport());
    match call.record(rejected()) {
        NextStep::Failed(e) => {
            assert_eq!(e.message(), "API 返回错误 (500 Internal Server Error): oops")
        },
        other => panic!("unexpected step: {:?}", other),
    }
}

#[test]
fn an_answer_ends_the_call_at_once() {
    let mut call = SummaryCall::new();
    match call.record(answered("A summary")) {
        NextStep::Done(s) => assert_eq!(s, "A summary"),
        other => panic!("unexpected step: {:?}", other),
    }
    let mut call = SummaryCall::new();
    call.record(transport());
    match call.record(answered("Second try")) {
        NextStep::Done(s) => assert_eq!(s, "Second try"),
        other => panic!("unexpected step: {:?}", other),
    }
}

#[test]
fn an_unreadable_answer_is_not_asked_for_again() {
    let mut call = SummaryCall::new();
    assert!(matches!(
        call.record(SendOutcome::Answered("<html>".to_string())),
        NextStep::Failed(SummaryError::Malformed(_))
    ));
    let mut call = SummaryCall::new();
    assert!(matches!(
        call.record(SendOutcome::Answered("{}".to_string())),
        NextStep::Failed(SummaryError::NoContent)
    ));
}

#[test]
fn an_answer_whose_body_cannot_be_read_ends_the_call() {
    let mut call = SummaryCall::new();
    match call.record(SendOutcome::Unreadable("connection reset".to_string())) {
        NextStep::Failed(e) => assert_eq!(e.message(), "解析响应失败：connection reset"),
        other => panic!("unexpected step: {:?}", other),
    }
    assert!(matches!(
        single_attempt(SendOutcome::Unreadable("x".to_string())),
        Err(SummaryError::Malformed(_))
    ));
}

#[test]
fn single_attempt_never_waits() {
    assert!(matches!(single_attempt(transport()), Err(SummaryError::Transport(_))));
    assert!(matches!(single_attempt(rejected()), Err(SummaryError::Rejected { .. })));
    assert_eq!(single_attempt(answered("ok")).unwrap(), "ok");
    assert!(matches!(
        single_attempt(SendOutcome::Answered("{}".to_string())),
        Err(SummaryError::NoContent)
    ));
}

#[test]
fn error_messages() {
    assert_eq!(SummaryError::Transport("x".to_string()).message(), "API 请求失败：x");
    assert_eq!(
        SummaryError::Rejected { status: "404".to_string(), body: "b".to_string() }.message(),
        "API 返回错误 (404): b"
    );
    assert_eq!(SummaryError::Malformed("y".to_string()).message(), "解析响应失败：y");
    assert_eq!(SummaryError::NoContent.message(), "API 响应格式错误");
}

#[test]
fn fallback_is_used_when_the_remote_fails() {
    assert_eq!(summary_or_fallback(Ok("remote".to_string()), "T", "C", "s"), "remote");
    assert_eq!(
        summary_or_fallback(Err(SummaryError::NoContent), "T", "C", "s"),
        make_zh_brief("T", "C", "s")
    );
}

fn stored(
    theme: Option<&str>,
    model: Option<&str>,
    base: Option<&str>,
    key: Option<&str>,
    enabled: Option<&str>,
) -> StoredSettings {
    StoredSettings {
        theme: theme.map(String::from),
        ai_model: model.map(String::from),
        ai_base_url: base.map(String::from),
        ai_api_key: key.map(String::from),
        ai_summary_enabled: enabled.map(String::from),
    }
}

fn env(base: Option<&str>, key: Option<&str>, model: Option<&str>) -> AiEnvironment {
    AiEnvironment {
        base_url: base.map(String::from),
        api_key: key.map(String::from),
        model: model.map(String::from),
    }
}

#[test]
fn settings_fall_back_to_environment_then_defaults() {
    let s = settings_get(&stored(None, None, None, None, None), &env(None, None, None));
    assert_eq!(s.theme, "auto");
    assert_eq!(s.ai_model, "qwen3-max");
    assert_eq!(s.ai_base_url, "");
    assert_eq!(s.ai_api_key, "");
    assert!(s.ai_summary_enabled);
    let s = settings_get(
        &stored(Some("dark"), Some(""), Some(""), Some("stored-key"), Some("false")),
        &env(Some("https://env"), Some("env-key"), Some("env-model")),
    );
    assert_eq!(s.theme, "dark");
    assert_eq!(s.ai_model, "env-model");
    assert_eq!(s.ai_base_url, "https://env");
    assert_eq!(s.ai_api_key, "stored-key");
    assert!(!s.ai_summary_enabled);
    let s = settings_get(&stored(None, None, None, None, Some("TRUE")), &env(None, None, None));
    assert!(!s.ai_summary_enabled);
}

#[test]
fn settings_are_stored_value_by_value() {
    let s = Settings {
        theme: "dark".to_string(),
        ai_model: "m".to_string(),
        ai_base_url: "u".to_string(),
        ai_api_key: "k".to_string(),
        ai_summary_enabled: false,
    };
    let st = settings_update(&s);
    assert_eq!(st.theme.as_deref(), Some("dark"));
    assert_eq!(st.ai_model.as_deref(), Some("m"));
    assert_eq!(st.ai_base_url.as_deref(), Some("u"));
    assert_eq!(st.ai_api_key.as_deref(), Some("k"));
    assert_eq!(st.ai_summary_enabled.as_deref(), Some("false"));
    let back = settings_get(&st, &env(None, None, None));
    assert_eq!(back.theme, "dark");
    assert!(!back.ai_summary_enabled);
}

#[test]
fn config_for_a_request_of_the_user() {
    let none = stored(None, None, None, None, None);
    assert_eq!(resolve_config(&none, &env(None, None, None)).unwrap_err(), ConfigError::MissingBaseUrl);
    assert_eq!(
        resolve_config(&none, &env(Some("https://b"), None, None)).unwrap_err(),
        ConfigError::MissingApiKey
    );
    let c = resolve_config(&none, &env(Some("https://b"), Some("k"), None)).unwrap();
    assert_eq!((c.base_url.as_str(), c.api_key.as_str(), c.model.as_str()), ("https://b", "k", "qwen3-max"));
    let c = resolve_config(
        &stored(None, Some("sm"), Some("https://s"), Some("sk"), None),
        &env(Some("https://b"), Some("k"), Some("em")),
    )
    .unwrap();
    assert_eq!((c.base_url.as_str(), c.api_key.as_str(), c.model.as_str()), ("https://s", "sk", "sm"));
    assert_eq!(
        resolve_config(&none, &env(Some(""), Some("k"), None)).unwrap_err(),
        ConfigError::MissingBaseUrl
    );
    assert_eq!(
        resolve_config(&none, &env(Some("https://b"), Some(""), None)).unwrap_err(),
        ConfigError::MissingApiKey
    );
    let c = resolve_config(&none, &env(Some("https://b"), Some("k"), Some(""))).unwrap();
    assert_eq!(c.model, "qwen3-max");
}

#[test]
fn config_for_an_ingestion_run_reads_the_environment_alone() {
    assert!(config_from_environment(&env(None, None, None)).is_none());
    assert!(config_from_environment(&env(Some("https://b"), None, Some("m"))).is_none());
    assert!(config_from_environment(&env(Some(""), Some("k"), None)).is_none());
    assert!(config_from_environment(&env(Some("https://b"), Some(""), None)).is_none());
    let c = config_from_environment(&env(Some("https://b"), Some("k"), None)).unwrap();
    assert_eq!((c.base_url.as_str(), c.api_key.as_str(), c.model.as_str()), ("https://b", "k", "qwen3-max"));
    let c = config_from_environment(&env(Some("https://b"), Some("k"), Some("m"))).unwrap();
    assert_eq!(c.model, "m");
    let c = config_from_environment(&env(Some("https://b"), Some("k"), Some(""))).unwrap();
    assert_eq!(c.model, "qwen3-max");
}

#[test]
fn config_error_messages() {
    assert_eq!(
        config_error_text(ConfigError::MissingBaseUrl),
        "请先在设置中配置 AI API Base URL"
    );
    assert_eq!(
        config_error_text(ConfigError::MissingApiKey),
        "请先在设置中配置 AI API Key"
    );
}

#[test]
fn batch_config_error_message() {
    assert_eq!(
        batch_config_error_text(),
        "请先在设置中配置 AI API (Base URL 和 API Key)，或确保 .env 文件中有正确的配置"
    );
}

#[test]
fn proxy_choice_follows_the_order_of_precedence() {
    assert!(matches!(choose_proxy(false, &vec![Some("http://p".to_string())]), ProxyChoice::Direct));
    match choose_proxy(true, &vec![None, Some("http://second".to_string()), Some("http://third".to_string())]) {
        ProxyChoice::Configured(u) => assert_eq!(u, "http://second"),
        other => panic!("unexpected choice: {:?}", other),
    }
    match choose_proxy(true, &vec![Some(String::new()), Some("http://second".to_string())]) {
        ProxyChoice::Configured(u) => assert_eq!(u, ""),
        other => panic!("unexpected choice: {:?}", other),
    }
    match choose_proxy(true, &vec![None, None, None, None]) {
        ProxyChoice::LocalDefault(u) => assert_eq!(u, "http://127.0.0.1:7897"),
        other => panic!("unexpected choice: {:?}", other),
    }
    assert!(matches!(choose_proxy(true, &Vec::new()), ProxyChoice::LocalDefault(_)));
}

#[test]
fn text_helpers() {
    assert!(text_contains("hello world", "o w"));
    assert!(text_contains("hello", ""));
    assert!(text_contains("", ""));
    assert!(!text_contains("", "a"));
    assert!(!text_contains("hello", "hellos"));
    assert!(text_contains("héllo wörld", "wör"));
    assert!(text_starts_with("http://x", "http"));
    assert!(!text_starts_with("htt", "http"));
    assert!(text_starts_with("anything", ""));
    assert_eq!(trim_text("  \t a b \n"), "a b");
    assert_eq!(trim_text("\u{3000}x\u{00a0}"), "x");
    assert_eq!(trim_text("   "), "");
    assert_eq!(trim_text(""), "");
    assert_eq!(take_chars("héllo", 2), "hé");
    assert_eq!(take_chars("hi", 5), "hi");
    assert_eq!(take_chars("hi", 0), "");
    assert_eq!(strip_trailing("a//", '/'), "a");
    assert_eq!(strip_trailing("/a/b", '/'), "/a/b");
    assert_eq!(concat2("ab", "cd"), "abcd");
    assert!(same_text("a", "a"));
    assert!(!same_text("a", "A"));
    assert_eq!(join_texts(&vec!["a".to_string(), "b".to_string(), "c".to_string()], ", "), "a, b, c");
    assert_eq!(join_texts(&vec!["a".to_string()], ", "), "a");
    assert_eq!(join_texts(&Vec::new(), ", "), "");
}
