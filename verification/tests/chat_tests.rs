use pocketdevos::chat::{
    api_error_message, build_messages, chat_reply, config_catalog, delta_text, on_item,
    on_open_failed, reply_parse_error, reply_text, request_failed_message, sse_frame,
    stream_error_message, AiConfig, ChatEvent, ChatMessage,
};

fn msg(role: &str, content: &str) -> ChatMessage {
    ChatMessage { role: role.to_string(), content: content.to_string() }
}

#[test]
fn configuration_defaults() {
    let c = AiConfig::from_env(None, None, None);
    assert_eq!(c.base_url, "http://localhost:11434/v1");
    assert_eq!(c.api_key, "ollama");
    assert_eq!(c.model, "qwen2.5-coder:7b");
    assert_eq!(c.completions_url(), "http://localhost:11434/v1/chat/completions");
    assert_eq!(c.authorization(), "Bearer ollama");
    assert_eq!(c.provider, "ollama");
    assert!(!c.has_key);
    let c = AiConfig::from_env(
        Some("https://x/v1".to_string()),
        Some("k".to_string()),
        Some("m".to_string()),
    );
    assert_eq!(c.completions_url(), "https://x/v1/chat/completions");
    assert_eq!(c.authorization(), "Bearer k");
    assert_eq!(c.model, "m");
    assert_eq!(c.provider, "custom");
    assert!(c.has_key);
    let n = AiConfig::from_env(Some("https://integrate.api.nvidia.com/v1".to_string()), None, None);
    assert_eq!(n.provider, "nvidia");
}

#[test]
fn settings_replace_what_they_give() {
    let c = AiConfig::from_env(None, None, None);
    let d = c.updated(None, Some("gemma4:12b".to_string()), None, None);
    assert_eq!(d.model, "gemma4:12b");
    assert_eq!(d.base_url, "http://localhost:11434/v1");
    assert_eq!(d.provider, "ollama");
    assert!(!d.has_key);
    let e = d.updated(
        None,
        Some("meta/llama-3.1-70b-instruct".to_string()),
        Some("https://integrate.api.nvidia.com/v1".to_string()),
        Some("nv-key".to_string()),
    );
    assert_eq!(e.provider, "nvidia");
    assert_eq!(e.authorization(), "Bearer nv-key");
    assert!(e.has_key);
    let f = e.updated(Some("custom".to_string()), None, None, None);
    assert_eq!(f.provider, "custom");
    assert_eq!(f.model, "meta/llama-3.1-70b-instruct");
    assert!(f.has_key);
    let g = f.duplicate();
    assert_eq!((g.model, g.base_url, g.has_key), (f.model, f.base_url, f.has_key));
}

#[test]
fn catalog_reports_the_config_in_effect() {
    let c = AiConfig::from_env(Some("http://box:8000/v1".to_string()), Some("k".to_string()), Some("mine".to_string()));
    let cat = config_catalog(&c);
    assert_eq!(cat.current.model, "mine");
    assert_eq!(cat.current.base_url, "http://box:8000/v1");
    assert_eq!(cat.current.provider, "custom");
    assert!(cat.current.has_key);
}

#[test]
fn non_streamed_replies() {
    let body = r#"{"choices":[{"message":{"role":"assistant","content":"Hi there"}}]}"#;
    assert_eq!(chat_reply(body), Ok("Hi there".to_string()));
    assert_eq!(chat_reply(r#"{"choices":[]}"#), Ok(String::new()));
    assert_eq!(chat_reply(r#"{"choices":{"0":{"message":{"content":"x"}}}}"#), Ok(String::new()));
    assert_eq!(chat_reply(r#"{"choices":[{"message":{"content":7}}]}"#), Ok(String::new()));
    assert_eq!(
        chat_reply("not json"),
        Err("JSON parse error: error decoding response body".to_string())
    );
    assert_eq!(reply_parse_error("eof"), "JSON parse error: eof");
    assert_eq!(stream_error_message("reset"), "Stream error: reset");
}

#[test]
fn error_messages() {
    assert_eq!(
        api_error_message("401 Unauthorized", Some("bad key".to_string())),
        "API error 401 Unauthorized: bad key"
    );
    assert_eq!(api_error_message("500 Internal Server Error", None), "API error 500 Internal Server Error: Unknown error");
    assert_eq!(request_failed_message("connection refused"), "HTTP request failed: connection refused");
}

#[test]
fn deltas_and_replies() {
    assert_eq!(delta_text(Some("hi".to_string())), Some("hi".to_string()));
    assert_eq!(delta_text(Some(String::new())), None);
    assert_eq!(delta_text(None), None);
    assert_eq!(reply_text(Some("answer".to_string())), "answer");
    assert_eq!(reply_text(None), "");
}

#[test]
fn system_prompt_comes_first() {
    let r = build_messages(vec![msg("user", "hi"), msg("assistant", "hello")]);
    assert_eq!(r.len(), 3);
    assert_eq!(r[0].role, "system");
    assert!(r[0].content.starts_with("You are PocketDevOS, an AI coding assistant"));
    assert!(r[0].content.contains("read \u{2192} understand \u{2192} change \u{2192} verify"));
    assert!(r[0].content.ends_with("the user must approve before execution."));
    assert_eq!((r[1].role.as_str(), r[1].content.as_str()), ("user", "hi"));
    assert_eq!((r[2].role.as_str(), r[2].content.as_str()), ("assistant", "hello"));
    assert_eq!(build_messages(vec![]).len(), 1);
}

#[test]
fn stream_steps() {
    let s = on_open_failed("HTTP request failed: x".to_string());
    assert!(matches!(s.event, ChatEvent::Error(ref m) if m == "HTTP request failed: x"));
    assert!(s.finished && !s.deregister);

    let s = on_item(false, Some(Ok("tok".to_string())));
    assert!(matches!(s.event, ChatEvent::Text(ref t) if t == "tok"));
    assert!(!s.finished && !s.deregister);

    let s = on_item(false, Some(Err("Stream error: eof".to_string())));
    assert!(matches!(s.event, ChatEvent::Error(ref m) if m == "Stream error: eof"));
    assert!(s.finished && !s.deregister);

    let s = on_item(true, Some(Ok("tok".to_string())));
    assert!(matches!(s.event, ChatEvent::Done));
    assert!(s.finished && !s.deregister);

    let s = on_item(false, None);
    assert!(matches!(s.event, ChatEvent::Done));
    assert!(s.finished && s.deregister);
    let s = on_item(true, None);
    assert!(matches!(s.event, ChatEvent::Done) && s.deregister);
}

#[test]
fn frames() {
    assert_eq!(sse_frame(r#"{"type":"done"}"#), "data: {\"type\":\"done\"}\n\n");
}

#[test]
fn catalog() {
    let c = config_catalog(&AiConfig::from_env(None, None, None));
    let ids: Vec<&str> = c.providers.iter().map(|p| p.id.as_str()).collect();
    assert_eq!(ids, vec!["nvidia", "ollama", "custom"]);
    assert!(c.providers[0].requires_key && !c.providers[1].requires_key);
    assert_eq!(c.providers[2].base_url, "");
    let models: Vec<&str> = c.models.iter().map(|m| m.id.as_str()).collect();
    assert_eq!(
        models,
        vec![
            "nvidia/llama-3.3-nemotron-super-49b-v1",
            "google/gemma-3-27b-it",
            "meta/llama-3.1-70b-instruct",
            "gemma4:12b",
            "qwen2.5-coder:7b"
        ]
    );
    assert_eq!(c.current.provider, "ollama");
    assert_eq!(c.current.model, "qwen2.5-coder:7b");
    assert_eq!(c.current.base_url, "http://localhost:11434/v1");
    assert!(!c.current.has_key);
}
