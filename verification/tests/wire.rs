use biscuits::json::Json;
use biscuits::llm::{Config, Msg, Provider};
use biscuits::wire::{first_model_id, request_body, request_url, stream_line};
use serde_json::Value;

fn to_value(j: &Json) -> Value {
    match j {
        Json::Null => Value::Null,
        Json::Bool(b) => Value::Bool(*b),
        Json::Number(_, t) => serde_json::from_str(t).unwrap(),
        Json::Str(s) => Value::String(s.clone()),
        Json::Array(a) => Value::Array(a.iter().map(to_value).collect()),
        Json::Object(m) => Value::Object(m.iter().map(|(k, v)| (k.clone(), to_value(v))).collect()),
    }
}

fn config(provider: Provider, base: &str, model: &str) -> Config {
    Config {
        provider,
        api_key: String::new(),
        base_url: base.to_string(),
        model: model.to_string(),
        base_system: String::new(),
    }
}

fn history() -> Vec<Msg> {
    vec![Msg::new("user", "a"), Msg::new("user", "b"), Msg::new("assistant", "c")]
}

fn json(text: &str) -> Value {
    serde_json::from_str(text).unwrap()
}

#[test]
fn openai_body_puts_system_first_and_merges_history() {
    let c = config(Provider::OpenAI, "https://api.openai.com/v1/", "gpt");
    let body = to_value(&request_body(&c, &history(), "sys", true));
    assert_eq!(
        body,
        json(r#"{"model":"gpt","stream":true,"stream_options":{"include_usage":true},"messages":[{"role":"system","content":"sys"},{"role":"user","content":"a\n\nb"},{"role":"assistant","content":"c"}]}"#)
    );
    assert_eq!(request_url(&c, true), "https://api.openai.com/v1/chat/completions");
}

#[test]
fn compatible_servers_are_not_asked_for_usage() {
    let c = config(Provider::LMStudio, "http://localhost:1234/v1", "local");
    let body = to_value(&request_body(&c, &[], "sys", true));
    assert_eq!(body, json(r#"{"model":"local","stream":true,"messages":[{"role":"system","content":"sys"}]}"#));
}

#[test]
fn anthropic_body_has_system_and_token_limit() {
    let c = config(Provider::Anthropic, "https://api.anthropic.com/v1", "m");
    let body = to_value(&request_body(&c, &history(), "sys", false));
    assert_eq!(
        body,
        json(r#"{"model":"m","system":"sys","max_tokens":4096,"stream":false,"messages":[{"role":"user","content":"a\n\nb"},{"role":"assistant","content":"c"}]}"#)
    );
    assert_eq!(request_url(&c, false), "https://api.anthropic.com/v1/messages");
}

#[test]
fn google_body_and_url() {
    let c = config(Provider::Google, "https://g.example/v1beta//", "models/gemini");
    let body = to_value(&request_body(&c, &history(), "sys", true));
    assert_eq!(
        body,
        json(r#"{"systemInstruction":{"parts":[{"text":"sys"}]},"contents":[{"role":"user","parts":[{"text":"a\n\nb"}]},{"role":"model","parts":[{"text":"c"}]}]}"#)
    );
    assert_eq!(request_url(&c, true), "https://g.example/v1beta/models/gemini:streamGenerateContent?alt=sse");
    assert_eq!(request_url(&c, false), "https://g.example/v1beta/models/gemini:generateContent");
}

fn parts(r: Result<biscuits::wire::StreamEvent, String>) -> (Option<String>, Option<(Option<u64>, Option<u64>, Option<u64>)>, bool) {
    let e = r.unwrap();
    (e.text, e.counts, e.done)
}

#[test]
fn openai_stream_lines() {
    assert_eq!(
        parts(stream_line(Provider::OpenAI, r#"data: {"choices":[{"delta":{"content":"Hi"}}]}"#)),
        (Some("Hi".to_string()), None, false)
    );
    assert_eq!(
        parts(stream_line(Provider::OpenAI, r#"data: {"choices":[],"usage":{"prompt_tokens":3,"completion_tokens":4,"total_tokens":7}}"#)),
        (None, Some((Some(3), Some(4), Some(7))), false)
    );
    assert_eq!(parts(stream_line(Provider::OpenAI, "data: [DONE]")), (None, None, true));
    assert_eq!(parts(stream_line(Provider::OpenAI, ": keep-alive")), (None, None, false));
    assert!(stream_line(Provider::OpenAI, "data: {not json").is_err());
    assert_eq!(
        stream_line(Provider::OpenAI, r#"data: {"error":{"message":"rate limited"}}"#).err(),
        Some("rate limited".to_string())
    );
}

#[test]
fn anthropic_stream_lines() {
    assert_eq!(
        parts(stream_line(Provider::Anthropic, r#"data: {"type":"content_block_delta","delta":{"text":"x"}}"#)),
        (Some("x".to_string()), None, false)
    );
    assert_eq!(
        parts(stream_line(Provider::Anthropic, r#"data: {"type":"message_start","message":{"usage":{"input_tokens":9}}}"#)),
        (None, Some((Some(9), None, None)), false)
    );
    assert_eq!(
        parts(stream_line(Provider::Anthropic, r#"data: {"type":"message_delta","usage":{"output_tokens":2}}"#)),
        (None, Some((None, Some(2), None)), false)
    );
    assert_eq!(parts(stream_line(Provider::Anthropic, r#"data: {"type":"message_stop"}"#)), (None, None, true));
    assert_eq!(parts(stream_line(Provider::Anthropic, r#"data: {"type":"ping"}"#)), (None, None, false));
}

#[test]
fn google_stream_lines() {
    assert_eq!(
        parts(stream_line(
            Provider::Google,
            r#"data: {"candidates":[{"content":{"parts":[{"text":"g"}]}}],"usageMetadata":{"promptTokenCount":1,"candidatesTokenCount":2,"totalTokenCount":3}}"#
        )),
        (Some("g".to_string()), Some((Some(1), Some(2), Some(3))), false)
    );
}

#[test]
fn first_model_id_reads_the_listing() {
    let listing = Json::Object(vec![(
        "data".to_string(),
        Json::Array(vec![Json::Object(vec![("id".to_string(), Json::Str("qwen".to_string()))])]),
    )]);
    assert_eq!(first_model_id(&listing), Ok("qwen".to_string()));
    let empty = Json::Object(vec![("data".to_string(), Json::Array(vec![]))]);
    assert_eq!(
        first_model_id(&empty),
        Err("no loaded models found; load a model in LM Studio first".to_string())
    );
}
