//! Wire-format detection and the model rewrite.

use serde_json::Value;
use switchyard_route::ratchet::error::RouteError;
use switchyard_route::ratchet::translate::{
    decode_for_judge, detect_format, detect_format_from_shape, rewrite_model, WireFormat,
};

fn json(text: &str) -> Value {
    serde_json::from_str(text).unwrap()
}

/// A minimal OpenAI chat-completions body.
fn openai_body() -> Value {
    json(r#"{"model":"agent-default","messages":[{"role":"user","content":"hello"}]}"#)
}

/// A minimal Anthropic messages body.
fn anthropic_body() -> Value {
    json(
        r#"{"model":"agent-default","max_tokens":128,"system":"be terse",
            "messages":[{"role":"user","content":"hello"}]}"#,
    )
}

#[test]
fn path_detection_is_authoritative() {
    let chat_format = detect_format("/v1/chat/completions", &anthropic_body()).unwrap();
    assert_eq!(chat_format, WireFormat::OpenAiChat, "path beats body shape");
    let messages_format = detect_format("/v1/messages", &openai_body()).unwrap();
    assert_eq!(
        messages_format,
        WireFormat::AnthropicMessages,
        "messages path maps to Anthropic"
    );
}

#[test]
fn shape_fallback_detects_both_formats() {
    let openai_format = detect_format("/proxy", &openai_body()).unwrap();
    assert_eq!(openai_format, WireFormat::OpenAiChat, "plain messages body is OpenAI chat");
    let anthropic_format = detect_format("/proxy", &anthropic_body()).unwrap();
    assert_eq!(
        anthropic_format,
        WireFormat::AnthropicMessages,
        "system+max_tokens body is Anthropic"
    );
    let either = json(r#"{"messages":[],"max_tokens":null}"#);
    assert_eq!(detect_format_from_shape(&either).unwrap(), WireFormat::AnthropicMessages);
}

#[test]
fn undetectable_bodies_are_errors() {
    let formatless_error = detect_format("/proxy", &json(r#"{"no":"messages"}"#)).unwrap_err();
    assert!(
        formatless_error.message().contains("unrecognized"),
        "message-less body has no format"
    );
    let shapeless_error = detect_format("/proxy", &json(r#"["not","an","object"]"#)).unwrap_err();
    assert!(shapeless_error.message().contains("object"), "non-object body is an error");
}

#[test]
fn rewrite_replaces_only_the_model() {
    let mut body = anthropic_body();
    let bytes = rewrite_model(&mut body, "frontier-strong").unwrap();
    let round_trip: Value = serde_json::from_slice(&bytes).unwrap();
    assert_eq!(round_trip["model"], "frontier-strong", "model is rewritten");
    assert_eq!(round_trip["max_tokens"], 128, "other fields are preserved");
    assert_eq!(round_trip["system"], "be terse", "provider-specific fields survive");
    assert_eq!(round_trip, body, "what is printed is what the document holds");
}

#[test]
fn rewrite_adds_a_missing_model_and_keeps_numbers() {
    let mut body = json(r#"{"temperature":0.1,"top":1e300,"big":18446744073709551615}"#);
    let bytes = rewrite_model(&mut body, "m").unwrap();
    let round_trip: Value = serde_json::from_slice(&bytes).unwrap();
    assert_eq!(round_trip["model"], "m");
    assert_eq!(round_trip["temperature"], 0.1);
    assert_eq!(round_trip["top"], 1e300);
    assert_eq!(round_trip["big"], u64::MAX);
}

#[test]
fn rewrite_rejects_non_objects() {
    let mut body = json(r#""just a string""#);
    let error = rewrite_model(&mut body, "frontier-strong").unwrap_err();
    assert!(error.message().contains("object"), "non-object rewrite errors");
    assert_eq!(body, json(r#""just a string""#), "the document stays");
}

#[test]
fn a_rewrite_keeps_the_detected_format() {
    for mut body in [openai_body(), anthropic_body()] {
        let before = detect_format_from_shape(&body).unwrap();
        rewrite_model(&mut body, "other").unwrap();
        assert_eq!(detect_format_from_shape(&body).unwrap(), before);
    }
}

#[test]
fn deep_documents_read_back() {
    let nested = |depth: usize| {
        format!("{{\"x\":{}{}}}", "[".repeat(depth - 1), "]".repeat(depth - 1))
    };
    let mut deepest = json(&nested(127));
    let bytes = rewrite_model(&mut deepest, "m").unwrap();
    assert_eq!(serde_json::from_slice::<Value>(&bytes).unwrap(), deepest);
    assert!(serde_json::from_str::<Value>(&nested(128)).is_err(), "deeper ones do not parse");
}

#[test]
fn a_reserved_name_behind_a_lesser_one_reads_back() {
    let mut body = json(r##"{"#":0,"$serde_json::private::RawValue":1,"x":{"!":{},"$serde_json::private::RawValue":"[]"}}"##);
    let bytes = rewrite_model(&mut body, "m").unwrap();
    assert_eq!(serde_json::from_slice::<Value>(&bytes).unwrap(), body);
    assert_eq!(body["$serde_json::private::RawValue"], 1);
}

#[test]
fn translation_failures_are_told() {
    assert_eq!(decode_for_judge::<u8>(Ok(3)).unwrap(), 3);
    let error = decode_for_judge::<u8>(Err("not an object".to_owned())).unwrap_err();
    assert!(matches!(error, RouteError::Translation(_)));
    assert_eq!(error.message(), "request translation failed: not an object");
}

#[test]
fn every_failure_has_its_message() {
    let text = "x".to_owned();
    let cases = [
        (RouteError::Body("is odd"), "request body is odd"),
        (RouteError::Json(text.clone()), "request body is not valid JSON: x"),
        (RouteError::UnknownFormat, "unrecognized wire format"),
        (RouteError::Translation(text.clone()), "request translation failed: x"),
        (RouteError::Serialize(text.clone()), "body re-serialization failed: x"),
        (RouteError::MissingSubrequestClient, "subrequest client unavailable"),
        (RouteError::Judge(text.clone()), "judge callout failed: x"),
        (RouteError::Run(text.clone()), "switchyard run failed: x"),
        (RouteError::NoDecision, "switchyard produced no routing decision"),
        (RouteError::UnknownTier(text), "switchyard selected unknown tier 'x'"),
    ];
    for (error, message) in cases {
        assert_eq!(error.message(), message);
    }
}
