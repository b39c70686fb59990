//! The judge exchange of the session-remembering filter.

use switchyard_route::sticky::endpoint::JudgeEndpoint;
use switchyard_route::sticky::judge::{
    accept_document, body_preview, decode_judge_aggregated, encode_judge_request,
    fetch_judge_body, log_judge_verdict, parse_judge_body, read_verdict, reply_content,
    resolve_judge_addrs, respond_judge, Attempt, JudgeAttemptError, JudgeCallout,
};
use switchyard_route::wire::{AuthorityParts, UriParts};

fn refusal(endpoint: &str) -> String {
    JudgeEndpoint::parse(endpoint).unwrap_err().message()
}

#[test]
fn judge_urls_are_taken_apart() {
    let https = JudgeEndpoint::parse("https://judge.internal/v1/chat/completions?x=1").unwrap();
    assert!(https.tls);
    assert_eq!((https.host.as_str(), https.port), ("judge.internal", 443));
    assert_eq!(https.sni, "judge.internal");
    assert_eq!(https.uri.path_and_query.as_deref(), Some("/v1/chat/completions?x=1"));
    let http = JudgeEndpoint::parse("http://[::1]:8000").unwrap();
    assert!(!http.tls);
    assert_eq!((http.host.as_str(), http.port), ("::1", 8_000));
    assert_eq!(http.sni, "");
    assert_eq!(http.authority, "[::1]:8000");
    assert_eq!(http.uri.path, "/");
    assert_eq!(JudgeEndpoint::parse("http://h").unwrap().port, 80);
}

#[test]
fn bad_judge_urls_are_judge_failures() {
    assert_eq!(refusal("ftp://judge"), "judge callout failed: unsupported scheme 'ftp'");
    assert_eq!(
        refusal("/v1"),
        "judge callout failed: endpoint must be an absolute http(s) URL"
    );
    assert_eq!(refusal("http://a b"), "judge callout failed: bad endpoint: invalid uri character");
    let parts = |authority: Option<AuthorityParts>| UriParts {
        scheme: Some("http".to_owned()),
        authority,
        path_and_query: None,
        path: "/".to_owned(),
        query: None,
    };
    let host = |text: &str| AuthorityParts {
        text: text.to_owned(),
        host: "h".to_owned(),
        port: None,
    };
    let missing = JudgeEndpoint::from_parts(parts(None), Ok(parts(None))).unwrap_err();
    assert_eq!(missing.message(), "judge callout failed: endpoint missing host");
    let malformed =
        JudgeEndpoint::from_parts(parts(Some(host("h\u{7f}"))), Ok(parts(None))).unwrap_err();
    assert_eq!(
        malformed.message(),
        "judge callout failed: invalid authority: failed to parse header value"
    );
    let path =
        JudgeEndpoint::from_parts(parts(Some(host("h"))), Err("broken".to_owned())).unwrap_err();
    assert_eq!(path.message(), "judge callout failed: bad path: broken");
}

#[test]
fn judge_requests_carry_a_bearer_token() {
    let endpoint = JudgeEndpoint::parse("http://judge:9/v1").unwrap();
    let plain = endpoint.build_request(b"x".to_vec(), None).unwrap();
    assert_eq!(plain.headers.len(), 2);
    assert_eq!(plain.headers.get("host").unwrap(), "judge:9");
    assert_eq!(plain.headers.get("content-type").unwrap(), "application/json");
    assert_eq!((plain.method, plain.body), ("POST", b"x".to_vec()));
    let keyed = endpoint.build_request(Vec::new(), Some("tok")).unwrap();
    assert_eq!(keyed.headers.get("authorization").unwrap(), "Bearer tok");
    let error = endpoint.build_request(Vec::new(), Some("a\nb")).unwrap_err();
    assert_eq!(
        error.message(),
        "judge callout failed: invalid auth header: failed to parse header value"
    );
}

#[test]
fn peers_are_verified_unless_switched_off_under_tls() {
    let https = JudgeEndpoint::parse("https://judge").unwrap();
    let http = JudgeEndpoint::parse("http://judge").unwrap();
    assert!(https.verifies_peer(true));
    assert!(!https.verifies_peer(false));
    assert!(http.verifies_peer(true));
    assert!(http.verifies_peer(false));
}

fn retry<T>(outcome: Result<T, JudgeAttemptError>) -> String {
    match outcome {
        Err(JudgeAttemptError::Retryable(message)) => message,
        Err(JudgeAttemptError::Fatal(_)) => panic!("the callout should go on"),
        Ok(_) => panic!("the attempt should fail"),
    }
}

#[test]
fn failed_attempts_lead_on_to_the_next_address() {
    let down = fetch_judge_body("10.0.0.1:80", Attempt::Failed("refused".to_owned()));
    assert_eq!(retry(down), "10.0.0.1:80: refused");
    let body = b"say \"no\"\n\xff".to_vec();
    let status = fetch_judge_body("a:1", Attempt::Replied { status: 503, body });
    assert_eq!(
        retry(status),
        "HTTP 503 from a:1 body_len=10 preview=\"say \\\"no\\\"\\n\u{fffd}\""
    );
    let fine = fetch_judge_body("a:1", Attempt::Replied { status: 299, body: vec![1] });
    assert!(matches!(fine, Ok(bytes) if bytes == vec![1]));
    let odd = fetch_judge_body("a:1", Attempt::Replied { status: 300, body: Vec::new() });
    assert_eq!(retry(odd), "HTTP 300 from a:1 body_len=0 preview=\"\"");
}

#[test]
fn replies_that_are_no_json_lead_on_too() {
    assert_eq!(
        retry(parse_judge_body("a:1", b"oops")),
        "judge_non_json from a:1: expected value at line 1 column 1; body_len=4 preview=\"oops\""
    );
    assert_eq!(
        retry(accept_document("a:1", b"", Err("why".to_owned()))),
        "judge_non_json from a:1: why; body_len=0 preview=\"\""
    );
    assert!(parse_judge_body("a:1", b"{}").is_ok());
}

#[test]
fn previews_are_cut_by_characters() {
    let long = "\u{e9}".repeat(250);
    assert_eq!(body_preview(long.as_bytes()), "\u{e9}".repeat(200));
    assert_eq!(body_preview(b"short"), "short");
}

#[test]
fn translation_failures_end_the_callout() {
    let fatal = decode_judge_aggregated::<u8>(Err("odd".to_owned()));
    match fatal {
        Err(JudgeAttemptError::Fatal(error)) => assert_eq!(
            error.message(),
            "judge callout failed: response translation failed: odd"
        ),
        _ => panic!("expected the callout to end"),
    }
    assert!(matches!(decode_judge_aggregated::<u8>(Ok(5)), Ok(5)));
    assert!(respond_judge(Ok(())).is_ok());
    assert_eq!(
        respond_judge(Err("gone".to_owned())).unwrap_err().message(),
        "judge callout failed: failed to deliver judge response: gone"
    );
    assert_eq!(
        encode_judge_request(Err("odd".to_owned())).unwrap_err().message(),
        "judge callout failed: request encoding failed: odd"
    );
    let value = serde_json::from_str("{\"b\":1,\"a\":2}").unwrap();
    assert_eq!(encode_judge_request(Ok(value)).unwrap(), b"{\"a\":2,\"b\":1}".to_vec());
    assert_eq!(
        resolve_judge_addrs("h", Err("nxdomain".to_owned())).unwrap_err().message(),
        "judge callout failed: DNS resolution failed for h: nxdomain"
    );
    assert!(resolve_judge_addrs("h", Ok(0)).is_err());
    assert!(resolve_judge_addrs("h", Ok(1)).is_ok());
}

#[test]
fn the_callout_uses_the_first_document() {
    let untried = JudgeCallout::new();
    assert_eq!(untried.exhausted().message(), "judge callout failed: no address attempted");
    let mut callout = JudgeCallout::new();
    assert!(callout.record("a:1", Attempt::Failed("refused".to_owned())).is_none());
    let bad = Attempt::Replied { status: 200, body: b"oops".to_vec() };
    assert!(callout.record("b:1", bad).is_none());
    let good = Attempt::Replied { status: 200, body: b"{\"ok\":true}".to_vec() };
    let value = callout.record("c:1", good).unwrap();
    assert_eq!(value["ok"], true);
    assert_eq!(
        callout.exhausted().message(),
        "judge callout failed: judge_non_json from b:1: expected value at line 1 column 1; body_len=4 preview=\"oops\""
    );
}

fn reply(content: &str) -> Vec<u8> {
    let text = serde_json::to_string(content).unwrap();
    format!("{{\"choices\":[{{\"message\":{{\"content\":{text}}}}}]}}").into_bytes()
}

#[test]
fn verdicts_are_read_for_the_log() {
    let verdict = log_judge_verdict(&reply(
        r#"{"p_solve":0.05,"primary_rule":"LIM-1","capability_boundary":"unsupported"}"#,
    ))
    .unwrap();
    assert_eq!(verdict.rule, "LIM-1");
    assert_eq!(verdict.boundary, "unsupported");
    assert_eq!(verdict.p_solve.unwrap().as_f64(), Some(0.05));
    let bare = log_judge_verdict(&reply(r#"{"primary_rule":7}"#)).unwrap();
    assert_eq!((bare.rule.as_str(), bare.boundary.as_str()), ("?", "?"));
    assert!(bare.p_solve.is_none());
    let scalar = read_verdict(&serde_json::from_str("3").unwrap());
    assert_eq!(scalar.rule, "?");
}

#[test]
fn replies_without_a_verdict_log_nothing() {
    assert!(log_judge_verdict(b"oops").is_none());
    assert!(log_judge_verdict(b"{\"choices\":[]}").is_none());
    assert!(log_judge_verdict(b"{\"choices\":[{\"message\":{\"content\":1}}]}").is_none());
    assert!(log_judge_verdict(&reply("not a verdict")).is_none());
    let keyed = b"{\"choices\":{\"0\":{\"message\":{\"content\":\"{}\"}}}}";
    assert!(log_judge_verdict(keyed).is_some(), "an object may be indexed by its member");
    let value = serde_json::from_slice(keyed).unwrap();
    assert_eq!(reply_content(&value).as_deref(), Some("{}"));
}
