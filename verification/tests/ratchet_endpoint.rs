//! The judge endpoint of the floor-keeping filter.

use switchyard_route::ratchet::config::{JudgeAuthConfig, JudgeConfig};
use switchyard_route::ratchet::endpoint::{
    assemble_auth, check_status, deadline_exceeded, resolve_auth, Attempt, JudgeEndpoint,
    SubRequestJudge,
};
use switchyard_route::ratchet::error::RouteError;
use switchyard_route::wire::{AuthorityParts, UriParts};

/// A credential block with the given header and scheme.
fn auth(header: &str, scheme: &str) -> JudgeAuthConfig {
    JudgeAuthConfig {
        value_env: "UNUSED".to_owned(),
        header: header.to_owned(),
        scheme: scheme.to_owned(),
    }
}

fn judge(endpoint: &str, auth: Option<JudgeAuthConfig>) -> JudgeConfig {
    JudgeConfig {
        endpoint: endpoint.to_owned(),
        model: "judge-model".to_owned(),
        auth,
        timeout_ms: 1_500,
        max_response_bytes: 9_000,
    }
}

fn refusal(endpoint: &str) -> String {
    JudgeEndpoint::parse_url(endpoint).err().unwrap().message
}

#[test]
fn https_endpoints_parse_with_tls_and_default_port() {
    let endpoint = JudgeEndpoint::parse_url("https://judge.internal/v1/chat/completions").unwrap();
    assert!(endpoint.tls, "https enables TLS");
    assert_eq!(endpoint.port, 443, "https defaults to 443");
    assert_eq!(endpoint.sni, "judge.internal", "SNI mirrors the host");
    assert_eq!(endpoint.uri.path, "/v1/chat/completions", "path preserved");
    assert!(endpoint.auth.is_none(), "URL parse leaves auth unresolved");
}

#[test]
fn http_endpoints_parse_with_explicit_port() {
    let endpoint =
        JudgeEndpoint::parse_url("http://127.0.0.1:8000/v1/chat/completions?tag=x").unwrap();
    assert!(!endpoint.tls, "http stays cleartext");
    assert_eq!(endpoint.port, 8_000, "explicit port preserved");
    assert!(endpoint.sni.is_empty(), "no SNI for cleartext");
    assert_eq!(endpoint.authority, "127.0.0.1:8000", "authority kept");
    assert_eq!(endpoint.uri.query.as_deref(), Some("tag=x"), "query preserved");
}

#[test]
fn bad_endpoints_are_rejected() {
    assert!(JudgeEndpoint::parse_url("ftp://judge/v1").is_err(), "non-http scheme rejected");
    assert!(JudgeEndpoint::parse_url("/v1/chat/completions").is_err(), "relative URL rejected");
    assert!(JudgeEndpoint::parse_url("http://").is_err(), "missing host rejected");
    assert_eq!(
        refusal("ftp://judge/v1"),
        "switchyard_route: judge.endpoint unsupported scheme 'ftp'"
    );
    assert_eq!(
        refusal("/v1/chat/completions"),
        "switchyard_route: judge.endpoint must be an absolute http(s) URL"
    );
    assert_eq!(
        refusal("http://a b/"),
        "switchyard_route: judge.endpoint not a valid URL: invalid uri character"
    );
}

#[test]
fn ip_literals_lose_their_brackets_in_the_host_alone() {
    let endpoint = JudgeEndpoint::parse_url("https://[::1]:8443").unwrap();
    assert_eq!(endpoint.host, "::1");
    assert_eq!(endpoint.sni, "::1");
    assert_eq!(endpoint.authority, "[::1]:8443");
    assert_eq!(endpoint.port, 8_443);
    assert_eq!(endpoint.uri.path, "/", "no path means the root");
}

fn parts(authority: Option<AuthorityParts>) -> UriParts {
    UriParts {
        scheme: Some("https".to_owned()),
        authority,
        path_and_query: Some("/v1".to_owned()),
        path: "/v1".to_owned(),
        query: None,
    }
}

#[test]
fn every_part_of_a_parsed_url_is_checked() {
    let host = AuthorityParts { text: "h".to_owned(), host: "h".to_owned(), port: None };
    let bad = AuthorityParts { text: "h\n".to_owned(), host: "h".to_owned(), port: None };
    let missing = JudgeEndpoint::from_parts(parts(None), Ok(parts(None)));
    assert_eq!(missing.err().unwrap().message, "switchyard_route: judge.endpoint missing host");
    let malformed = JudgeEndpoint::from_parts(parts(Some(bad)), Ok(parts(None)));
    assert_eq!(
        malformed.err().unwrap().message,
        "switchyard_route: judge.endpoint invalid authority: failed to parse header value"
    );
    let path = JudgeEndpoint::from_parts(parts(Some(host)), Err("broken".to_owned()));
    assert_eq!(path.err().unwrap().message, "switchyard_route: judge.endpoint bad path: broken");
}

#[test]
fn bearer_credential_prefixes_the_value_and_is_sensitive() {
    let credential = assemble_auth(&auth("authorization", "Bearer"), "sk-secret").ok().unwrap();
    assert_eq!(credential.name, "authorization", "header name honoured");
    assert_eq!(credential.value, "Bearer sk-secret", "scheme prefixes the value");
    assert!(credential.sensitive, "credential is marked sensitive");
}

#[test]
fn an_empty_scheme_sends_the_raw_credential() {
    let credential = assemble_auth(&auth("x-api-key", ""), "raw-token").ok().unwrap();
    assert_eq!(credential.name, "x-api-key", "custom header honoured");
    assert_eq!(credential.value, "raw-token", "no prefix with an empty scheme");
}

#[test]
fn an_unset_credential_is_rejected() {
    let mut missing = auth("authorization", "Bearer");
    missing.value_env = "SWITCHYARD_TEST_JUDGE_KEY_DEFINITELY_ABSENT_9f3c".to_owned();
    let message = resolve_auth(&missing, None).err().unwrap().message;
    assert!(message.contains("unset or empty"), "a missing secret must fail fast: {message}");
    assert!(
        message.contains("judge.auth"),
        "auth failures name the judge.auth key, not judge.endpoint: {message}"
    );
    let empty = resolve_auth(&missing, Some(String::new())).err().unwrap().message;
    assert_eq!(empty, message, "an empty variable is as good as none");
}

#[test]
fn unusable_credentials_are_rejected_without_echo() {
    let name = assemble_auth(&auth("bad header", "Bearer"), "sk-secret").err().unwrap().message;
    assert_eq!(
        name,
        "switchyard_route: judge.auth invalid header name: invalid HTTP header name"
    );
    let value = assemble_auth(&auth("x-api-key", ""), "sk-\nsecret").err().unwrap().message;
    assert_eq!(
        value,
        "switchyard_route: judge.auth resolved credential is not a valid header value"
    );
}

#[test]
fn header_names_are_lower_cased() {
    let credential = assemble_auth(&auth("X-Api-KEY", "Token"), "t").ok().unwrap();
    assert_eq!(credential.name, "x-api-key");
    assert_eq!(credential.value, "Token t");
}

#[test]
fn the_callout_carries_host_type_and_credential() {
    let config = judge("https://judge.internal:8443/v1?x=1", Some(auth("X-Key", "")));
    let endpoint = JudgeEndpoint::from_config(&config, Some("s3".to_owned())).ok().unwrap();
    let callout = SubRequestJudge::new(&endpoint, &config);
    assert_eq!(callout.timeout_ms(), 1_500);
    assert_eq!(callout.max_response_bytes(), 9_000);
    let request = callout.build_request(b"{}".to_vec());
    assert_eq!(request.method, "POST");
    assert_eq!(request.uri.path_and_query.as_deref(), Some("/v1?x=1"));
    assert_eq!(request.body, b"{}".to_vec());
    assert_eq!(request.headers.len(), 3);
    assert_eq!(request.headers.get("host").unwrap(), "judge.internal:8443");
    assert_eq!(request.headers.get("content-type").unwrap(), "application/json");
    assert_eq!(request.headers.get("x-key").unwrap(), "s3");
    assert!(request.headers.get("x-key").unwrap().is_sensitive());
    assert!(!request.headers.get("host").unwrap().is_sensitive());
}

#[test]
fn a_credential_may_replace_a_standard_header() {
    let config = judge("http://judge/v1", Some(auth("Host", "")));
    let endpoint = JudgeEndpoint::from_config(&config, Some("other".to_owned())).ok().unwrap();
    let request = SubRequestJudge::new(&endpoint, &config).build_request(Vec::new());
    assert_eq!(request.headers.len(), 2);
    assert_eq!(request.headers.get("host").unwrap(), "other");
}

#[test]
fn a_keyless_judge_needs_no_secret() {
    let config = judge("http://judge/v1", None);
    let endpoint = JudgeEndpoint::from_config(&config, None).ok().unwrap();
    assert!(endpoint.auth.is_none());
    let request = SubRequestJudge::new(&endpoint, &config).build_request(Vec::new());
    assert_eq!(request.headers.len(), 2);
}

fn told(error: RouteError) -> String {
    error.message()
}

#[test]
fn addresses_fall_back_on_connect_failures_only() {
    let config = judge("http://judge.internal/v1", None);
    let endpoint = JudgeEndpoint::from_config(&config, None).ok().unwrap();
    let mut callout = SubRequestJudge::new(&endpoint, &config);
    assert_eq!(
        told(callout.exhausted()),
        "judge callout failed: no addresses resolved for judge.internal"
    );
    assert!(callout.record(Attempt::ConnectFailed("refused".to_owned())).is_none());
    assert!(callout.record(Attempt::ConnectFailed("timed out".to_owned())).is_none());
    assert_eq!(
        told(callout.exhausted()),
        "judge callout failed: all resolved addresses for judge.internal failed: timed out"
    );
    let reply = callout.record(Attempt::Replied { status: 204, body: vec![7] });
    assert_eq!(reply.unwrap().unwrap(), vec![7]);
    let failed = callout.record(Attempt::Failed("reset".to_owned()));
    assert_eq!(told(failed.unwrap().unwrap_err()), "judge callout failed: reset");
}

#[test]
fn only_success_statuses_are_accepted() {
    assert_eq!(check_status(200, vec![1]).unwrap(), vec![1]);
    assert_eq!(check_status(299, vec![2]).unwrap(), vec![2]);
    for status in [100_u16, 199, 300, 404, 500, u16::MAX] {
        let error = check_status(status, vec![3]).unwrap_err();
        assert_eq!(told(error), format!("judge callout failed: judge returned HTTP {status}"));
    }
}

#[test]
fn resolution_and_deadline_failures_are_told() {
    let config = judge("http://judge.internal/v1", None);
    let endpoint = JudgeEndpoint::from_config(&config, None).ok().unwrap();
    let callout = SubRequestJudge::new(&endpoint, &config);
    assert!(callout.check_resolution(Ok(2)).is_ok());
    assert_eq!(
        told(callout.check_resolution(Ok(0)).unwrap_err()),
        "judge callout failed: no addresses resolved for judge.internal"
    );
    assert_eq!(
        told(callout.check_resolution(Err("nxdomain".to_owned())).unwrap_err()),
        "judge callout failed: DNS resolution failed for judge.internal: nxdomain"
    );
    assert_eq!(told(deadline_exceeded()), "judge callout failed: deadline exceeded");
}
