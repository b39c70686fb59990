//! Routing passes of the floor-keeping filter.

use http::{HeaderMap, HeaderName, HeaderValue};
use serde_json::Value;
use switchyard_route::config::{FailureMode, TargetConfig};
use switchyard_route::ratchet::config::{
    parse_config, JudgeAuthSettings, JudgeSettings, RouteSettings, SessionFloorSettings,
    TargetsConfig,
};
use switchyard_route::ratchet::error::RouteError;
use switchyard_route::ratchet::filter::{
    accept_object, parse_body, request_cluster, session_final, Routed, SwitchyardRouteFilter,
    Unrouted, METADATA_CLUSTER, METADATA_ERROR, METADATA_MODEL, METADATA_TIER,
};
use switchyard_route::ratchet::translate::WireFormat;
use switchyard_route::tier::Tier;

const CHAT: &str = "/v1/chat/completions";
const SESSION: &str = "x-switchyard-session-id";
const HOUR: u64 = 3_600_000_000_000;

fn settings(endpoint: &str, on_failure: FailureMode) -> RouteSettings {
    RouteSettings {
        judge: JudgeSettings {
            endpoint: endpoint.to_owned(),
            model: "judge-model".to_owned(),
            auth: None,
            timeout_ms: Some(5_000),
            max_response_bytes: None,
        },
        threshold: None,
        targets: TargetsConfig {
            weak: TargetConfig {
                cluster: "cluster-weak".to_owned(),
                model: "model-weak".to_owned(),
            },
            strong: TargetConfig {
                cluster: "cluster-strong".to_owned(),
                model: "model-strong".to_owned(),
            },
        },
        session_floor: None,
        on_failure: Some(on_failure),
        max_body_bytes: None,
        session_header: None,
    }
}

fn local() -> RouteSettings {
    settings("http://127.0.0.1:1/v1/chat/completions", FailureMode::Open)
}

fn build_filter(settings: RouteSettings) -> SwitchyardRouteFilter {
    SwitchyardRouteFilter::from_settings(settings, None).ok().unwrap()
}

fn ratchet() -> RouteSettings {
    let mut settings = local();
    settings.session_floor = Some(SessionFloorSettings {
        enabled: None,
        ttl_secs: None,
        exclude_below: None,
        escalation_ratchet: Some(true),
    });
    settings
}

fn headers(fields: &[(&str, &str)]) -> HeaderMap<HeaderValue> {
    let mut map = HeaderMap::new();
    for (name, value) in fields {
        map.insert(
            HeaderName::from_bytes(name.as_bytes()).unwrap(),
            HeaderValue::from_str(value).unwrap(),
        );
    }
    map
}

fn openai_body() -> Vec<u8> {
    br#"{"model":"agent-default","messages":[{"role":"user","content":"hello"}]}"#.to_vec()
}

/// Runs one pass whose judge answers `tag`.
fn pass(
    filter: &mut SwitchyardRouteFilter,
    path: &str,
    map: &HeaderMap<HeaderValue>,
    body: &[u8],
    tag: &str,
    now: u64,
) -> Result<Routed, RouteError> {
    let turn = filter.begin(map, path, Some(body), now, true)?;
    if turn.judged {
        filter.settle(map, turn, tag.to_owned())
    } else {
        filter.hold(map, turn)
    }
}

fn body_model(body: &[u8]) -> String {
    let value: Value = serde_json::from_slice(body).unwrap();
    value["model"].as_str().unwrap().to_owned()
}

#[test]
fn shared_cluster_is_declared_once() {
    let mut shared = local();
    shared.targets.strong.cluster = "cluster-weak".to_owned();
    assert_eq!(
        build_filter(shared).selected_clusters(),
        vec!["cluster-weak".to_owned()],
        "deduplicated"
    );
}

#[test]
fn trait_surface_matches_the_pipeline_contract() {
    let filter = build_filter(local());
    let clusters = filter.selected_clusters();
    assert!(
        clusters.contains(&"cluster-weak".to_owned())
            && clusters.contains(&"cluster-strong".to_owned()),
        "both candidate clusters must be declared, got: {clusters:?}"
    );
    assert_eq!(filter.max_body_bytes(), 1_048_576, "default 1 MiB buffer");
}

#[test]
fn on_request_applies_the_stashed_cluster() {
    let stashed = Some("cluster-strong".to_owned());
    assert_eq!(request_cluster(&None, &stashed).as_deref(), Some("cluster-strong"));
}

#[test]
fn on_request_preserves_an_earlier_cluster_choice() {
    let preset = Some("preset-cluster".to_owned());
    let stashed = Some("cluster-strong".to_owned());
    assert_eq!(request_cluster(&preset, &stashed).as_deref(), Some("preset-cluster"));
}

#[test]
fn on_request_without_a_stash_sets_nothing() {
    assert_eq!(request_cluster(&None, &None), None, "no decision, no cluster");
}

fn note(outcome: Unrouted) -> String {
    match outcome {
        Unrouted::PassThrough { error } => error,
        Unrouted::Reject { .. } => panic!("expected the request to pass through"),
    }
}

#[test]
fn fail_open_passes_through_unmodified_without_a_client() {
    let mut filter = build_filter(local());
    let error =
        filter.begin(&headers(&[]), CHAT, Some(&openai_body()), 0, false).unwrap_err();
    assert!(
        note(filter.fail(&error)).contains("subrequest client"),
        "the reason is recorded"
    );
}

#[test]
fn fail_closed_rejects_with_503() {
    let mut filter = build_filter(settings(
        "http://127.0.0.1:1/v1/chat/completions",
        FailureMode::Closed,
    ));
    let error =
        filter.begin(&headers(&[]), CHAT, Some(&openai_body()), 0, false).unwrap_err();
    match filter.fail(&error) {
        Unrouted::Reject { status, body } => {
            assert_eq!(status, 503, "closed mode rejects with 503");
            assert_eq!(body, "switchyard_route: routing unavailable");
        }
        Unrouted::PassThrough { .. } => panic!("expected Reject"),
    }
}

#[test]
fn fail_open_passes_through_non_json_bodies() {
    let mut filter = build_filter(local());
    let error =
        filter.begin(&headers(&[]), CHAT, Some(b"not json at all"), 0, true).unwrap_err();
    assert_eq!(
        note(filter.fail(&error)),
        "request body is not valid JSON: expected ident at line 1 column 2"
    );
}

#[test]
fn fail_open_passes_through_unknown_formats() {
    let mut filter = build_filter(local());
    let body = br#"{"model":"agent-default","input":"hi"}"#;
    let error = filter.begin(&headers(&[]), "/unknown/endpoint", Some(body), 0, true).unwrap_err();
    assert!(note(filter.fail(&error)).contains("wire format"), "the reason is recorded");
}

#[test]
fn bodies_that_are_no_objects_are_refused() {
    let refused = |body: Option<&[u8]>| parse_body(body).unwrap_err().message();
    assert_eq!(refused(None), "request body is missing or empty");
    assert_eq!(refused(Some(b"")), "request body is missing or empty");
    assert_eq!(refused(Some(b"[1]")), "request body is not a JSON object");
    assert_eq!(parse_body(Some(b"{}")).unwrap(), serde_json::from_str::<Value>("{}").unwrap());
    let text: Value = serde_json::from_str("\"x\"").unwrap();
    assert_eq!(accept_object(Ok(text)).unwrap_err().message(), "request body is not a JSON object");
    assert_eq!(
        accept_object(Err("bad".to_owned())).unwrap_err().message(),
        "request body is not valid JSON: bad"
    );
}

#[test]
fn long_failures_are_cut_at_a_character() {
    let filter = build_filter(local());
    let error = RouteError::Run("\u{e9}".repeat(400));
    let text = note(filter.fail(&error));
    assert_eq!(text.len(), 255, "the next character would take the text past the limit");
    assert!(text.starts_with("switchyard run failed: \u{e9}"));
}

#[test]
fn easy_requests_route_to_the_weak_tier() {
    let mut filter = build_filter(local());
    let routed =
        pass(&mut filter, CHAT, &headers(&[]), &openai_body(), "weak", 0).unwrap();
    assert_eq!(body_model(&routed.body), "model-weak", "body model rewritten to the weak tier");
    let metadata = routed.metadata();
    assert_eq!(metadata[0], (METADATA_CLUSTER, "cluster-weak".to_owned()));
    assert_eq!(metadata[1], (METADATA_TIER, "weak".to_owned()));
    assert_eq!(metadata[2], (METADATA_MODEL, "model-weak".to_owned()));
    assert_eq!(METADATA_ERROR, "switchyard_route.error");
    assert_eq!(filter.settings().judge.model, "judge-model");
    assert_eq!(filter.judge_endpoint().port, 1);
}

#[test]
fn hard_requests_route_to_the_strong_tier() {
    let mut filter = build_filter(local());
    let routed =
        pass(&mut filter, CHAT, &headers(&[]), &openai_body(), "strong", 0).unwrap();
    assert_eq!(body_model(&routed.body), "model-strong");
    assert_eq!(routed.cluster, "cluster-strong");
    assert_eq!(routed.tier, Tier::Strong);
}

#[test]
fn anthropic_requests_route_and_preserve_provider_fields() {
    let mut filter = build_filter(local());
    let body = br#"{"model":"agent-default","max_tokens":256,"system":"be terse",
        "messages":[{"role":"user","content":"hello"}]}"#;
    let turn = filter.begin(&headers(&[]), "/v1/messages", Some(body), 0, true).unwrap();
    assert_eq!(turn.format, WireFormat::AnthropicMessages);
    let routed = filter.settle(&headers(&[]), turn, "weak".to_owned()).unwrap();
    assert_eq!(body_model(&routed.body), "model-weak", "Anthropic body model rewritten");
    let value: Value = serde_json::from_slice(&routed.body).unwrap();
    assert_eq!(value["max_tokens"], 256, "provider-specific fields preserved");
    assert_eq!(value["system"], "be terse", "provider-specific fields preserved");
    assert_eq!(routed.cluster, "cluster-weak");
}

#[test]
fn a_strong_session_never_downgrades() {
    let mut filter = build_filter(local());
    let session = headers(&[(SESSION, "session-ratchet")]);
    let first = pass(&mut filter, CHAT, &session, &openai_body(), "strong", 0).unwrap();
    assert_eq!(body_model(&first.body), "model-strong", "turn 1 reaches strong");
    let second = pass(&mut filter, CHAT, &session, &openai_body(), "weak", HOUR - 1).unwrap();
    assert_eq!(
        body_model(&second.body),
        "model-strong",
        "turn 2 must hold strong even when the judge says weak"
    );
    assert_eq!(second.tier, Tier::Strong);
    let third = pass(&mut filter, CHAT, &session, &openai_body(), "weak", HOUR + 5).unwrap();
    assert_eq!(third.tier, Tier::Strong, "turn 2 restarted the window");
    let late = pass(&mut filter, CHAT, &session, &openai_body(), "weak", 2 * HOUR + 5).unwrap();
    assert_eq!(late.tier, Tier::Weak, "the window has passed");
}

#[test]
fn the_escalation_ratchet_skips_the_judge_once_strong() {
    let mut filter = build_filter(ratchet());
    let session = headers(&[(SESSION, "session-ratchet-skip")]);
    let first = filter.begin(&session, CHAT, Some(&openai_body()), 0, true).unwrap();
    assert!(first.judged, "turn 1 is judged");
    filter.settle(&session, first, "strong".to_owned()).unwrap();
    let second = filter.begin(&session, CHAT, Some(&openai_body()), 1, false).unwrap();
    assert!(!second.judged, "turn 2 skips the judge, so it needs no client");
    assert!(!second.excludes_weak);
    let routed = filter.hold(&session, second).unwrap();
    assert_eq!(body_model(&routed.body), "model-strong", "turn 2 stays strong with no judge call");
    assert_eq!(routed.tier, Tier::Strong);
    let third = filter.begin(&session, CHAT, Some(&openai_body()), HOUR, true).unwrap();
    assert!(!third.judged, "turn 2 restarted the window");
}

#[test]
fn without_the_ratchet_a_strong_session_still_judges_every_turn() {
    let mut filter = build_filter(local());
    let session = headers(&[(SESSION, "session-no-ratchet")]);
    for tag in ["strong", "weak"] {
        let turn = filter.begin(&session, CHAT, Some(&openai_body()), 0, true).unwrap();
        assert!(turn.judged, "vanilla behaviour judges both turns");
        let routed = filter.settle(&session, turn, tag.to_owned()).unwrap();
        assert_eq!(routed.tier, Tier::Strong);
    }
}

#[test]
fn a_judge_failure_never_forces_a_tier() {
    let mut filter = build_filter(local());
    let session = headers(&[(SESSION, "session-failure")]);
    pass(&mut filter, CHAT, &session, &openai_body(), "strong", 0).unwrap();
    let turn = filter.begin(&session, CHAT, Some(&openai_body()), 1, true).unwrap();
    assert_eq!(turn.floor, Some(Tier::Strong));
    let error = RouteError::Judge("judge returned HTTP 500".to_owned());
    assert!(note(filter.fail(&error)).contains("judge"), "the judge failure is recorded");
    let next = pass(&mut filter, CHAT, &session, &openai_body(), "weak", HOUR - 1).unwrap();
    assert_eq!(next.tier, Tier::Strong, "the failed turn moved no floor");
    let other = headers(&[(SESSION, "fresh")]);
    let failed = filter.begin(&other, CHAT, Some(&openai_body()), 2, true).unwrap();
    assert_eq!(failed.floor, None);
    let fresh = filter.begin(&other, CHAT, Some(&openai_body()), 3, true).unwrap();
    assert_eq!(fresh.floor, None, "a pass without a decision commits nothing");
}

#[test]
fn the_final_turn_evicts_the_floor() {
    let mut filter = build_filter(local());
    let session = headers(&[(SESSION, "session-final")]);
    let last = headers(&[(SESSION, "session-final"), ("x-switchyard-session-final", "true")]);
    let first = pass(&mut filter, CHAT, &session, &openai_body(), "strong", 0).unwrap();
    assert_eq!(body_model(&first.body), "model-strong", "turn 1 reaches strong");
    let held = pass(&mut filter, CHAT, &last, &openai_body(), "weak", 1).unwrap();
    assert_eq!(body_model(&held.body), "model-strong", "the floor still holds on the final turn");
    let next = pass(&mut filter, CHAT, &session, &openai_body(), "weak", 2).unwrap();
    assert_eq!(
        body_model(&next.body),
        "model-weak",
        "a fresh session after eviction follows the judge again"
    );
}

#[test]
fn overlapping_turns_never_lower_the_floor() {
    let mut filter = build_filter(local());
    let session = headers(&[(SESSION, "s")]);
    let slow = filter.begin(&session, CHAT, Some(&openai_body()), 0, true).unwrap();
    pass(&mut filter, CHAT, &session, &openai_body(), "strong", 1).unwrap();
    let routed = filter.settle(&session, slow, "weak".to_owned()).unwrap();
    assert_eq!(routed.tier, Tier::Weak, "it began before the floor was raised");
    let next = pass(&mut filter, CHAT, &session, &openai_body(), "weak", 2).unwrap();
    assert_eq!(next.tier, Tier::Strong, "the raised floor stands");
}

#[test]
fn unknown_tags_are_failures() {
    let mut filter = build_filter(local());
    let error =
        pass(&mut filter, CHAT, &headers(&[]), &openai_body(), "judge", 0).unwrap_err();
    assert_eq!(error.message(), "switchyard selected unknown tier 'judge'");
}

#[test]
fn sessions_do_not_share_a_floor() {
    let mut filter = build_filter(local());
    let one = headers(&[(SESSION, "one")]);
    let two = headers(&[(SESSION, "two")]);
    pass(&mut filter, CHAT, &one, &openai_body(), "strong", 0).unwrap();
    let other = pass(&mut filter, CHAT, &two, &openai_body(), "weak", 1).unwrap();
    assert_eq!(other.tier, Tier::Weak);
    let sessionless = pass(&mut filter, CHAT, &headers(&[]), &openai_body(), "weak", 2).unwrap();
    assert_eq!(sessionless.tier, Tier::Weak);
    let same = pass(&mut filter, CHAT, &headers(&[(SESSION, "  one ")]), &openai_body(), "weak", 3);
    assert_eq!(same.unwrap().tier, Tier::Strong, "the id is trimmed");
}

#[test]
fn the_weak_tier_is_barred_for_a_strong_session() {
    let session = headers(&[(SESSION, "s")]);
    let mut filter = build_filter(local());
    let first = filter.begin(&session, CHAT, Some(&openai_body()), 0, true).unwrap();
    assert!(!first.excludes_weak, "nothing is barred yet");
    filter.settle(&session, first, "strong".to_owned()).unwrap();
    let second = filter.begin(&session, CHAT, Some(&openai_body()), 1, true).unwrap();
    assert!(second.excludes_weak);
    let mut lenient = local();
    lenient.session_floor = Some(SessionFloorSettings {
        enabled: None,
        ttl_secs: None,
        exclude_below: Some(false),
        escalation_ratchet: None,
    });
    let mut filter = build_filter(lenient);
    pass(&mut filter, CHAT, &session, &openai_body(), "strong", 0).unwrap();
    let turn = filter.begin(&session, CHAT, Some(&openai_body()), 1, true).unwrap();
    assert!(!turn.excludes_weak);
    assert_eq!(turn.floor, Some(Tier::Strong));
}

#[test]
fn a_disabled_floor_follows_the_judge() {
    let mut settings = ratchet();
    settings.session_floor = Some(SessionFloorSettings {
        enabled: Some(false),
        ttl_secs: None,
        exclude_below: None,
        escalation_ratchet: Some(true),
    });
    let mut filter = build_filter(settings);
    let session = headers(&[(SESSION, "s")]);
    pass(&mut filter, CHAT, &session, &openai_body(), "strong", 0).unwrap();
    let second = pass(&mut filter, CHAT, &session, &openai_body(), "weak", 1).unwrap();
    assert_eq!(second.tier, Tier::Weak);
}

#[test]
fn final_turns_are_marked_in_several_ways() {
    for yes in ["1", "true", "YES", " On "] {
        assert!(session_final(&headers(&[("x-switchyard-session-final", yes)])), "{yes}");
    }
    for no in ["0", "", "false", "truee", "2"] {
        assert!(!session_final(&headers(&[("x-switchyard-session-final", no)])), "{no}");
    }
    assert!(!session_final(&headers(&[])));
}

#[test]
fn unreadable_and_blank_session_headers_are_ignored() {
    let filter = build_filter(local());
    assert_eq!(filter.session_id(&headers(&[(SESSION, "  ")])), None);
    assert_eq!(filter.session_id(&headers(&[])), None);
    let mut odd = HeaderMap::new();
    odd.insert(SESSION, HeaderValue::from_bytes(&[0xff, 0x41]).unwrap());
    assert_eq!(filter.session_id(&odd), None, "not visible ASCII");
    let mut twice = headers(&[(SESSION, " first ")]);
    twice.append(SESSION, HeaderValue::from_static("second"));
    assert_eq!(filter.session_id(&twice).as_deref(), Some("first"));
}

#[test]
fn refused_settings_build_no_filter() {
    let mut bad = local();
    bad.max_body_bytes = Some(0);
    let error = SwitchyardRouteFilter::from_settings(bad, None).err().unwrap();
    assert_eq!(error.message, "switchyard_route: max_body_bytes must be at least 1");
    let mut keyed = local();
    keyed.judge.auth = Some(JudgeAuthSettings {
        value_env: "KEY".to_owned(),
        header: None,
        scheme: None,
    });
    let config = parse_config(keyed.clone()).unwrap();
    let error = SwitchyardRouteFilter::from_config(config, None).err().unwrap();
    assert_eq!(
        error.message,
        "switchyard_route: judge.auth credential env var 'KEY' is unset or empty"
    );
    let filter = SwitchyardRouteFilter::from_settings(keyed, Some("v".to_owned())).ok().unwrap();
    assert_eq!(filter.judge_endpoint().auth.as_ref().unwrap().value, "Bearer v");
}

/// A whole pass at `now`, with the answer at hand: the tier that it is routed to.
fn whole(
    filter: &mut SwitchyardRouteFilter,
    map: &HeaderMap<HeaderValue>,
    now: u64,
    answer: Result<String, RouteError>,
) -> Result<Tier, RouteError> {
    let routed = filter.route(map, CHAT, Some(&openai_body()), now, true, answer)?;
    let name = if routed.tier == Tier::Strong { "strong" } else { "weak" };
    assert_eq!(body_model(&routed.body), format!("model-{name}"));
    assert_eq!(routed.model, format!("model-{name}"));
    assert_eq!(routed.cluster, format!("cluster-{name}"));
    Ok(routed.tier)
}

#[test]
fn a_whole_pass_raises_and_keeps_the_floor() {
    let mut filter = build_filter(local());
    let one = headers(&[(SESSION, "s1")]);
    assert_eq!(whole(&mut filter, &one, 0, Ok("weak".to_owned())).ok(), Some(Tier::Weak));
    assert_eq!(whole(&mut filter, &one, 1, Ok("strong".to_owned())).ok(), Some(Tier::Strong));
    assert_eq!(whole(&mut filter, &one, 2, Ok("weak".to_owned())).ok(), Some(Tier::Strong));
    let other = headers(&[(SESSION, "s2")]);
    assert_eq!(whole(&mut filter, &other, 3, Ok("weak".to_owned())).ok(), Some(Tier::Weak));
}

#[test]
fn a_strong_session_holds_while_each_turn_is_within_the_window() {
    let mut filter = build_filter(local());
    let map = headers(&[(SESSION, "s1")]);
    assert_eq!(whole(&mut filter, &map, 0, Ok("strong".to_owned())).ok(), Some(Tier::Strong));
    for turn in 1..=6 {
        let now = turn * (HOUR - 1);
        assert_eq!(
            whole(&mut filter, &map, now, Ok("weak".to_owned())).ok(),
            Some(Tier::Strong),
            "turn {turn} comes just within the window of the one before"
        );
    }
    let lapsed = 6 * (HOUR - 1) + HOUR;
    assert!(whole(&mut filter, &map, lapsed - 1, Err(RouteError::NoDecision)).is_err());
    assert_eq!(
        whole(&mut filter, &map, lapsed, Ok("weak".to_owned())).ok(),
        Some(Tier::Weak),
        "a failed turn does not restart the window"
    );
}

#[test]
fn a_whole_pass_without_the_judge_ignores_its_answer() {
    let mut filter = build_filter(ratchet());
    let map = headers(&[(SESSION, "s1")]);
    assert_eq!(whole(&mut filter, &map, 0, Ok("strong".to_owned())).ok(), Some(Tier::Strong));
    let body = openai_body();
    let held = filter.route(&map, CHAT, Some(&body), 1, false, Err(RouteError::NoDecision));
    assert_eq!(held.unwrap().tier, Tier::Strong);
}

#[test]
fn a_whole_pass_fails_as_its_halves_do() {
    let mut filter = build_filter(local());
    let map = headers(&[(SESSION, "s1")]);
    let body = openai_body();
    let weak = || Ok("weak".to_owned());
    let missing = filter.route(&map, CHAT, None, 0, true, weak()).unwrap_err();
    assert!(matches!(missing, RouteError::Body("is missing or empty")));
    let unreachable = filter.route(&map, CHAT, Some(&body), 0, false, weak()).unwrap_err();
    assert!(matches!(unreachable, RouteError::MissingSubrequestClient));
    let unknown = filter.route(&map, CHAT, Some(&body), 0, true, Ok("huge".to_owned()));
    assert!(matches!(unknown.unwrap_err(), RouteError::UnknownTier(tag) if tag == "huge"));
    let failed = filter.route(&map, CHAT, Some(&body), 0, true, Err(RouteError::NoDecision));
    assert!(matches!(failed.unwrap_err(), RouteError::NoDecision));
    assert_eq!(whole(&mut filter, &map, 1, weak()).ok(), Some(Tier::Weak), "no floor was set");
}

#[test]
fn a_whole_final_pass_drops_the_floor() {
    let mut filter = build_filter(local());
    let map = headers(&[(SESSION, "s1")]);
    let last = headers(&[(SESSION, "s1"), ("x-switchyard-session-final", "true")]);
    assert_eq!(whole(&mut filter, &map, 0, Ok("strong".to_owned())).ok(), Some(Tier::Strong));
    assert_eq!(whole(&mut filter, &last, 1, Ok("weak".to_owned())).ok(), Some(Tier::Strong));
    assert_eq!(whole(&mut filter, &map, 2, Ok("weak".to_owned())).ok(), Some(Tier::Weak));
}
