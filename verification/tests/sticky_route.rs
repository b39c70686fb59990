//! The session-remembering filter.

use http::{HeaderMap, HeaderName, HeaderValue};
use serde_json::Value;
use switchyard_route::classifier::Threshold;
use switchyard_route::config::{FailureMode, TargetConfig};
use switchyard_route::sticky::config::{
    parse, JudgeAuthSettings, JudgeSettings, RouteSettings,
};
use switchyard_route::sticky::error::RouteError;
use switchyard_route::sticky::failure::{
    failure_action, log_failure_apply, FailureAction, FailureApply, FailureApplyKind,
};
use switchyard_route::sticky::filter::{
    decode_for_judge, parse_body, record_error_metadata, request_cluster, rewrite_model, Fallback,
    Outcome, SwitchyardRouteFilter,
};
use switchyard_route::sticky::judge::{build_algorithm, classifier_rejected, decide};
use switchyard_route::steps::StepFailure;
use switchyard_route::tier::Tier;

const CHAT: &str = "/v1/chat/completions";
const MINUTE: u64 = 60_000_000_000;

fn target(cluster: &str, model: &str) -> TargetConfig {
    TargetConfig { cluster: cluster.to_owned(), model: model.to_owned() }
}

fn valid() -> RouteSettings {
    RouteSettings {
        judge: JudgeSettings {
            endpoint: "http://localhost:8000/v1/chat/completions".to_owned(),
            model: "judge-model".to_owned(),
            timeout_ms: None,
            verify_tls: None,
            auth: None,
        },
        weak: target("weak-cluster", "weak-model"),
        strong: target("strong-cluster", "strong-model"),
        threshold: None,
        on_failure: None,
    }
}

fn filter(mode: FailureMode) -> SwitchyardRouteFilter {
    let mut settings = valid();
    settings.on_failure = Some(mode);
    SwitchyardRouteFilter::from_config(settings, None).ok().unwrap()
}

fn named(session: &str) -> HeaderMap<HeaderValue> {
    let mut map = HeaderMap::new();
    map.insert(
        HeaderName::from_bytes(b"x-switchyard-session-id").unwrap(),
        HeaderValue::from_str(session).unwrap(),
    );
    map
}

fn body() -> Vec<u8> {
    br#"{"model":"agent","messages":[{"role":"user","content":"hi"}],"n":1}"#.to_vec()
}

fn route(
    filter: &mut SwitchyardRouteFilter,
    headers: &HeaderMap<HeaderValue>,
    tier: Tier,
    now: u64,
) -> String {
    let turn = filter.begin(headers, CHAT, Some(&body())).unwrap();
    let routed = filter.settle(turn, tier, now).unwrap();
    assert_eq!(routed.decision, "routed");
    routed.cluster
}

fn judge_down() -> RouteError {
    RouteError::Judge("down".to_owned())
}

/// What a failed turn comes to: decision, and the cluster and model it is sent
/// to, if any.
fn failed(
    filter: &mut SwitchyardRouteFilter,
    headers: &HeaderMap<HeaderValue>,
    raw: Option<&[u8]>,
    error: &RouteError,
    now: u64,
) -> (String, Option<(String, String)>) {
    match filter.on_route_error(headers, raw, error, now) {
        Fallback::Serve { routed, apply } => {
            assert_eq!(apply.kind.metadata(), routed.decision);
            let value: Value = serde_json::from_slice(&routed.body).unwrap();
            let model = value["model"].as_str().unwrap().to_owned();
            (routed.decision.to_owned(), Some((routed.cluster, model)))
        }
        Fallback::PassThrough { decision } => (decision.to_owned(), None),
        Fallback::Reject { status, decision } => {
            assert_eq!(status, 503);
            (decision.to_owned(), None)
        }
    }
}

fn strong() -> Option<(String, String)> {
    Some(("strong-cluster".to_owned(), "strong-model".to_owned()))
}

fn weak() -> Option<(String, String)> {
    Some(("weak-cluster".to_owned(), "weak-model".to_owned()))
}

#[test]
fn judge_failures_may_apply_a_fallback_tier() {
    assert!(
        RouteError::Judge("down".into()).may_apply_failure_tier(),
        "judge HTTP errors are the mid-session failure path"
    );
    assert!(
        RouteError::NoDecision.may_apply_failure_tier(),
        "a missing verdict is still a judge-path failure"
    );
    assert!(
        RouteError::MissingSubrequestClient.may_apply_failure_tier(),
        "no callout client is treated like an unreachable judge"
    );
    assert!(RouteError::Translation(String::new()).may_apply_failure_tier());
    assert!(RouteError::Run(String::new()).may_apply_failure_tier());
    assert!(RouteError::UnknownTier(String::new()).may_apply_failure_tier());
}

#[test]
fn bad_bodies_and_wrong_paths_stay_unrouted() {
    assert!(
        !RouteError::UnsupportedPath.may_apply_failure_tier(),
        "non-chat paths must not be rewritten to Strong"
    );
    assert!(
        !RouteError::Json("nope".into()).may_apply_failure_tier(),
        "invalid JSON cannot be rewritten"
    );
    assert!(
        !RouteError::Body("empty").may_apply_failure_tier(),
        "missing bodies cannot be rewritten"
    );
    assert!(!RouteError::Serialize(String::new()).may_apply_failure_tier());
}

#[test]
fn parses_minimal_config() {
    let config = parse(valid(), None).ok().unwrap();
    assert_eq!(config.judge.model, "judge-model");
    assert_eq!(config.weak.cluster, "weak-cluster");
    assert!((f64::from_bits(config.threshold.bits) - 0.5).abs() < f64::EPSILON);
    assert_eq!(config.judge.timeout_ms, 5_000);
    assert!(config.judge.verify_tls);
    assert_eq!(config.on_failure, FailureMode::Open);
    assert_eq!(config.target(Tier::Strong).model, "strong-model");
    assert_eq!(config.judge.shown_token(), None);
}

#[test]
fn rejects_invalid_threshold() {
    let mut settings = valid();
    settings.threshold = Some(Threshold { bits: 1.5_f64.to_bits() });
    let error = parse(settings, None).err().unwrap();
    assert_eq!(error.message, "threshold must be between 0.0 and 1.0");
}

#[test]
fn tier_ordering() {
    assert!(Tier::Weak < Tier::Strong);
}

#[test]
fn other_configuration_faults_are_rejected() {
    let mut url = valid();
    url.judge.endpoint = "http://a b".to_owned();
    assert_eq!(parse(url, None).err().unwrap().message, "judge.endpoint is not a valid URL");
    let mut keyed = valid();
    keyed.judge.auth = Some(JudgeAuthSettings { value_env: "KEY".to_owned() });
    assert_eq!(
        parse(keyed.clone(), None).err().unwrap().message,
        "judge.auth.value_env 'KEY' is unset or empty"
    );
    assert_eq!(
        parse(keyed.clone(), Some(String::new())).err().unwrap().message,
        "judge.auth.value_env 'KEY' is unset or empty"
    );
    let config = parse(keyed.clone(), Some("tok".to_owned())).ok().unwrap();
    assert_eq!(config.judge.auth_token.as_deref(), Some("tok"));
    assert_eq!(config.judge.shown_token(), Some("[redacted]"));
    keyed.judge.auth = Some(JudgeAuthSettings { value_env: String::new() });
    assert_eq!(
        parse(keyed, Some("tok".to_owned())).err().unwrap().message,
        "judge.auth.value_env must not be empty"
    );
    let unkeyed = parse(valid(), Some("tok".to_owned())).ok().unwrap();
    assert_eq!(unkeyed.judge.auth_token, None, "a secret nobody asked for is not kept");
}

#[test]
fn every_sticky_failure_has_its_message() {
    let text = "x".to_owned();
    let cases = [
        (RouteError::Body("missing"), "request body missing"),
        (RouteError::Json(text.clone()), "invalid JSON: x"),
        (RouteError::UnsupportedPath, "unsupported path (only /chat/completions)"),
        (RouteError::Translation(text.clone()), "translation failed: x"),
        (RouteError::Serialize(text.clone()), "serialize failed: x"),
        (RouteError::MissingSubrequestClient, "subrequest client unavailable"),
        (RouteError::Judge(text.clone()), "judge callout failed: x"),
        (RouteError::Run(text.clone()), "switchyard run failed: x"),
        (RouteError::NoDecision, "no routing decision"),
        (RouteError::UnknownTier(text), "unknown tier 'x'"),
    ];
    for (error, message) in cases {
        assert_eq!(error.message(), message);
    }
}

#[test]
fn the_failure_table() {
    let reuse = |tier: Tier| {
        FailureAction::Apply(FailureApply { tier, kind: FailureApplyKind::Reuse })
    };
    let default_strong = FailureAction::Apply(FailureApply {
        tier: Tier::Strong,
        kind: FailureApplyKind::DefaultStrong,
    });
    let open = FailureMode::Open;
    assert_eq!(failure_action(open, true, Some(Tier::Weak)), reuse(Tier::Weak));
    assert_eq!(failure_action(open, true, Some(Tier::Strong)), reuse(Tier::Strong));
    assert_eq!(failure_action(open, true, None), default_strong);
    assert_eq!(failure_action(open, false, Some(Tier::Weak)), FailureAction::Unrouted);
    for may_apply in [false, true] {
        for remembered in [None, Some(Tier::Weak), Some(Tier::Strong)] {
            assert_eq!(
                failure_action(FailureMode::Closed, may_apply, remembered),
                FailureAction::Reject
            );
        }
    }
}

#[test]
fn fallbacks_log_their_decision() {
    let reuse = FailureApply { tier: Tier::Weak, kind: FailureApplyKind::Reuse };
    assert_eq!(log_failure_apply(reuse), ("switchyard_route: reuse", "weak"));
    let strong = FailureApply { tier: Tier::Strong, kind: FailureApplyKind::DefaultStrong };
    assert_eq!(log_failure_apply(strong), ("switchyard_route: default_strong", "strong"));
}

#[test]
fn a_routed_turn_rewrites_the_model_alone() {
    let mut filter = filter(FailureMode::Open);
    let turn = filter.begin(&HeaderMap::new(), "/x/chat/completions", Some(&body())).unwrap();
    let routed = filter.settle(turn, Tier::Weak, 0).unwrap();
    let value: Value = serde_json::from_slice(&routed.body).unwrap();
    assert_eq!(value["model"], "weak-model");
    assert_eq!(value["n"], 1);
    assert_eq!(value["messages"][0]["content"], "hi");
    assert_eq!(routed.cluster, "weak-cluster");
    assert_eq!(
        filter.selected_clusters(),
        vec!["weak-cluster".to_owned(), "strong-cluster".to_owned()]
    );
    assert_eq!(filter.settings().judge.model, "judge-model");
}

#[test]
fn a_judge_failure_reuses_the_last_success() {
    let mut filter = filter(FailureMode::Open);
    let session = named("s");
    assert_eq!(route(&mut filter, &session, Tier::Weak, 0), "weak-cluster");
    let raw = body();
    let reused = failed(&mut filter, &session, Some(&raw), &judge_down(), MINUTE);
    assert_eq!(reused, ("reuse".to_owned(), weak()));
    assert_eq!(route(&mut filter, &session, Tier::Strong, 2 * MINUTE), "strong-cluster");
    let reused = failed(&mut filter, &session, Some(&raw), &judge_down(), 3 * MINUTE);
    assert_eq!(reused, ("reuse".to_owned(), strong()));
    let fresh = failed(&mut filter, &named("other"), Some(&raw), &judge_down(), 3 * MINUTE);
    assert_eq!(fresh, ("default_strong".to_owned(), strong()));
    let again = failed(&mut filter, &named("other"), Some(&raw), &judge_down(), 4 * MINUTE);
    assert_eq!(again, ("default_strong".to_owned(), strong()), "default strong is not written");
}

#[test]
fn unused_memory_expires() {
    let mut filter = filter(FailureMode::Open);
    let session = named("s");
    let raw = body();
    route(&mut filter, &session, Tier::Weak, 0);
    let near = failed(&mut filter, &session, Some(&raw), &judge_down(), 30 * MINUTE - 1);
    assert_eq!(near.0, "reuse");
    let used = failed(&mut filter, &session, Some(&raw), &judge_down(), 59 * MINUTE);
    assert_eq!(used.0, "reuse", "a reuse is a use");
    let idle = failed(&mut filter, &session, Some(&raw), &judge_down(), 89 * MINUTE);
    assert_eq!(idle.0, "default_strong", "unused for the whole window");
}

#[test]
fn a_session_is_reused_over_many_turns() {
    let mut filter = filter(FailureMode::Open);
    let session = named("s");
    let raw = body();
    route(&mut filter, &session, Tier::Weak, 0);
    for turn in 1..10_u64 {
        let now = turn * 29 * MINUTE;
        route(&mut filter, &named(&format!("other-{turn}")), Tier::Strong, now);
        failed(&mut filter, &named("unknown"), Some(&raw), &judge_down(), now);
        failed(&mut filter, &session, Some(b"{"), &RouteError::Json(String::new()), now);
        let reused = failed(&mut filter, &session, Some(&raw), &judge_down(), now);
        assert_eq!(reused, ("reuse".to_owned(), weak()), "turn {turn}");
    }
}

#[test]
fn only_a_full_memory_of_later_sessions_pushes_one_out() {
    let mut filter = filter(FailureMode::Open);
    let raw = body();
    route(&mut filter, &named("first"), Tier::Weak, 0);
    for turn in 1..10_000_u64 {
        route(&mut filter, &named(&format!("other-{turn}")), Tier::Strong, turn);
    }
    let kept = failed(&mut filter, &named("first"), Some(&raw), &judge_down(), 10_000);
    assert_eq!(kept, ("reuse".to_owned(), weak()));
    route(&mut filter, &named("one-more"), Tier::Strong, 10_001);
    let dropped = failed(&mut filter, &named("other-1"), Some(&raw), &judge_down(), 10_002);
    assert_eq!(dropped.0, "default_strong", "the least recently used one made room");
}

#[test]
fn closed_filters_reject_whatever_is_remembered() {
    let mut filter = filter(FailureMode::Closed);
    let session = named("s");
    route(&mut filter, &session, Tier::Weak, 0);
    let raw = body();
    assert_eq!(
        failed(&mut filter, &session, Some(&raw), &judge_down(), 1),
        ("rejected".to_owned(), None)
    );
    assert_eq!(
        failed(&mut filter, &session, None, &RouteError::Body("missing"), 1),
        ("rejected".to_owned(), None)
    );
}

#[test]
fn requests_that_cannot_be_rewritten_pass_through() {
    let mut filter = filter(FailureMode::Open);
    let session = named("s");
    let raw = body();
    let path = filter.begin(&session, "/v1/messages", Some(&raw)).unwrap_err();
    assert!(matches!(path, RouteError::UnsupportedPath));
    assert_eq!(
        failed(&mut filter, &session, Some(&raw), &path, 0),
        ("unrouted".to_owned(), None)
    );
    let json = filter.begin(&session, CHAT, Some(b"{")).unwrap_err();
    assert_eq!(
        failed(&mut filter, &session, Some(b"{"), &json, 0),
        ("unrouted".to_owned(), None)
    );
    let list = failed(&mut filter, &session, Some(b"[]"), &judge_down(), 0);
    assert_eq!(list, ("unrouted".to_owned(), None), "a list has no model to rewrite");
    let mut closed = self::filter(FailureMode::Closed);
    assert_eq!(
        failed(&mut closed, &session, Some(b"[]"), &judge_down(), 0).0,
        "rejected"
    );
}

#[test]
fn a_turn_that_cannot_be_rewritten_is_not_remembered() {
    let mut filter = filter(FailureMode::Open);
    let session = named("s");
    let turn = filter.begin(&session, CHAT, Some(b"[]")).unwrap();
    let error = filter.settle(turn, Tier::Weak, 0).unwrap_err();
    assert_eq!(error.message(), "request body not an object");
    let raw = body();
    assert_eq!(
        failed(&mut filter, &session, Some(&raw), &judge_down(), 1).0,
        "default_strong"
    );
}

#[test]
fn sticky_bodies_are_parsed() {
    assert_eq!(parse_body(None).unwrap_err().message(), "request body missing");
    assert_eq!(parse_body(Some(b"")).unwrap_err().message(), "request body empty");
    assert_eq!(
        parse_body(Some(b"x")).unwrap_err().message(),
        "invalid JSON: expected value at line 1 column 1"
    );
    assert!(parse_body(Some(b"[1]")).unwrap().is_array());
    let bytes = rewrite_model(serde_json::from_str("{\"z\":0}").unwrap(), "m").unwrap();
    assert_eq!(bytes, b"{\"model\":\"m\",\"z\":0}".to_vec());
}

#[test]
fn translation_comes_before_the_client() {
    assert_eq!(decode_for_judge::<u8>(Ok(1), true).unwrap(), 1);
    assert!(matches!(
        decode_for_judge::<u8>(Ok(1), false),
        Err(RouteError::MissingSubrequestClient)
    ));
    let error = decode_for_judge::<u8>(Err("odd".to_owned()), false).unwrap_err();
    assert_eq!(error.message(), "translation failed: odd");
}

#[test]
fn errors_are_recorded_by_characters() {
    let error = RouteError::Run("\u{e9}".repeat(400));
    let note = record_error_metadata(&error);
    assert_eq!(note.chars().count(), 250);
    assert!(note.starts_with("switchyard run failed: \u{e9}"));
    assert_eq!(record_error_metadata(&RouteError::NoDecision), "no routing decision");
}

#[test]
fn the_stash_overrides_the_cluster() {
    let some = |name: &str| Some(name.to_owned());
    assert_eq!(request_cluster(&some("preset"), &some("stash")), some("stash"));
    assert_eq!(request_cluster(&some("preset"), &None), some("preset"));
    assert_eq!(request_cluster(&None, &None), None);
}

#[test]
fn decisions_name_a_tier_or_fail() {
    assert_eq!(decide(Ok("strong".to_owned())).unwrap(), Tier::Strong);
    assert_eq!(decide(Ok("weak".to_owned())).unwrap(), Tier::Weak);
    assert_eq!(decide(Ok("judge".to_owned())).unwrap_err().message(), "unknown tier 'judge'");
    let run = decide(Err(StepFailure::Run("boom".to_owned()))).unwrap_err();
    assert_eq!(run.message(), "switchyard run failed: boom");
    assert_eq!(decide(Err(StepFailure::NoDecision)).unwrap_err().message(), "no routing decision");
    let config = parse(valid(), None).ok().unwrap();
    assert_eq!(build_algorithm(&config).capable, "strong");
    assert_eq!(classifier_rejected("no").message, "switchyard config rejected: no");
}

/// What a whole pass with the answer at hand comes to: the decision, and the
/// cluster that the request is sent to, if any.
fn whole(
    filter: &mut SwitchyardRouteFilter,
    path: &str,
    raw: Option<&[u8]>,
    answer: Result<Tier, RouteError>,
    now: u64,
) -> (String, Option<String>) {
    match filter.route(&named("s1"), path, raw, answer, now) {
        Outcome::Routed(routed) => (routed.decision.to_owned(), Some(routed.cluster)),
        Outcome::Failed { fallback: Fallback::Serve { routed, .. }, .. } => {
            (routed.decision.to_owned(), Some(routed.cluster))
        }
        Outcome::Failed { fallback: Fallback::PassThrough { decision }, .. } => {
            (decision.to_owned(), None)
        }
        Outcome::Failed { fallback: Fallback::Reject { status, decision }, .. } => {
            assert_eq!(status, 503);
            (decision.to_owned(), None)
        }
    }
}

#[test]
fn a_whole_pass_remembers_what_the_judge_chose() {
    let mut filter = filter(FailureMode::Open);
    let raw = body();
    let weak = Some("weak-cluster".to_owned());
    let strong = Some("strong-cluster".to_owned());
    let fresh = whole(&mut filter, CHAT, Some(&raw), Err(judge_down()), 0);
    assert_eq!(fresh, ("default_strong".to_owned(), strong));
    let chosen = whole(&mut filter, CHAT, Some(&raw), Ok(Tier::Weak), 1);
    assert_eq!(chosen, ("routed".to_owned(), weak.clone()));
    let reused = whole(&mut filter, CHAT, Some(&raw), Err(judge_down()), 2);
    assert_eq!(reused, ("reuse".to_owned(), weak));
}

#[test]
fn a_whole_pass_reports_why_it_failed() {
    let mut filter = filter(FailureMode::Closed);
    let raw = body();
    match filter.route(&named("s1"), CHAT, Some(&raw), Err(RouteError::NoDecision), 0) {
        Outcome::Failed { error: RouteError::NoDecision, fallback } => {
            assert!(matches!(fallback, Fallback::Reject { status: 503, decision: "rejected" }));
        }
        other => panic!("{other:?}"),
    }
    match filter.route(&named("s1"), CHAT, Some(b"[]"), Ok(Tier::Weak), 0) {
        Outcome::Failed { error: RouteError::Body("not an object"), .. } => {}
        other => panic!("{other:?}"),
    }
    match filter.route(&named("s1"), "/v1/embeddings", Some(&raw), Ok(Tier::Weak), 0) {
        Outcome::Failed { error: RouteError::UnsupportedPath, .. } => {}
        other => panic!("{other:?}"),
    }
}

#[test]
fn a_refused_whole_pass_leaves_the_memory_alone() {
    let mut filter = filter(FailureMode::Open);
    let raw = body();
    whole(&mut filter, CHAT, Some(&raw), Ok(Tier::Weak), 0);
    let refused = whole(&mut filter, "/v1/embeddings", Some(&raw), Ok(Tier::Strong), 1);
    assert_eq!(refused, ("unrouted".to_owned(), None));
    let reused = whole(&mut filter, CHAT, Some(&raw), Err(judge_down()), 2);
    assert_eq!(reused, ("reuse".to_owned(), Some("weak-cluster".to_owned())));
}
