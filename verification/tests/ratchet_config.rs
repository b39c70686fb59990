//! Configuration of the floor-keeping filter.

use switchyard_route::classifier::Threshold;
use switchyard_route::config::{FailureMode, TargetConfig};
use switchyard_route::ratchet::config::{
    parse_config, JudgeAuthSettings, JudgeSettings, RouteConfig, RouteSettings,
    SessionFloorSettings, TargetsConfig,
};
use switchyard_route::ratchet::judge::{build_algorithm, classifier_rejected};
use switchyard_route::tier::Tier;

fn target(cluster: &str, model: &str) -> TargetConfig {
    TargetConfig { cluster: cluster.to_owned(), model: model.to_owned() }
}

fn threshold(number: f64) -> Threshold {
    Threshold { bits: number.to_bits() }
}

fn judge(endpoint: &str, model: &str) -> JudgeSettings {
    JudgeSettings {
        endpoint: endpoint.to_owned(),
        model: model.to_owned(),
        auth: None,
        timeout_ms: None,
        max_response_bytes: None,
    }
}

/// A minimal valid configuration exercising the defaults.
fn minimal() -> RouteSettings {
    RouteSettings {
        judge: judge("http://judge.internal:8000/v1/chat/completions", "qwen3-judge"),
        threshold: None,
        targets: TargetsConfig {
            weak: target("local-vllm", "qwen2.5-7b"),
            strong: target("openai-frontier", "gpt-4o"),
        },
        session_floor: None,
        on_failure: None,
        max_body_bytes: None,
        session_header: None,
    }
}

fn floor_settings() -> SessionFloorSettings {
    SessionFloorSettings {
        enabled: None,
        ttl_secs: None,
        exclude_below: None,
        escalation_ratchet: None,
    }
}

fn parse(settings: RouteSettings) -> RouteConfig {
    parse_config(settings).unwrap()
}

fn parse_err(settings: RouteSettings) -> String {
    parse_config(settings).unwrap_err().message
}

#[test]
fn minimal_config_applies_defaults() {
    let config = parse(minimal());
    assert!(
        (f64::from_bits(config.threshold.bits) - 0.5).abs() < f64::EPSILON,
        "default threshold is 0.5"
    );
    assert_eq!(config.on_failure, FailureMode::Open, "default failure mode is open");
    assert_eq!(config.max_body_bytes, 1_048_576, "default body cap is 1 MiB");
    assert_eq!(config.session_header, "x-switchyard-session-id", "default session header");
    assert!(config.session_floor.enabled, "session floor defaults on");
    assert_eq!(config.session_floor.ttl_secs, 3_600, "default floor TTL is 1h");
    assert!(config.session_floor.exclude_below, "exclude_below defaults on");
    assert!(!config.session_floor.escalation_ratchet, "the judge is asked every turn");
    assert_eq!(config.judge.timeout_ms, 2_000, "default judge timeout");
    assert_eq!(config.judge.timeout(), 2_000);
    assert_eq!(config.judge.max_response_bytes, 65_536, "default judge response cap");
}

#[test]
fn full_config_round_trips() {
    let mut settings = minimal();
    settings.judge = JudgeSettings {
        timeout_ms: Some(500),
        max_response_bytes: Some(1_024),
        ..judge("https://judge.internal/v1/chat/completions", "judge-model")
    };
    settings.threshold = Some(threshold(0.75));
    settings.targets = TargetsConfig {
        weak: target("c-weak", "m-weak"),
        strong: target("c-strong", "m-strong"),
    };
    settings.session_floor = Some(SessionFloorSettings {
        enabled: Some(true),
        ttl_secs: Some(60),
        exclude_below: Some(false),
        escalation_ratchet: None,
    });
    settings.on_failure = Some(FailureMode::Closed);
    settings.max_body_bytes = Some(2_048);
    settings.session_header = Some("x-my-session".to_owned());
    let config = parse(settings);
    assert_eq!(config.on_failure, FailureMode::Closed, "failure mode parsed");
    assert_eq!(config.targets.tier(Tier::Weak).cluster, "c-weak", "weak cluster parsed");
    assert_eq!(config.targets.tier(Tier::Strong).model, "m-strong", "strong model parsed");
    assert!(!config.session_floor.exclude_below, "exclude_below parsed");
    assert_eq!(config.session_header, "x-my-session", "session header parsed");
    assert_eq!(config.threshold, threshold(0.75));
    assert_eq!(config.session_floor.ttl_secs, 60);
    assert_eq!(config.judge.timeout_ms, 500);
    assert_eq!(config.max_body_bytes, 2_048);
}

#[test]
fn out_of_range_threshold_is_rejected() {
    let mut settings = minimal();
    settings.threshold = Some(threshold(1.5));
    let message = parse_err(settings);
    assert!(message.contains("threshold"), "threshold must be validated: {message}");
    assert_eq!(message, "switchyard_route: threshold must be within [0, 1]");
}

#[test]
fn thresholds_are_judged_by_their_value() {
    for accepted in [0.0, -0.0, 1.0, 0.3, f64::MIN_POSITIVE] {
        assert!(threshold(accepted).is_unit(), "{accepted} lies in the range");
    }
    for refused in [-0.1, 1.000_000_000_000_000_2, f64::INFINITY, f64::NAN, -1.0, f64::NEG_INFINITY] {
        assert!(!threshold(refused).is_unit(), "{refused} lies outside");
    }
}

#[test]
fn bad_judge_endpoint_is_rejected() {
    let mut settings = minimal();
    settings.judge.endpoint = "judge.internal".to_owned();
    let message = parse_err(settings);
    assert!(message.contains("endpoint"), "relative endpoint must be rejected: {message}");
    assert_eq!(message, "switchyard_route: judge.endpoint must be an absolute http(s) URL");
}

#[test]
fn each_endpoint_fault_has_its_message() {
    let complaint = |endpoint: &str| {
        let mut settings = minimal();
        settings.judge.endpoint = endpoint.to_owned();
        parse_err(settings)
    };
    assert_eq!(
        complaint("ftp://judge/v1"),
        "switchyard_route: judge.endpoint has unsupported scheme 'ftp'"
    );
    assert_eq!(
        complaint("http://judge .internal/"),
        "switchyard_route: judge.endpoint is not a valid URL: invalid uri character"
    );
}

#[test]
fn empty_target_model_is_rejected() {
    let mut settings = minimal();
    settings.targets.strong.model = String::new();
    let message = parse_err(settings);
    assert!(
        message.contains("targets.strong.model"),
        "empty target model must be rejected: {message}"
    );
}

#[test]
fn blank_fields_are_rejected_by_name() {
    let mut weak_cluster = minimal();
    weak_cluster.targets.weak.cluster = " \t".to_owned();
    assert_eq!(
        parse_err(weak_cluster),
        "switchyard_route: targets.weak.cluster must not be empty"
    );
    let mut model = minimal();
    model.judge.model = "\u{3000}".to_owned();
    assert_eq!(parse_err(model), "switchyard_route: judge.model must not be empty");
}

#[test]
fn zero_floor_ttl_is_rejected() {
    let mut settings = minimal();
    settings.session_floor = Some(SessionFloorSettings { ttl_secs: Some(0), ..floor_settings() });
    let message = parse_err(settings);
    assert!(message.contains("ttl_secs"), "zero TTL must be rejected: {message}");
}

#[test]
fn limits_are_validated() {
    let mut ttl = minimal();
    ttl.session_floor = Some(SessionFloorSettings { ttl_secs: Some(604_801), ..floor_settings() });
    assert_eq!(parse_err(ttl), "switchyard_route: session_floor.ttl_secs must be 1-604800");
    let mut disabled = minimal();
    disabled.session_floor =
        Some(SessionFloorSettings { enabled: Some(false), ttl_secs: Some(0), ..floor_settings() });
    assert!(!parse(disabled).session_floor.enabled, "the window of a disabled floor is not checked");
    let mut timeout = minimal();
    timeout.judge.timeout_ms = Some(600_001);
    assert_eq!(parse_err(timeout), "switchyard_route: judge.timeout_ms must be 1-600000");
    let mut no_timeout = minimal();
    no_timeout.judge.timeout_ms = Some(0);
    assert_eq!(parse_err(no_timeout), "switchyard_route: judge.timeout_ms must be 1-600000");
    let mut reply = minimal();
    reply.judge.max_response_bytes = Some(0);
    assert_eq!(parse_err(reply), "switchyard_route: judge.max_response_bytes must be at least 1");
    let mut body = minimal();
    body.max_body_bytes = Some(0);
    assert_eq!(parse_err(body), "switchyard_route: max_body_bytes must be at least 1");
}

fn with_auth(auth: JudgeAuthSettings) -> RouteSettings {
    let mut settings = minimal();
    settings.judge = JudgeSettings {
        auth: Some(auth),
        ..judge("https://api.openai.com/v1/chat/completions", "gpt-4o-mini")
    };
    settings
}

#[test]
fn judge_auth_round_trips_with_defaults() {
    let config = parse(with_auth(JudgeAuthSettings {
        value_env: "OPENAI_API_KEY".to_owned(),
        header: None,
        scheme: None,
    }));
    let auth = config.judge.auth.expect("auth block parsed");
    assert_eq!(auth.value_env, "OPENAI_API_KEY", "env var name parsed");
    assert_eq!(auth.header, "authorization", "header defaults to authorization");
    assert_eq!(auth.scheme, "Bearer", "scheme defaults to Bearer");
}

#[test]
fn empty_auth_env_is_rejected() {
    let message = parse_err(with_auth(JudgeAuthSettings {
        value_env: String::new(),
        header: None,
        scheme: None,
    }));
    assert!(
        message.contains("value_env"),
        "empty credential env var must be rejected: {message}"
    );
}

#[test]
fn invalid_auth_header_is_rejected() {
    let message = parse_err(with_auth(JudgeAuthSettings {
        value_env: "OPENAI_API_KEY".to_owned(),
        header: Some("bad header".to_owned()),
        scheme: None,
    }));
    assert!(
        message.contains("auth.header"),
        "invalid auth header name must be rejected: {message}"
    );
}

#[test]
fn invalid_session_header_is_rejected() {
    let mut settings = minimal();
    settings.session_header = Some("bad header".to_owned());
    let message = parse_err(settings);
    assert!(message.contains("session_header"), "invalid header must be rejected: {message}");
}

#[test]
fn tier_order_and_tags_round_trip() {
    assert!(Tier::Weak < Tier::Strong, "the floor clamp relies on Weak < Strong");
    assert_eq!(Tier::from_tag("weak"), Some(Tier::Weak), "weak tag round-trips");
    assert_eq!(Tier::from_tag("strong"), Some(Tier::Strong), "strong tag round-trips");
    assert_eq!(Tier::from_tag("judge"), None, "non-tier tags map to None");
    assert_eq!(Tier::Weak.max(Tier::Strong), Tier::Strong, "max picks the stronger tier");
    assert_eq!(Tier::Weak.at_least(Tier::Strong), Tier::Strong);
    assert_eq!(Tier::Strong.at_least(Tier::Weak), Tier::Strong);
    assert_eq!(Tier::from_tag(Tier::Weak.tag()), Some(Tier::Weak));
}

#[test]
fn the_classifier_is_built_from_the_tier_tags() {
    let mut settings = minimal();
    settings.threshold = Some(threshold(0.25));
    let classifier = build_algorithm(&parse(settings));
    assert_eq!(
        (classifier.judge, classifier.efficient, classifier.capable),
        ("judge", "weak", "strong")
    );
    assert_eq!(classifier.threshold, threshold(0.25));
    assert!(!classifier.session_affinity, "the classifier must not pin sessions");
    assert_eq!(
        classifier_rejected("no").message,
        "switchyard_route: classifier config rejected: no"
    );
}
