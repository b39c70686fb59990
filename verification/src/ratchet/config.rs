//! Configuration surface of the floor-keeping filter.
//!
//! The tag to (cluster, model) table is the heart of the filter: the
//! classifier only ever sees the abstract tags, and this module owns their
//! resolution to a real cluster and upstream model name.

use vstd::prelude::*;
use vstd::string::*;

use crate::classifier::{default_threshold, in_unit_range, one_half, Threshold};
use crate::config::{
    refusal, text_or, value_or, ConfigError, FailureMode, TargetConfig, TargetView,
};
use crate::text::{blank, is_blank, is_space, join, text_eq};
use crate::tier::{tag_text, Tier};
use crate::wire::{
    header_name, is_header_name, parse_uri, parsed_uri, uri_outcome, UriParts, UriView,
};

verus! {

/// Longest permitted session-floor window (7 days), in seconds.
pub const MAX_TTL_SECS: u64 = 604_800;

/// Longest permitted judge callout deadline (10 minutes), in milliseconds.
pub const MAX_TIMEOUT_MS: u64 = 600_000;

/// Judge callout authentication, as written. The secret is never part of it:
/// it names the environment variable that holds the secret.
#[derive(Debug, Clone)]
pub struct JudgeAuthSettings {
    /// Environment variable holding the credential.
    pub value_env: String,
    /// Header the credential is sent in.
    pub header: Option<String>,
    /// Prefix of the credential.
    pub scheme: Option<String>,
}

/// Judge callout settings, as written.
#[derive(Debug, Clone)]
pub struct JudgeSettings {
    /// Absolute URL of the judge's chat-completions endpoint.
    pub endpoint: String,
    /// Model name sent to the judge.
    pub model: String,
    /// Credential of a hosted judge.
    pub auth: Option<JudgeAuthSettings>,
    /// Callout deadline in milliseconds.
    pub timeout_ms: Option<u64>,
    /// Largest accepted judge response in bytes.
    pub max_response_bytes: Option<usize>,
}

/// Session-floor settings, as written.
#[derive(Debug, Clone)]
pub struct SessionFloorSettings {
    /// Whether the floor is kept at all.
    pub enabled: Option<bool>,
    /// Inactivity window in seconds.
    pub ttl_secs: Option<u64>,
    /// Whether the tier below the floor is barred in the classifier too.
    pub exclude_below: Option<bool>,
    /// Whether a session at the strong floor skips the judge.
    pub escalation_ratchet: Option<bool>,
}

/// The filter's settings, as written.
#[derive(Debug, Clone)]
pub struct RouteSettings {
    /// The classifier callout.
    pub judge: JudgeSettings,
    /// Classifier decision threshold.
    pub threshold: Option<Threshold>,
    /// The tag to (cluster, model) table.
    pub targets: TargetsConfig,
    /// Session-floor settings.
    pub session_floor: Option<SessionFloorSettings>,
    /// What to do when no decision can be produced.
    pub on_failure: Option<FailureMode>,
    /// Cap of the buffered request body in bytes.
    pub max_body_bytes: Option<usize>,
    /// Header carrying the session id.
    pub session_header: Option<String>,
}

/// Judge callout authentication.
#[derive(Debug, Clone)]
pub struct JudgeAuthConfig {
    /// Environment variable holding the credential (e.g. `OPENAI_API_KEY`).
    pub value_env: String,
    /// Header the credential is sent in.
    pub header: String,
    /// Prefix of the resolved value (e.g. `Bearer`). An empty prefix sends the
    /// raw credential; a blank after it is added automatically.
    pub scheme: String,
}

/// Judge (classifier) callout configuration.
#[derive(Debug, Clone)]
pub struct JudgeConfig {
    /// Absolute URL of the judge's OpenAI-compatible chat-completions endpoint.
    pub endpoint: String,
    /// Model name substituted into the classifier request sent to the judge.
    pub model: String,
    /// Credential of a hosted judge; absent for keyless endpoints.
    pub auth: Option<JudgeAuthConfig>,
    /// Deadline in milliseconds covering name resolution and the exchange.
    pub timeout_ms: u64,
    /// Largest accepted judge response in bytes.
    pub max_response_bytes: usize,
}

/// The tag to (cluster, model) table.
#[derive(Debug, Clone)]
pub struct TargetsConfig {
    /// Resolution of the weak (efficient) tier.
    pub weak: TargetConfig,
    /// Resolution of the strong (capable) tier.
    pub strong: TargetConfig,
}

/// The no-downgrade ratchet (session floor) configuration.
#[derive(Debug, Clone, Copy, PartialEq, Eq, Structural)]
pub struct SessionFloorConfig {
    /// Whether the floor is kept at all.
    pub enabled: bool,
    /// Inactivity window in seconds.
    pub ttl_secs: u64,
    /// Whether the tier below the floor is barred in the classifier too, on
    /// top of the clamp.
    pub exclude_below: bool,
    /// Whether a session at the strong floor skips the judge.
    pub escalation_ratchet: bool,
}

/// The filter's configuration.
#[derive(Debug, Clone)]
pub struct RouteConfig {
    /// The classifier callout.
    pub judge: JudgeConfig,
    /// Classifier decision threshold.
    pub threshold: Threshold,
    /// The tag to (cluster, model) table.
    pub targets: TargetsConfig,
    /// No-downgrade ratchet settings.
    pub session_floor: SessionFloorConfig,
    /// What to do when no decision can be produced.
    pub on_failure: FailureMode,
    /// Cap of the buffered request body in bytes.
    pub max_body_bytes: usize,
    /// Header carrying the session id that the floor is keyed by.
    pub session_header: String,
}

/// The content of a [`JudgeAuthConfig`].
pub struct JudgeAuthView {
    pub value_env: Seq<char>,
    pub header: Seq<char>,
    pub scheme: Seq<char>,
}

/// The content of a [`JudgeConfig`].
pub struct JudgeView {
    pub endpoint: Seq<char>,
    pub model: Seq<char>,
    pub auth: Option<JudgeAuthView>,
    pub timeout_ms: u64,
    pub max_response_bytes: usize,
}

/// The content of a [`RouteConfig`].
pub struct RouteView {
    pub judge: JudgeView,
    pub threshold: Threshold,
    pub weak: TargetView,
    pub strong: TargetView,
    pub session_floor: SessionFloorConfig,
    pub on_failure: FailureMode,
    pub max_body_bytes: usize,
    pub session_header: Seq<char>,
}

impl View for JudgeAuthConfig {
    type V = JudgeAuthView;

    open spec fn view(&self) -> JudgeAuthView {
        JudgeAuthView { value_env: self.value_env@, header: self.header@, scheme: self.scheme@ }
    }
}

/// The content of an optional credential block.
pub open spec fn auth_view(auth: Option<JudgeAuthConfig>) -> Option<JudgeAuthView> {
    match auth {
        Some(block) => Some(block@),
        None => None,
    }
}

impl View for JudgeConfig {
    type V = JudgeView;

    open spec fn view(&self) -> JudgeView {
        JudgeView {
            endpoint: self.endpoint@,
            model: self.model@,
            auth: auth_view(self.auth),
            timeout_ms: self.timeout_ms,
            max_response_bytes: self.max_response_bytes,
        }
    }
}

impl View for RouteConfig {
    type V = RouteView;

    open spec fn view(&self) -> RouteView {
        RouteView {
            judge: self.judge@,
            threshold: self.threshold,
            weak: self.targets.weak@,
            strong: self.targets.strong@,
            session_floor: self.session_floor,
            on_failure: self.on_failure,
            max_body_bytes: self.max_body_bytes,
            session_header: self.session_header@,
        }
    }
}

impl RouteView {
    /// The resolution of a tier.
    pub open spec fn target(self, tier: Tier) -> TargetView {
        match tier {
            Tier::Weak => self.weak,
            Tier::Strong => self.strong,
        }
    }
}

/// What every configuration message starts with.
pub open spec fn config_text(message: Seq<char>) -> Seq<char> {
    "switchyard_route: "@ + message
}

/// What is wrong with a judge URL, if anything.
pub open spec fn url_problem(url: Result<UriView, Seq<char>>) -> Option<Seq<char>> {
    match url {
        Err(error) => Some(config_text("judge.endpoint is not a valid URL: "@ + error)),
        Ok(uri) => match uri.scheme {
            None => Some(config_text("judge.endpoint must be an absolute http(s) URL"@)),
            Some(scheme) => if scheme != "http"@ && scheme != "https"@ {
                Some(config_text("judge.endpoint has unsupported scheme '"@ + scheme + "'"@))
            } else if uri.authority is None {
                Some(config_text("judge.endpoint is missing a host"@))
            } else {
                None
            },
        },
    }
}

/// What is wrong with a credential block, if anything.
pub open spec fn auth_problem(auth: JudgeAuthView) -> Option<Seq<char>> {
    if blank(auth.value_env) {
        Some(config_text("judge.auth.value_env must not be empty"@))
    } else if !is_header_name(auth.header) {
        Some(config_text("judge.auth.header is not a valid header name"@))
    } else {
        None
    }
}

/// What is wrong with the judge settings, if anything: the first complaint.
pub open spec fn judge_problem(judge: JudgeView) -> Option<Seq<char>> {
    if url_problem(parsed_uri(judge.endpoint)) is Some {
        url_problem(parsed_uri(judge.endpoint))
    } else if blank(judge.model) {
        Some(config_text("judge.model must not be empty"@))
    } else if judge.timeout_ms == 0 || judge.timeout_ms > MAX_TIMEOUT_MS {
        Some(config_text("judge.timeout_ms must be 1-600000"@))
    } else if judge.max_response_bytes == 0 {
        Some(config_text("judge.max_response_bytes must be at least 1"@))
    } else {
        match judge.auth {
            Some(auth) => auth_problem(auth),
            None => None,
        }
    }
}

/// What is wrong with one tier's table entry, if anything.
pub open spec fn target_problem(tier: Tier, target: TargetView) -> Option<Seq<char>> {
    if blank(target.cluster) {
        Some(config_text("targets."@ + tag_text(tier) + ".cluster must not be empty"@))
    } else if blank(target.model) {
        Some(config_text("targets."@ + tag_text(tier) + ".model must not be empty"@))
    } else {
        None
    }
}

/// What is wrong with the remaining settings, if anything: the first complaint.
pub open spec fn scalar_problem(config: RouteView) -> Option<Seq<char>> {
    if !in_unit_range(config.threshold) {
        Some(config_text("threshold must be within [0, 1]"@))
    } else if config.session_floor.enabled && (config.session_floor.ttl_secs == 0
        || config.session_floor.ttl_secs > MAX_TTL_SECS) {
        Some(config_text("session_floor.ttl_secs must be 1-604800"@))
    } else if config.max_body_bytes == 0 {
        Some(config_text("max_body_bytes must be at least 1"@))
    } else if !is_header_name(config.session_header) {
        Some(config_text("session_header is not a valid header name"@))
    } else {
        None
    }
}

/// What is wrong with a configuration, if anything: the first complaint.
pub open spec fn config_problem(config: RouteView) -> Option<Seq<char>> {
    if judge_problem(config.judge) is Some {
        judge_problem(config.judge)
    } else if target_problem(Tier::Weak, config.weak) is Some {
        target_problem(Tier::Weak, config.weak)
    } else if target_problem(Tier::Strong, config.strong) is Some {
        target_problem(Tier::Strong, config.strong)
    } else {
        scalar_problem(config)
    }
}

/// The floor configuration that applies where nothing is written.
pub open spec fn floor_defaults() -> SessionFloorConfig {
    SessionFloorConfig {
        enabled: true,
        ttl_secs: 3_600,
        exclude_below: true,
        escalation_ratchet: false,
    }
}

/// A credential block with the defaults filled in.
pub open spec fn settled_auth(auth: Option<JudgeAuthSettings>) -> Option<JudgeAuthView> {
    match auth {
        Some(block) => Some(
            JudgeAuthView {
                value_env: block.value_env@,
                header: text_or(block.header, "authorization"@),
                scheme: text_or(block.scheme, "Bearer"@),
            },
        ),
        None => None,
    }
}

/// The judge settings with the defaults filled in.
pub open spec fn settled_judge(judge: JudgeSettings) -> JudgeView {
    JudgeView {
        endpoint: judge.endpoint@,
        model: judge.model@,
        auth: settled_auth(judge.auth),
        timeout_ms: value_or(judge.timeout_ms, 2_000),
        max_response_bytes: value_or(judge.max_response_bytes, 65_536),
    }
}

/// The floor settings with the defaults filled in.
pub open spec fn settled_floor(floor: Option<SessionFloorSettings>) -> SessionFloorConfig {
    match floor {
        Some(written) => SessionFloorConfig {
            enabled: value_or(written.enabled, floor_defaults().enabled),
            ttl_secs: value_or(written.ttl_secs, floor_defaults().ttl_secs),
            exclude_below: value_or(written.exclude_below, floor_defaults().exclude_below),
            escalation_ratchet: value_or(
                written.escalation_ratchet,
                floor_defaults().escalation_ratchet,
            ),
        },
        None => floor_defaults(),
    }
}

/// The settings with the defaults filled in.
pub open spec fn settled(settings: RouteSettings) -> RouteView {
    RouteView {
        judge: settled_judge(settings.judge),
        threshold: value_or(settings.threshold, one_half()),
        weak: settings.targets.weak@,
        strong: settings.targets.strong@,
        session_floor: settled_floor(settings.session_floor),
        on_failure: value_or(settings.on_failure, FailureMode::Open),
        max_body_bytes: value_or(settings.max_body_bytes, 1_048_576),
        session_header: text_or(settings.session_header, "x-switchyard-session-id"@),
    }
}

impl JudgeConfig {
    /// The callout deadline in milliseconds.
    pub fn timeout(&self) -> (deadline_ms: u64)
        ensures
            deadline_ms == self.timeout_ms,
    {
        self.timeout_ms
    }
}

impl TargetsConfig {
    /// Resolves a tier to its configured target.
    pub fn tier(&self, tier: Tier) -> (target: &TargetConfig)
        ensures
            *target == (match tier {
                Tier::Weak => self.weak,
                Tier::Strong => self.strong,
            }),
    {
        match tier {
            Tier::Weak => &self.weak,
            Tier::Strong => &self.strong,
        }
    }
}

impl Default for SessionFloorConfig {
    fn default() -> (config: SessionFloorConfig)
        ensures
            config == floor_defaults(),
    {
        SessionFloorConfig {
            enabled: default_true(),
            ttl_secs: default_floor_ttl_secs(),
            exclude_below: default_true(),
            escalation_ratchet: default_escalation_ratchet(),
        }
    }
}

/// Default of [`SessionFloorConfig::enabled`] and
/// [`SessionFloorConfig::exclude_below`].
pub fn default_true() -> (r: bool)
    ensures
        r,
{
    true
}

/// Default of [`SessionFloorConfig::escalation_ratchet`]: judge every turn.
pub fn default_escalation_ratchet() -> (r: bool)
    ensures
        !r,
{
    false
}

/// Default of [`JudgeAuthConfig::header`].
pub fn default_auth_header() -> (r: String)
    ensures
        r@ == "authorization"@,
{
    "authorization".to_owned()
}

/// Default of [`JudgeAuthConfig::scheme`].
pub fn default_auth_scheme() -> (r: String)
    ensures
        r@ == "Bearer"@,
{
    "Bearer".to_owned()
}

/// Default of [`JudgeConfig::timeout_ms`]: 2 seconds.
pub fn default_judge_timeout_ms() -> (r: u64)
    ensures
        r == 2_000,
{
    2_000
}

/// Default of [`JudgeConfig::max_response_bytes`]: 64 KiB.
pub fn default_judge_max_response_bytes() -> (r: usize)
    ensures
        r == 65_536,
{
    65_536
}

/// Default of [`SessionFloorConfig::ttl_secs`]: 1 hour.
pub fn default_floor_ttl_secs() -> (r: u64)
    ensures
        r == 3_600,
{
    3_600
}

/// Default of [`RouteConfig::on_failure`]: fail open.
pub fn default_failure_mode() -> (r: FailureMode)
    ensures
        r == FailureMode::Open,
{
    FailureMode::Open
}

/// Default of [`RouteConfig::max_body_bytes`]: 1 MiB.
pub fn default_max_body_bytes() -> (r: usize)
    ensures
        r == 1_048_576,
{
    1_048_576
}

/// Default of [`RouteConfig::session_header`].
pub fn default_session_header() -> (r: String)
    ensures
        r@ == "x-switchyard-session-id"@,
{
    "x-switchyard-session-id".to_owned()
}

/// Builds a configuration error.
pub fn config_error(message: &str) -> (error: ConfigError)
    ensures
        error.message@ == config_text(message@),
{
    ConfigError { message: join("switchyard_route: ", message) }
}

/// Accepts the outcome of parsing the judge URL, or says what is wrong with it.
pub fn check_url(parsed: &Result<UriParts, String>) -> (r: Result<(), ConfigError>)
    ensures
        refusal(r) == url_problem(uri_outcome(*parsed)),
{
    match parsed {
        Err(error) => Err(
            config_error(join("judge.endpoint is not a valid URL: ", error.as_str()).as_str()),
        ),
        Ok(uri) => {
            match &uri.scheme {
                None => {
                    return Err(config_error("judge.endpoint must be an absolute http(s) URL"));
                },
                Some(scheme) => {
                    if !text_eq(scheme.as_str(), "http") && !text_eq(scheme.as_str(), "https") {
                        let mut message = join(
                            "judge.endpoint has unsupported scheme '",
                            scheme.as_str(),
                        );
                        message.append("'");
                        return Err(config_error(message.as_str()));
                    }
                },
            }
            if uri.authority.is_none() {
                return Err(config_error("judge.endpoint is missing a host"));
            }
            Ok(())
        },
    }
}

/// Validates the judge callout settings.
pub fn validate_judge(judge: &JudgeConfig) -> (r: Result<(), ConfigError>)
    ensures
        refusal(r) == judge_problem(judge@),
{
    let parsed = parse_uri(judge.endpoint.as_str());
    let url = check_url(&parsed);
    if url.is_err() {
        return url;
    }
    if is_blank(judge.model.as_str()) {
        return Err(config_error("judge.model must not be empty"));
    }
    if judge.timeout_ms == 0 || judge.timeout_ms > MAX_TIMEOUT_MS {
        return Err(config_error("judge.timeout_ms must be 1-600000"));
    }
    if judge.max_response_bytes == 0 {
        return Err(config_error("judge.max_response_bytes must be at least 1"));
    }
    match &judge.auth {
        Some(auth) => validate_auth(auth),
        None => Ok(()),
    }
}

/// Validates the credential block. The credential itself is resolved later.
pub fn validate_auth(auth: &JudgeAuthConfig) -> (r: Result<(), ConfigError>)
    ensures
        refusal(r) == auth_problem(auth@),
{
    if is_blank(auth.value_env.as_str()) {
        return Err(config_error("judge.auth.value_env must not be empty"));
    }
    if header_name(auth.header.as_str()).is_err() {
        return Err(config_error("judge.auth.header is not a valid header name"));
    }
    Ok(())
}

/// Validates one tier's table entry.
pub fn validate_target(tier: Tier, target: &TargetConfig) -> (r: Result<(), ConfigError>)
    ensures
        refusal(r) == target_problem(tier, target@),
{
    if is_blank(target.cluster.as_str()) {
        let mut message = join("targets.", tier.tag());
        message.append(".cluster must not be empty");
        return Err(config_error(message.as_str()));
    }
    if is_blank(target.model.as_str()) {
        let mut message = join("targets.", tier.tag());
        message.append(".model must not be empty");
        return Err(config_error(message.as_str()));
    }
    Ok(())
}

/// Validates the remaining settings.
pub fn validate_scalars(config: &RouteConfig) -> (r: Result<(), ConfigError>)
    ensures
        refusal(r) == scalar_problem(config@),
{
    if !config.threshold.is_unit() {
        return Err(config_error("threshold must be within [0, 1]"));
    }
    if config.session_floor.enabled && (config.session_floor.ttl_secs == 0
        || config.session_floor.ttl_secs > MAX_TTL_SECS) {
        return Err(config_error("session_floor.ttl_secs must be 1-604800"));
    }
    if config.max_body_bytes == 0 {
        return Err(config_error("max_body_bytes must be at least 1"));
    }
    if header_name(config.session_header.as_str()).is_err() {
        return Err(config_error("session_header is not a valid header name"));
    }
    Ok(())
}

fn settle_auth(auth: Option<JudgeAuthSettings>) -> (r: Option<JudgeAuthConfig>)
    ensures
        auth_view(r) == settled_auth(auth),
{
    match auth {
        None => None,
        Some(block) => Some(
            JudgeAuthConfig {
                value_env: block.value_env,
                header: match block.header {
                    Some(header) => header,
                    None => default_auth_header(),
                },
                scheme: match block.scheme {
                    Some(scheme) => scheme,
                    None => default_auth_scheme(),
                },
            },
        ),
    }
}

fn settle_floor(floor: Option<SessionFloorSettings>) -> (r: SessionFloorConfig)
    ensures
        r == settled_floor(floor),
{
    let mut config = SessionFloorConfig::default();
    if let Some(written) = floor {
        if let Some(enabled) = written.enabled {
            config.enabled = enabled;
        }
        if let Some(ttl_secs) = written.ttl_secs {
            config.ttl_secs = ttl_secs;
        }
        if let Some(exclude_below) = written.exclude_below {
            config.exclude_below = exclude_below;
        }
        if let Some(escalation_ratchet) = written.escalation_ratchet {
            config.escalation_ratchet = escalation_ratchet;
        }
    }
    config
}

/// Fills in the defaults.
pub fn settle(settings: RouteSettings) -> (config: RouteConfig)
    ensures
        config@ == settled(settings),
{
    let judge = JudgeConfig {
        endpoint: settings.judge.endpoint,
        model: settings.judge.model,
        auth: settle_auth(settings.judge.auth),
        timeout_ms: match settings.judge.timeout_ms {
            Some(timeout_ms) => timeout_ms,
            None => default_judge_timeout_ms(),
        },
        max_response_bytes: match settings.judge.max_response_bytes {
            Some(max_response_bytes) => max_response_bytes,
            None => default_judge_max_response_bytes(),
        },
    };
    RouteConfig {
        judge,
        threshold: match settings.threshold {
            Some(threshold) => threshold,
            None => default_threshold(),
        },
        targets: settings.targets,
        session_floor: settle_floor(settings.session_floor),
        on_failure: match settings.on_failure {
            Some(on_failure) => on_failure,
            None => default_failure_mode(),
        },
        max_body_bytes: match settings.max_body_bytes {
            Some(max_body_bytes) => max_body_bytes,
            None => default_max_body_bytes(),
        },
        session_header: match settings.session_header {
            Some(session_header) => session_header,
            None => default_session_header(),
        },
    }
}

/// Fills in the defaults and validates the configuration.
pub fn parse_config(settings: RouteSettings) -> (r: Result<RouteConfig, ConfigError>)
    ensures
        refusal(r) == config_problem(settled(settings)),
        r matches Ok(config) ==> config@ == settled(settings),
{
    let config = settle(settings);
    match validate_judge(&config.judge) {
        Err(error) => return Err(error),
        Ok(()) => {},
    }
    match validate_target(Tier::Weak, &config.targets.weak) {
        Err(error) => return Err(error),
        Ok(()) => {},
    }
    match validate_target(Tier::Strong, &config.targets.strong) {
        Err(error) => return Err(error),
        Ok(()) => {},
    }
    match validate_scalars(&config) {
        Err(error) => return Err(error),
        Ok(()) => {},
    }
    Ok(config)
}

/// Every value that is written is the value in force, and the defaults apply
/// only where nothing is written.
pub proof fn written_settings_are_in_force(settings: RouteSettings, r: RouteConfig)
    requires
        call_ensures(settle, (settings,), r),
    ensures
        settings.threshold matches Some(threshold) ==> r.threshold == threshold,
        settings.threshold is None ==> r.threshold.bits == 0x3fe0_0000_0000_0000,
        settings.judge.timeout_ms matches Some(timeout_ms) ==> r.judge.timeout_ms == timeout_ms,
        settings.judge.timeout_ms is None ==> r.judge.timeout_ms == 2_000,
        settings.judge.max_response_bytes matches Some(cap) ==> r.judge.max_response_bytes == cap,
        settings.judge.max_response_bytes is None ==> r.judge.max_response_bytes == 64 * 1024,
        settings.on_failure matches Some(on_failure) ==> r.on_failure == on_failure,
        settings.on_failure is None ==> r.on_failure == FailureMode::Open,
        settings.max_body_bytes matches Some(cap) ==> r.max_body_bytes == cap,
        settings.max_body_bytes is None ==> r.max_body_bytes == 1024 * 1024,
        settings.session_header matches Some(header) ==> r.session_header@ == header@,
        settings.session_header is None ==> r.session_header@ == "x-switchyard-session-id"@,
        r.judge.endpoint@ == settings.judge.endpoint@,
        r.judge.model@ == settings.judge.model@,
        r.targets.weak.cluster@ == settings.targets.weak.cluster@,
        r.targets.weak.model@ == settings.targets.weak.model@,
        r.targets.strong.cluster@ == settings.targets.strong.cluster@,
        r.targets.strong.model@ == settings.targets.strong.model@,
        settled(settings) == r@,
{
    let a = r@;
    let b = settled(settings);
    assert(a.weak == b.weak && a.strong == b.strong && a.judge == b.judge);
}

/// The same of the floor's settings, of which a block may write some or none.
pub proof fn written_floor_settings_are_in_force(settings: RouteSettings, r: RouteConfig)
    requires
        call_ensures(settle, (settings,), r),
    ensures
        settings.session_floor matches Some(floor) ==> {
            &&& floor.enabled matches Some(enabled) ==> r.session_floor.enabled == enabled
            &&& floor.enabled is None ==> r.session_floor.enabled
            &&& floor.ttl_secs matches Some(ttl_secs) ==> r.session_floor.ttl_secs == ttl_secs
            &&& floor.ttl_secs is None ==> r.session_floor.ttl_secs == 60 * 60
            &&& floor.exclude_below matches Some(exclude) ==> r.session_floor.exclude_below
                == exclude
            &&& floor.exclude_below is None ==> r.session_floor.exclude_below
            &&& floor.escalation_ratchet matches Some(ratchet)
                ==> r.session_floor.escalation_ratchet == ratchet
            &&& floor.escalation_ratchet is None ==> !r.session_floor.escalation_ratchet
        },
        settings.session_floor is None ==> {
            &&& r.session_floor.enabled
            &&& r.session_floor.ttl_secs == 60 * 60
            &&& r.session_floor.exclude_below
            &&& !r.session_floor.escalation_ratchet
        },
{
}

/// The same of the credential block, which is there exactly where one is
/// written.
pub proof fn written_credential_settings_are_in_force(settings: RouteSettings, r: RouteConfig)
    requires
        call_ensures(settle, (settings,), r),
    ensures
        r.judge.auth is Some == settings.judge.auth is Some,
        settings.judge.auth matches Some(block) ==> {
            let auth = r.judge.auth->Some_0;
            &&& auth.value_env@ == block.value_env@
            &&& block.header matches Some(header) ==> auth.header@ == header@
            &&& block.header is None ==> auth.header@ == "authorization"@
            &&& block.scheme matches Some(scheme) ==> auth.scheme@ == scheme@
            &&& block.scheme is None ==> auth.scheme@ == "Bearer"@
        },
{
    let a = r@.judge.auth;
    assert(a == settled(settings).judge.auth);
    if settings.judge.auth is Some {
        assert(a->Some_0 == r.judge.auth->Some_0@);
    }
}

/// Whether a text holds anything but white space.
pub open spec fn says_something(text: Seq<char>) -> bool {
    exists|i: int| 0 <= i < text.len() && !is_space(#[trigger] text[i])
}

/// A configuration is accepted exactly where the judge's URL is absolute, with
/// `http` or `https` and a host, every name that is needed says something,
/// every header name is one, and every number is within its limits.
pub proof fn configurations_are_accepted_exactly_where_they_are_sound(
    settings: RouteSettings,
    r: Result<RouteConfig, ConfigError>,
)
    requires
        call_ensures(parse_config, (settings,), r),
    ensures
        ({
            let config = settled(settings);
            let url = parsed_uri(config.judge.endpoint);
            r is Ok <==> {
                &&& url matches Ok(uri) && (uri.scheme == Some("http"@) || uri.scheme == Some(
                    "https"@,
                )) && uri.authority is Some
                &&& says_something(config.judge.model)
                &&& 1 <= config.judge.timeout_ms <= 600_000
                &&& config.judge.max_response_bytes >= 1
                &&& config.judge.auth matches Some(auth) ==> says_something(auth.value_env)
                    && is_header_name(auth.header)
                &&& says_something(config.weak.cluster) && says_something(config.weak.model)
                &&& says_something(config.strong.cluster) && says_something(config.strong.model)
                &&& config.threshold.bits <= 0x3ff0_0000_0000_0000 || config.threshold.bits
                    == 0x8000_0000_0000_0000
                &&& config.session_floor.enabled ==> 1 <= config.session_floor.ttl_secs <= 604_800
                &&& config.max_body_bytes >= 1
                &&& is_header_name(config.session_header)
            }
        }),
        r is Ok ==> r->Ok_0@ == settled(settings),
        r is Err == refusal(r) is Some,
{
    assert forall|text: Seq<char>| #[trigger] blank(text) == !says_something(text) by {}
}

/// A judge block with one fault is refused for that fault: the message names it.
pub proof fn judge_faults_are_named(judge: JudgeConfig, r: Result<(), ConfigError>)
    requires
        call_ensures(validate_judge, (&judge,), r),
    ensures
        ({
            let url = parsed_uri(judge.endpoint@);
            let absolute = url is Ok && url->Ok_0.scheme is Some;
            let supported = absolute && (url->Ok_0.scheme->Some_0 == "http"@
                || url->Ok_0.scheme->Some_0 == "https"@);
            let dialled = supported && url->Ok_0.authority is Some;
            let named = dialled && says_something(judge.model@);
            let timed = named && 1 <= judge.timeout_ms <= 600_000;
            let capped = timed && judge.max_response_bytes >= 1;
            &&& url is Err ==> r->Err_0.message@
                == "switchyard_route: "@ + ("judge.endpoint is not a valid URL: "@ + url->Err_0)
            &&& url is Ok && !absolute ==> r->Err_0.message@
                == "switchyard_route: "@ + "judge.endpoint must be an absolute http(s) URL"@
            &&& absolute && !supported ==> r->Err_0.message@ == "switchyard_route: "@ + (
            "judge.endpoint has unsupported scheme '"@ + url->Ok_0.scheme->Some_0 + "'"@)
            &&& supported && !dialled ==> r->Err_0.message@
                == "switchyard_route: "@ + "judge.endpoint is missing a host"@
            &&& dialled && !named ==> r->Err_0.message@
                == "switchyard_route: "@ + "judge.model must not be empty"@
            &&& named && !timed ==> r->Err_0.message@
                == "switchyard_route: "@ + "judge.timeout_ms must be 1-600000"@
            &&& timed && !capped ==> r->Err_0.message@
                == "switchyard_route: "@ + "judge.max_response_bytes must be at least 1"@
            &&& capped && judge.auth is None ==> r is Ok
            &&& r is Ok ==> capped
        }),
{
    assert(refusal(r) is Some == r is Err);
    assert forall|text: Seq<char>| #[trigger] blank(text) == !says_something(text) by {}
}

/// A credential block, a target and the remaining settings are refused for the
/// first of their faults, which the message names, and for nothing else.
pub proof fn other_faults_are_named(
    auth: JudgeAuthConfig,
    auth_checked: Result<(), ConfigError>,
    tier: Tier,
    target: TargetConfig,
    target_checked: Result<(), ConfigError>,
    config: RouteConfig,
    config_checked: Result<(), ConfigError>,
)
    requires
        call_ensures(validate_auth, (&auth,), auth_checked),
        call_ensures(validate_target, (tier, &target), target_checked),
        call_ensures(validate_scalars, (&config,), config_checked),
    ensures
        auth_checked is Ok <==> says_something(auth.value_env@) && is_header_name(auth.header@),
        !says_something(auth.value_env@) ==> auth_checked->Err_0.message@
            == "switchyard_route: "@ + "judge.auth.value_env must not be empty"@,
        says_something(auth.value_env@) && !is_header_name(auth.header@)
            ==> auth_checked->Err_0.message@
            == "switchyard_route: "@ + "judge.auth.header is not a valid header name"@,
        target_checked is Ok <==> says_something(target.cluster@) && says_something(target.model@),
        !says_something(target.cluster@) && tier == Tier::Weak ==> target_checked->Err_0.message@
            == "switchyard_route: "@ + ("targets."@ + "weak"@ + ".cluster must not be empty"@),
        !says_something(target.cluster@) && tier == Tier::Strong ==> target_checked->Err_0.message@
            == "switchyard_route: "@ + ("targets."@ + "strong"@ + ".cluster must not be empty"@),
        says_something(target.cluster@) && !says_something(target.model@) && tier == Tier::Weak
            ==> target_checked->Err_0.message@
            == "switchyard_route: "@ + ("targets."@ + "weak"@ + ".model must not be empty"@),
        says_something(target.cluster@) && !says_something(target.model@) && tier == Tier::Strong
            ==> target_checked->Err_0.message@
            == "switchyard_route: "@ + ("targets."@ + "strong"@ + ".model must not be empty"@),
        ({
            let unit = config.threshold.bits <= 0x3ff0_0000_0000_0000 || config.threshold.bits
                == 0x8000_0000_0000_0000;
            let lasting = unit && (config.session_floor.enabled ==> 1
                <= config.session_floor.ttl_secs <= 604_800);
            let buffered = lasting && config.max_body_bytes >= 1;
            let sound = buffered && is_header_name(config.session_header@);
            &&& config_checked is Ok <==> sound
            &&& !unit ==> config_checked->Err_0.message@
                == "switchyard_route: "@ + "threshold must be within [0, 1]"@
            &&& unit && !lasting ==> config_checked->Err_0.message@
                == "switchyard_route: "@ + "session_floor.ttl_secs must be 1-604800"@
            &&& lasting && !buffered ==> config_checked->Err_0.message@
                == "switchyard_route: "@ + "max_body_bytes must be at least 1"@
            &&& buffered && !sound ==> config_checked->Err_0.message@
                == "switchyard_route: "@ + "session_header is not a valid header name"@
        }),
{
    assert(refusal(auth_checked) is Some == auth_checked is Err);
    assert(refusal(target_checked) is Some == target_checked is Err);
    assert(refusal(config_checked) is Some == config_checked is Err);
    assert forall|text: Seq<char>| #[trigger] blank(text) == !says_something(text) by {}
}

/// Of several faults the judge's comes first, then the weak target's, then the
/// strong one's, then the others'.
pub proof fn faults_are_told_in_order(
    settings: RouteSettings,
    r: Result<RouteConfig, ConfigError>,
    config: RouteConfig,
    judge: Result<(), ConfigError>,
    weak: Result<(), ConfigError>,
    strong: Result<(), ConfigError>,
    rest: Result<(), ConfigError>,
)
    requires
        call_ensures(parse_config, (settings,), r),
        call_ensures(settle, (settings,), config),
        call_ensures(validate_judge, (&config.judge,), judge),
        call_ensures(validate_target, (Tier::Weak, &config.targets.weak), weak),
        call_ensures(validate_target, (Tier::Strong, &config.targets.strong), strong),
        call_ensures(validate_scalars, (&config,), rest),
    ensures
        judge is Err ==> r is Err && r->Err_0.message@ == judge->Err_0.message@,
        judge is Ok && weak is Err ==> r is Err && r->Err_0.message@ == weak->Err_0.message@,
        judge is Ok && weak is Ok && strong is Err ==> r is Err && r->Err_0.message@
            == strong->Err_0.message@,
        judge is Ok && weak is Ok && strong is Ok && rest is Err ==> r is Err && r->Err_0.message@
            == rest->Err_0.message@,
        judge is Ok && weak is Ok && strong is Ok && rest is Ok ==> r is Ok,
{
    assert(refusal(r) is Some == r is Err);
    assert(config@.judge == config.judge@);
}

/// A judge block whose credential block is refused is refused for it.
pub proof fn credential_faults_fail_the_judge(
    judge: JudgeConfig,
    r: Result<(), ConfigError>,
    auth: Result<(), ConfigError>,
    bare: JudgeConfig,
    without: Result<(), ConfigError>,
)
    requires
        judge.auth is Some,
        bare == (JudgeConfig { auth: None, ..judge }),
        call_ensures(validate_judge, (&judge,), r),
        call_ensures(validate_judge, (&bare,), without),
        call_ensures(validate_auth, (&judge.auth->Some_0,), auth),
    ensures
        without is Err ==> r is Err && r->Err_0.message@ == without->Err_0.message@,
        without is Ok && auth is Err ==> r is Err && r->Err_0.message@ == auth->Err_0.message@,
        without is Ok && auth is Ok ==> r is Ok,
{
    assert(refusal(r) is Some == r is Err);
    assert(bare@.endpoint == judge@.endpoint && bare@.model == judge@.model);
}

/// A tier resolves to the target of its own name, and the deadline is the one
/// that is configured.
pub proof fn tiers_resolve_to_their_own_target(
    config: RouteConfig,
    tier: Tier,
    r: TargetConfig,
    deadline_ms: u64,
)
    requires
        call_ensures(TargetsConfig::tier, (&config.targets, tier), &r),
        call_ensures(JudgeConfig::timeout, (&config.judge,), deadline_ms),
    ensures
        tier == Tier::Weak ==> r == config.targets.weak && config@.target(tier).cluster
            == config.targets.weak.cluster@ && config@.target(tier).model
            == config.targets.weak.model@,
        tier == Tier::Strong ==> r == config.targets.strong && config@.target(tier).cluster
            == config.targets.strong.cluster@ && config@.target(tier).model
            == config.targets.strong.model@,
        deadline_ms == config.judge.timeout_ms,
{
}

} // verus!
