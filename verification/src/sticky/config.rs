//! Configuration of the session-remembering filter.

use vstd::prelude::*;
use vstd::string::*;

use crate::classifier::{default_threshold, in_unit_range, one_half, Threshold};
use crate::config::{
    value_or, ConfigError, FailureMode, TargetConfig, TargetView,
};
use crate::text::join;
use crate::tier::Tier;
use crate::wire::{opt_text, parse_uri, parsed_uri, uri_outcome, UriParts, UriView};

verus! {

/// Judge callout authentication, as written. The secret is never part of it:
/// it names the environment variable that holds the secret.
#[derive(Debug, Clone)]
pub struct JudgeAuthSettings {
    /// Environment variable holding the bearer token.
    pub value_env: String,
}

/// Judge callout settings, as written.
#[derive(Debug, Clone)]
pub struct JudgeSettings {
    /// Absolute URL of the judge's chat-completions endpoint.
    pub endpoint: String,
    /// Model name sent to the judge.
    pub model: String,
    /// Deadline of one attempt in milliseconds.
    pub timeout_ms: Option<u64>,
    /// Whether TLS certificates are verified.
    pub verify_tls: Option<bool>,
    /// Credential of a hosted judge.
    pub auth: Option<JudgeAuthSettings>,
}

/// The filter's settings, as written.
#[derive(Debug, Clone)]
pub struct RouteSettings {
    /// The classifier callout.
    pub judge: JudgeSettings,
    /// Resolution of the weak tier.
    pub weak: TargetConfig,
    /// Resolution of the strong tier.
    pub strong: TargetConfig,
    /// Classifier decision threshold.
    pub threshold: Option<Threshold>,
    /// What to do when no decision can be produced.
    pub on_failure: Option<FailureMode>,
}

/// Judge (classifier) callout configuration. It has no debug rendering of its
/// own, since it holds the token.
#[derive(Clone)]
pub struct JudgeConfig {
    /// Absolute URL of the judge's chat-completions endpoint.
    pub endpoint: String,
    /// Model name sent to the judge.
    pub model: String,
    /// Deadline of one attempt in milliseconds.
    pub timeout_ms: u64,
    /// Whether TLS certificates are verified.
    pub verify_tls: bool,
    /// Bearer token, where one is configured.
    pub auth_token: Option<String>,
}

/// The filter's configuration.
#[derive(Clone)]
pub struct RouteConfig {
    /// The classifier callout.
    pub judge: JudgeConfig,
    /// Resolution of the weak tier.
    pub weak: TargetConfig,
    /// Resolution of the strong tier.
    pub strong: TargetConfig,
    /// Classifier decision threshold.
    pub threshold: Threshold,
    /// What to do when no decision can be produced.
    pub on_failure: FailureMode,
}

/// The content of a [`JudgeConfig`].
pub struct JudgeView {
    pub endpoint: Seq<char>,
    pub model: Seq<char>,
    pub timeout_ms: u64,
    pub verify_tls: bool,
    pub auth_token: Option<Seq<char>>,
}

/// The content of a [`RouteConfig`].
pub struct RouteView {
    pub judge: JudgeView,
    pub weak: TargetView,
    pub strong: TargetView,
    pub threshold: Threshold,
    pub on_failure: FailureMode,
}

impl View for JudgeConfig {
    type V = JudgeView;

    open spec fn view(&self) -> JudgeView {
        JudgeView {
            endpoint: self.endpoint@,
            model: self.model@,
            timeout_ms: self.timeout_ms,
            verify_tls: self.verify_tls,
            auth_token: opt_text(self.auth_token),
        }
    }
}

impl View for RouteConfig {
    type V = RouteView;

    open spec fn view(&self) -> RouteView {
        RouteView {
            judge: self.judge@,
            weak: self.weak@,
            strong: self.strong@,
            threshold: self.threshold,
            on_failure: self.on_failure,
        }
    }
}

impl RouteView {
    /// The resolution of a tier.
    pub open spec fn target(self, tier: Tier) -> TargetView {
        match tier {
            Tier::Weak => self.weak,
            Tier::Strong => self.strong,
        }
    }
}

/// The bearer token of a credential block, given the content of the variable
/// that it names; or the complaint.
pub open spec fn token_of(auth: Option<JudgeAuthSettings>, secret: Option<Seq<char>>) -> Result<
    Option<Seq<char>>,
    Seq<char>,
> {
    match auth {
        None => Ok(None),
        Some(block) => if block.value_env@.len() == 0 {
            Err("judge.auth.value_env must not be empty"@)
        } else {
            match secret {
                Some(text) if text.len() > 0 => Ok(Some(text)),
                _ => Err("judge.auth.value_env '"@ + block.value_env@ + "' is unset or empty"@),
            }
        },
    }
}

/// The configuration that settings make, given the outcome of parsing the judge
/// URL and the content of the credential's variable; or the first complaint.
pub open spec fn configured(
    settings: RouteSettings,
    url: Result<UriView, Seq<char>>,
    secret: Option<Seq<char>>,
) -> Result<RouteView, Seq<char>> {
    let threshold = value_or(settings.threshold, one_half());
    if !in_unit_range(threshold) {
        Err("threshold must be between 0.0 and 1.0"@)
    } else if url is Err {
        Err("judge.endpoint is not a valid URL"@)
    } else {
        match token_of(settings.judge.auth, secret) {
            Err(message) => Err(message),
            Ok(auth_token) => Ok(
                RouteView {
                    judge: JudgeView {
                        endpoint: settings.judge.endpoint@,
                        model: settings.judge.model@,
                        timeout_ms: value_or(settings.judge.timeout_ms, 5_000),
                        verify_tls: value_or(settings.judge.verify_tls, true),
                        auth_token,
                    },
                    weak: settings.weak@,
                    strong: settings.strong@,
                    threshold,
                    on_failure: value_or(settings.on_failure, FailureMode::Open),
                },
            ),
        }
    }
}

/// A configuration, or the complaint, by content.
pub open spec fn config_outcome(r: Result<RouteConfig, ConfigError>) -> Result<
    RouteView,
    Seq<char>,
> {
    match r {
        Ok(config) => Ok(config@),
        Err(error) => Err(error.message@),
    }
}

impl RouteConfig {
    /// Resolves a tier to its configured target.
    pub fn target(&self, tier: Tier) -> (target: &TargetConfig)
        ensures
            target@ == self@.target(tier),
            *target == (match tier {
                Tier::Weak => self.weak,
                Tier::Strong => self.strong,
            }),
    {
        match tier {
            Tier::Weak => &self.weak,
            Tier::Strong => &self.strong,
        }
    }
}

impl JudgeConfig {
    /// What a debug rendering shows in place of the token.
    pub fn shown_token(&self) -> (r: Option<&'static str>)
        ensures
            r is Some <==> self.auth_token is Some,
            r matches Some(text) ==> text@ == "[redacted]"@,
    {
        if self.auth_token.is_some() {
            Some("[redacted]")
        } else {
            None
        }
    }
}

/// Default of [`JudgeConfig::timeout_ms`]: 5 seconds.
pub fn default_timeout() -> (r: u64)
    ensures
        r == 5_000,
{
    5_000
}

/// Default of [`JudgeConfig::verify_tls`].
pub fn default_verify_tls() -> (r: bool)
    ensures
        r,
{
    true
}

/// A complaint, as it is told.
fn complaint(message: &str) -> (error: ConfigError)
    ensures
        error.message@ == message@,
{
    ConfigError { message: message.to_owned() }
}

/// Resolves the credential block against the content of the environment
/// variable that it names.
pub fn resolve_token(auth: &Option<JudgeAuthSettings>, secret: Option<String>) -> (r: Result<
    Option<String>,
    ConfigError,
>)
    ensures
        match r {
            Ok(token) => token_of(*auth, opt_text(secret)) == Ok::<Option<Seq<char>>, Seq<char>>(
                opt_text(token),
            ),
            Err(error) => token_of(*auth, opt_text(secret)) == Err::<Option<Seq<char>>, Seq<char>>(
                error.message@,
            ),
        },
{
    match auth {
        None => Ok(None),
        Some(block) => {
            if block.value_env.as_str().unicode_len() == 0 {
                return Err(complaint("judge.auth.value_env must not be empty"));
            }
            if let Some(text) = secret {
                if text.as_str().unicode_len() > 0 {
                    return Ok(Some(text));
                }
            }
            let mut message = join("judge.auth.value_env '", block.value_env.as_str());
            message.append("' is unset or empty");
            Err(complaint(message.as_str()))
        },
    }
}

/// Validates settings whose judge URL has been parsed, and fills in the
/// defaults. `secret` is the content of the environment variable that the
/// credential block names.
pub fn validate(
    settings: RouteSettings,
    url: &Result<UriParts, String>,
    secret: Option<String>,
) -> (r: Result<RouteConfig, ConfigError>)
    ensures
        config_outcome(r) == configured(settings, uri_outcome(*url), opt_text(secret)),
{
    let threshold = match settings.threshold {
        Some(threshold) => threshold,
        None => default_threshold(),
    };
    if !threshold.is_unit() {
        return Err(complaint("threshold must be between 0.0 and 1.0"));
    }
    if url.is_err() {
        return Err(complaint("judge.endpoint is not a valid URL"));
    }
    let auth_token = match resolve_token(&settings.judge.auth, secret) {
        Ok(token) => token,
        Err(error) => return Err(error),
    };
    let judge = JudgeConfig {
        endpoint: settings.judge.endpoint,
        model: settings.judge.model,
        timeout_ms: match settings.judge.timeout_ms {
            Some(timeout_ms) => timeout_ms,
            None => default_timeout(),
        },
        verify_tls: match settings.judge.verify_tls {
            Some(verify_tls) => verify_tls,
            None => default_verify_tls(),
        },
        auth_token,
    };
    Ok(
        RouteConfig {
            judge,
            weak: settings.weak,
            strong: settings.strong,
            threshold,
            on_failure: match settings.on_failure {
                Some(on_failure) => on_failure,
                None => FailureMode::default(),
            },
        },
    )
}

/// Validates settings and fills in the defaults. `secret` is the content of the
/// environment variable that the credential block names.
pub fn parse(settings: RouteSettings, secret: Option<String>) -> (r: Result<
    RouteConfig,
    ConfigError,
>)
    ensures
        config_outcome(r) == configured(
            settings,
            parsed_uri(settings.judge.endpoint@),
            opt_text(secret),
        ),
{
    let url = parse_uri(settings.judge.endpoint.as_str());
    validate(settings, &url, secret)
}

/// Every value that is written is the value in force, and the defaults apply
/// only where nothing is written: one half, 5 seconds, verified certificates,
/// open on failure. Targets, judge address and model are as written.
pub proof fn written_settings_are_in_force(
    settings: RouteSettings,
    url: Result<UriParts, String>,
    secret: Option<String>,
    r: Result<RouteConfig, ConfigError>,
)
    requires
        call_ensures(validate, (settings, &url, secret), r),
        r is Ok,
    ensures
        settings.threshold matches Some(threshold) ==> r->Ok_0.threshold == threshold,
        settings.threshold is None ==> r->Ok_0.threshold.bits == 0x3fe0_0000_0000_0000,
        settings.judge.timeout_ms matches Some(timeout_ms) ==> r->Ok_0.judge.timeout_ms
            == timeout_ms,
        settings.judge.timeout_ms is None ==> r->Ok_0.judge.timeout_ms == 5_000,
        settings.judge.verify_tls matches Some(verify_tls) ==> r->Ok_0.judge.verify_tls
            == verify_tls,
        settings.judge.verify_tls is None ==> r->Ok_0.judge.verify_tls,
        settings.on_failure matches Some(on_failure) ==> r->Ok_0.on_failure == on_failure,
        settings.on_failure is None ==> r->Ok_0.on_failure == FailureMode::Open,
        r->Ok_0.judge.endpoint@ == settings.judge.endpoint@,
        r->Ok_0.judge.model@ == settings.judge.model@,
        r->Ok_0.weak.cluster@ == settings.weak.cluster@,
        r->Ok_0.weak.model@ == settings.weak.model@,
        r->Ok_0.strong.cluster@ == settings.strong.cluster@,
        r->Ok_0.strong.model@ == settings.strong.model@,
        settings.judge.auth is None ==> r->Ok_0.judge.auth_token is None,
        settings.judge.auth is Some ==> r->Ok_0.judge.auth_token is Some && secret is Some
            && r->Ok_0.judge.auth_token->Some_0@ == secret->Some_0@,
{
    let config = r->Ok_0;
    assert(config_outcome(r) == Ok::<RouteView, Seq<char>>(config@));
    assert(config@.judge.auth_token == opt_text(config.judge.auth_token));
    assert(config@.weak == settings.weak@ && config@.strong == settings.strong@);
    assert(token_of(settings.judge.auth, opt_text(secret)) == Ok::<Option<Seq<char>>, Seq<char>>(
        opt_text(config.judge.auth_token),
    ));
}

/// Settings are accepted exactly where the threshold is a number from 0 to 1,
/// the judge's address is a URL, and a credential block names a variable that
/// is set to something; the first of these that fails is what the refusal
/// tells.
pub proof fn settings_are_accepted_exactly_where_they_are_sound(
    settings: RouteSettings,
    url: Result<UriParts, String>,
    secret: Option<String>,
    r: Result<RouteConfig, ConfigError>,
)
    requires
        call_ensures(validate, (settings, &url, secret), r),
    ensures
        ({
            let unit = settings.threshold matches Some(threshold) ==> threshold.bits
                <= 0x3ff0_0000_0000_0000 || threshold.bits == 0x8000_0000_0000_0000;
            let named = settings.judge.auth matches Some(block) ==> block.value_env@.len() > 0;
            let held = settings.judge.auth is Some ==> secret is Some && secret->Some_0@.len() > 0;
            &&& r is Ok <==> unit && url is Ok && named && held
            &&& !unit ==> r->Err_0.message@ == "threshold must be between 0.0 and 1.0"@
            &&& unit && url is Err ==> r->Err_0.message@ == "judge.endpoint is not a valid URL"@
            &&& unit && url is Ok && !named ==> r->Err_0.message@
                == "judge.auth.value_env must not be empty"@
            &&& unit && url is Ok && named && !held ==> r->Err_0.message@
                == "judge.auth.value_env '"@ + settings.judge.auth->Some_0.value_env@
                + "' is unset or empty"@
        }),
{
    assert(config_outcome(r) is Ok == r is Ok);
}

/// Settings as a whole are judged by their own address: what is accepted and
/// what is in force is the same as where the address was parsed before.
pub proof fn settings_are_parsed_with_their_own_address(
    settings: RouteSettings,
    url: Result<UriParts, String>,
    secret: Option<String>,
    whole: Result<RouteConfig, ConfigError>,
    parts: Result<RouteConfig, ConfigError>,
)
    requires
        call_ensures(parse, (settings, secret), whole),
        call_ensures(validate, (settings, &url, secret), parts),
    ensures
        uri_outcome(url) == parsed_uri(settings.judge.endpoint@) ==> {
            &&& whole is Ok == parts is Ok
            &&& whole is Ok ==> whole->Ok_0@ == parts->Ok_0@
            &&& whole is Err ==> whole->Err_0.message@ == parts->Err_0.message@
        },
        whole is Ok ==> {
            &&& settings.threshold matches Some(threshold) ==> whole->Ok_0.threshold == threshold
            &&& settings.on_failure matches Some(mode) ==> whole->Ok_0.on_failure == mode
            &&& settings.judge.timeout_ms matches Some(timeout_ms) ==> whole->Ok_0.judge.timeout_ms
                == timeout_ms
            &&& settings.judge.verify_tls matches Some(verify_tls) ==> whole->Ok_0.judge.verify_tls
                == verify_tls
        },
{
    assert(config_outcome(whole) is Ok == whole is Ok);
}

/// A tier resolves to the target of its own name, and a token is never shown.
pub proof fn tiers_resolve_to_their_own_target(
    config: RouteConfig,
    tier: Tier,
    r: TargetConfig,
    shown: Option<&'static str>,
)
    requires
        call_ensures(RouteConfig::target, (&config, tier), &r),
        call_ensures(JudgeConfig::shown_token, (&config.judge,), shown),
    ensures
        tier == Tier::Weak ==> r == config.weak && config@.target(tier).cluster
            == config.weak.cluster@ && config@.target(tier).model == config.weak.model@,
        tier == Tier::Strong ==> r == config.strong && config@.target(tier).cluster
            == config.strong.cluster@ && config@.target(tier).model == config.strong.model@,
        config.judge.auth_token is None ==> shown is None,
        config.judge.auth_token is Some ==> shown is Some && shown->Some_0@ == "[redacted]"@,
{
}

} // verus!
