//! The judge endpoint: its address, its credential, and the callout to it.
//!
//! The URL is parsed once, when the filter is configured. At call time every
//! address of the host is resolved and tried until one connects, the URL's
//! authority is preserved as `Host`, and one deadline bounds the whole exchange.

use vstd::prelude::*;
use vstd::string::*;
use vstd::utf8::*;

use super::config::{JudgeAuthConfig, JudgeAuthView, JudgeConfig, JudgeView};
use super::error::{RouteError, RouteFault};
use crate::config::{settled_as, ConfigError};
use crate::judge::{resolved_addresses, JudgeRequest};
use crate::text::{
    decimal, decimal_text, join, lower_char, lowered, strip_end, strip_start, text_eq,
};
use crate::wire::{
    bare_host, check_header_value, copy_uri, header_fields, header_name, insert_header, is_header_name,
    is_header_value, is_token_char, new_headers, no_fields, opt_text, parse_uri, parsed_uri,
    request_target, target_text, uri_outcome, with_header, HeaderField, UriParts, UriView,
};

verus! {

/// A header that carries a credential.
#[derive(Clone)]
pub struct Credential {
    /// Header name, in lower case.
    pub name: String,
    /// Header value.
    pub value: String,
    /// Whether the value must be kept out of debug output.
    pub sensitive: bool,
}

/// The content of a [`Credential`].
pub struct CredentialView {
    pub name: Seq<char>,
    pub value: Seq<char>,
    pub sensitive: bool,
}

impl View for Credential {
    type V = CredentialView;

    open spec fn view(&self) -> CredentialView {
        CredentialView { name: self.name@, value: self.value@, sensitive: self.sensitive }
    }
}

/// A judge endpoint parsed once at configuration time.
#[derive(Clone)]
pub struct JudgeEndpoint {
    /// Whether to establish a TLS connection.
    pub tls: bool,
    /// DNS hostname or literal address.
    pub host: String,
    /// Destination TCP port.
    pub port: u16,
    /// TLS server name; empty for cleartext HTTP.
    pub sni: String,
    /// Original URL authority, preserved as the `Host` header.
    pub authority: String,
    /// Path and query sent to the judge.
    pub uri: UriParts,
    /// Resolved credential; `None` for a keyless judge.
    pub auth: Option<Credential>,
}

/// The content of a [`JudgeEndpoint`].
pub struct EndpointView {
    pub tls: bool,
    pub host: Seq<char>,
    pub port: u16,
    pub sni: Seq<char>,
    pub authority: Seq<char>,
    pub uri: UriView,
    pub auth: Option<CredentialView>,
}

/// The content of an optional credential.
pub open spec fn credential_view(auth: Option<Credential>) -> Option<CredentialView> {
    match auth {
        Some(credential) => Some(credential@),
        None => None,
    }
}

impl View for JudgeEndpoint {
    type V = EndpointView;

    open spec fn view(&self) -> EndpointView {
        EndpointView {
            tls: self.tls,
            host: self.host@,
            port: self.port,
            sni: self.sni@,
            authority: self.authority@,
            uri: self.uri@,
            auth: credential_view(self.auth),
        }
    }
}

impl EndpointView {
    /// Whether the authority and the credential can be sent as headers.
    pub open spec fn sendable(self) -> bool {
        &&& is_header_value(self.authority)
        &&& self.auth matches Some(credential) ==> is_header_name(credential.name)
            && is_header_value(credential.value)
    }
}

/// What every endpoint message starts with.
pub open spec fn endpoint_text(message: Seq<char>) -> Seq<char> {
    "switchyard_route: judge.endpoint "@ + message
}

/// What every credential message starts with.
pub open spec fn auth_text(message: Seq<char>) -> Seq<char> {
    "switchyard_route: judge.auth "@ + message
}

/// Whether a URL asks for TLS, or why it cannot be dialled.
pub open spec fn tls_of(uri: UriView) -> Result<bool, Seq<char>> {
    match uri.scheme {
        None => Err(endpoint_text("must be an absolute http(s) URL"@)),
        Some(scheme) => if scheme == "https"@ {
            Ok(true)
        } else if scheme == "http"@ {
            Ok(false)
        } else {
            Err(endpoint_text("unsupported scheme '"@ + scheme + "'"@))
        },
    }
}

/// The endpoint that a parsed URL and its parsed request target make, without
/// a credential; or the first complaint.
pub open spec fn dialled(uri: UriView, target: Result<UriView, Seq<char>>) -> Result<
    EndpointView,
    Seq<char>,
> {
    match tls_of(uri) {
        Err(message) => Err(message),
        Ok(tls) => match uri.authority {
            None => Err(endpoint_text("missing host"@)),
            Some(authority) => if !is_header_value(authority.text) {
                Err(endpoint_text("invalid authority: failed to parse header value"@))
            } else {
                match target {
                    Err(error) => Err(endpoint_text("bad path: "@ + error)),
                    Ok(path) => Ok(
                        EndpointView {
                            tls,
                            host: bare_host(authority.host),
                            port: match authority.port {
                                Some(port) => port,
                                None => if tls { 443 } else { 80 },
                            },
                            sni: if tls { bare_host(authority.host) } else { Seq::empty() },
                            authority: authority.text,
                            uri: path,
                            auth: None,
                        },
                    ),
                }
            },
        },
    }
}

/// The endpoint that a URL's text makes, without a credential.
pub open spec fn endpoint_at(url: Seq<char>) -> Result<EndpointView, Seq<char>> {
    match parsed_uri(url) {
        Err(error) => Err(endpoint_text("not a valid URL: "@ + error)),
        Ok(uri) => dialled(uri, parsed_uri(request_target(uri))),
    }
}

/// The value a secret is sent as: behind the scheme and a blank, or alone where
/// the scheme is empty.
pub open spec fn rendered(scheme: Seq<char>, secret: Seq<char>) -> Seq<char> {
    if scheme.len() == 0 {
        secret
    } else {
        scheme + " "@ + secret
    }
}

/// The credential that a secret makes, or the first complaint. No complaint
/// depends on the secret's text.
pub open spec fn assembled(auth: JudgeAuthView, secret: Seq<char>) -> Result<
    CredentialView,
    Seq<char>,
> {
    if !is_header_name(auth.header) {
        Err(auth_text("invalid header name: invalid HTTP header name"@))
    } else if !is_header_value(rendered(auth.scheme, secret)) {
        Err(auth_text("resolved credential is not a valid header value"@))
    } else {
        Ok(
            CredentialView {
                name: lowered(auth.header),
                value: rendered(auth.scheme, secret),
                sensitive: true,
            },
        )
    }
}

/// The credential that the content of the environment variable makes. A missing
/// variable and an empty one are refused alike.
pub open spec fn resolved(auth: JudgeAuthView, secret: Option<Seq<char>>) -> Result<
    CredentialView,
    Seq<char>,
> {
    match secret {
        Some(text) if text.len() > 0 => assembled(auth, text),
        _ => Err(auth_text("credential env var '"@ + auth.value_env + "' is unset or empty"@)),
    }
}

/// The endpoint of a judge configuration, given the content of the variable
/// that its credential block names.
pub open spec fn configured(judge: JudgeView, secret: Option<Seq<char>>) -> Result<
    EndpointView,
    Seq<char>,
> {
    match endpoint_at(judge.endpoint) {
        Err(message) => Err(message),
        Ok(endpoint) => match judge.auth {
            None => Ok(endpoint),
            Some(auth) => match resolved(auth, secret) {
                Err(message) => Err(message),
                Ok(credential) => Ok(EndpointView { auth: Some(credential), ..endpoint }),
            },
        },
    }
}

/// The header fields of a callout.
pub open spec fn callout_fields(endpoint: EndpointView) -> Map<Seq<char>, Seq<HeaderField>> {
    let plain = with_header(
        with_header(no_fields(), "host"@, endpoint.authority, false),
        "content-type"@,
        "application/json"@,
        false,
    );
    match endpoint.auth {
        Some(credential) => with_header(
            plain,
            credential.name,
            credential.value,
            credential.sensitive,
        ),
        None => plain,
    }
}

proof fn lowered_name_is_a_name(name: Seq<char>)
    requires
        is_header_name(name),
    ensures
        is_header_name(lowered(name)),
{
    assert forall|i: int| 0 <= i < lowered(name).len() implies is_token_char(
        #[trigger] lowered(name)[i],
    ) by {
        assert(is_token_char(name[i]));
        assert(lowered(name)[i] == lower_char(name[i]));
    }
}

/// Builds an endpoint-shaped configuration error.
pub fn endpoint_error(message: &str) -> (error: ConfigError)
    ensures
        error.message@ == endpoint_text(message@),
{
    ConfigError { message: join("switchyard_route: judge.endpoint ", message) }
}

/// Builds a credential-shaped configuration error.
pub fn auth_error(message: &str) -> (error: ConfigError)
    ensures
        error.message@ == auth_text(message@),
{
    ConfigError { message: join("switchyard_route: judge.auth ", message) }
}

/// Maps the URL scheme to a TLS decision.
pub fn parse_tls(parsed: &UriParts) -> (r: Result<bool, ConfigError>)
    ensures
        match r {
            Ok(tls) => tls_of(parsed@) == Ok::<bool, Seq<char>>(tls),
            Err(error) => tls_of(parsed@) == Err::<bool, Seq<char>>(error.message@),
        },
{
    match &parsed.scheme {
        None => Err(endpoint_error("must be an absolute http(s) URL")),
        Some(scheme) => {
            if text_eq(scheme.as_str(), "https") {
                Ok(true)
            } else if text_eq(scheme.as_str(), "http") {
                Ok(false)
            } else {
                let message = join(
                    join("unsupported scheme '", scheme.as_str()).as_str(),
                    "'",
                );
                Err(endpoint_error(message.as_str()))
            }
        },
    }
}

impl JudgeEndpoint {
    /// Makes the endpoint of a parsed URL and the outcome of parsing its
    /// request target, without a credential.
    pub fn from_parts(parsed: UriParts, target: Result<UriParts, String>) -> (r: Result<
        JudgeEndpoint,
        ConfigError,
    >)
        ensures
            settled_as(r) == dialled(parsed@, uri_outcome(target)),
            r matches Ok(endpoint) ==> endpoint@.sendable(),
    {
        let tls = match parse_tls(&parsed) {
            Ok(tls) => tls,
            Err(error) => return Err(error),
        };
        let authority = match parsed.authority {
            Some(authority) => authority,
            None => return Err(endpoint_error("missing host")),
        };
        let host = strip_end(strip_start(authority.host.as_str(), '[').as_str(), ']');
        let port: u16 = match authority.port {
            Some(port) => port,
            None => if tls {
                443
            } else {
                80
            },
        };
        let sni = if tls {
            host.clone()
        } else {
            String::new()
        };
        if let Err(error) = check_header_value(authority.text.as_str()) {
            proof {
                reveal_strlit("invalid authority: ");
                reveal_strlit("failed to parse header value");
                reveal_strlit("invalid authority: failed to parse header value");
                assert("invalid authority: "@ + "failed to parse header value"@
                    =~= "invalid authority: failed to parse header value"@);
            }
            return Err(endpoint_error(join("invalid authority: ", error.as_str()).as_str()));
        }
        let uri = match target {
            Ok(uri) => uri,
            Err(error) => return Err(endpoint_error(join("bad path: ", error.as_str()).as_str())),
        };
        Ok(JudgeEndpoint { tls, host, port, sni, authority: authority.text, uri, auth: None })
    }

    /// Parses an absolute http(s) URL into its connection components.
    pub fn parse_url(endpoint: &str) -> (r: Result<JudgeEndpoint, ConfigError>)
        ensures
            settled_as(r) == endpoint_at(endpoint@),
            r matches Ok(parsed) ==> parsed@.sendable(),
    {
        match parse_uri(endpoint) {
            Err(error) => Err(endpoint_error(join("not a valid URL: ", error.as_str()).as_str())),
            Ok(parsed) => {
                let target = parse_uri(target_text(&parsed).as_str());
                JudgeEndpoint::from_parts(parsed, target)
            },
        }
    }

    /// Parses the judge URL and resolves its optional credential, so both are
    /// ready before the first request. `secret` is the content of the
    /// environment variable that the credential block names.
    pub fn from_config(judge: &JudgeConfig, secret: Option<String>) -> (r: Result<
        JudgeEndpoint,
        ConfigError,
    >)
        ensures
            settled_as(r) == configured(judge@, opt_text(secret)),
            r matches Ok(endpoint) ==> endpoint@.sendable(),
    {
        let mut endpoint = match JudgeEndpoint::parse_url(judge.endpoint.as_str()) {
            Ok(endpoint) => endpoint,
            Err(error) => return Err(error),
        };
        if let Some(auth) = &judge.auth {
            match resolve_auth(auth, secret) {
                Ok(credential) => {
                    endpoint.auth = Some(credential);
                },
                Err(error) => return Err(error),
            }
        }
        Ok(endpoint)
    }
}

/// Resolves a credential block against the content of the environment variable
/// that it names.
pub fn resolve_auth(auth: &JudgeAuthConfig, secret: Option<String>) -> (r: Result<
    Credential,
    ConfigError,
>)
    ensures
        settled_as(r) == resolved(auth@, opt_text(secret)),
        r matches Ok(credential) ==> is_header_name(credential.name@) && is_header_value(
            credential.value@,
        ),
{
    if let Some(text) = secret {
        if text.as_str().unicode_len() > 0 {
            return assemble_auth(auth, text.as_str());
        }
    }
    let mut message = join("credential env var '", auth.value_env.as_str());
    message.append("' is unset or empty");
    Err(auth_error(message.as_str()))
}

/// Assembles a credential from an already resolved secret.
pub fn assemble_auth(auth: &JudgeAuthConfig, secret: &str) -> (r: Result<Credential, ConfigError>)
    ensures
        settled_as(r) == assembled(auth@, secret@),
        r matches Ok(credential) ==> is_header_name(credential.name@) && is_header_value(
            credential.value@,
        ),
{
    let name = match header_name(auth.header.as_str()) {
        Ok(name) => name,
        Err(error) => {
            proof {
                reveal_strlit("invalid header name: ");
                reveal_strlit("invalid HTTP header name");
                reveal_strlit("invalid header name: invalid HTTP header name");
                assert("invalid header name: "@ + "invalid HTTP header name"@
                    =~= "invalid header name: invalid HTTP header name"@);
            }
            return Err(auth_error(join("invalid header name: ", error.as_str()).as_str()));
        },
    };
    let value = if auth.scheme.as_str().unicode_len() == 0 {
        secret.to_owned()
    } else {
        join(join(auth.scheme.as_str(), " ").as_str(), secret)
    };
    if check_header_value(value.as_str()).is_err() {
        return Err(auth_error("resolved credential is not a valid header value"));
    }
    proof {
        lowered_name_is_a_name(auth.header@);
    }
    Ok(Credential { name, value, sensitive: true })
}

/// What came of one attempt to reach the judge at one address.
#[derive(Debug)]
pub enum Attempt {
    /// The judge replied.
    Replied {
        /// Status code of the reply.
        status: u16,
        /// Body of the reply.
        body: Vec<u8>,
    },
    /// No connection came about.
    ConnectFailed(String),
    /// The exchange failed after the connection had come about.
    Failed(String),
}

/// The content of an [`Attempt`].
pub enum AttemptView {
    Replied { status: u16, body: Seq<u8> },
    ConnectFailed(Seq<char>),
    Failed(Seq<char>),
}

impl View for Attempt {
    type V = AttemptView;

    open spec fn view(&self) -> AttemptView {
        match *self {
            Attempt::Replied { status, body } => AttemptView::Replied { status, body: body@ },
            Attempt::ConnectFailed(message) => AttemptView::ConnectFailed(message@),
            Attempt::Failed(message) => AttemptView::Failed(message@),
        }
    }
}

/// A reply body, or the failure, by content.
pub open spec fn reply(r: Result<Vec<u8>, RouteError>) -> Result<Seq<u8>, RouteFault> {
    match r {
        Ok(body) => Ok(body@),
        Err(error) => Err(error@),
    }
}

/// What a status makes of a reply: its body for 2xx, a failure for the rest.
pub open spec fn accepted(status: u16, body: Seq<u8>) -> Result<Seq<u8>, RouteFault> {
    if 200 <= status <= 299 {
        Ok(body)
    } else {
        Err(RouteFault::Judge("judge returned HTTP "@ + decimal_text(status as nat)))
    }
}

/// What one attempt decides: nothing when no connection came about.
pub open spec fn decided(attempt: AttemptView) -> Option<Result<Seq<u8>, RouteFault>> {
    match attempt {
        AttemptView::Replied { status, body } => Some(accepted(status, body)),
        AttemptView::ConnectFailed(_) => None,
        AttemptView::Failed(message) => Some(Err(RouteFault::Judge(message))),
    }
}

/// The message of the last attempt, where it failed to connect.
pub open spec fn last_refusal(attempts: Seq<AttemptView>) -> Option<Seq<char>> {
    if attempts.len() == 0 {
        None
    } else {
        match attempts.last() {
            AttemptView::ConnectFailed(message) => Some(message),
            _ => None,
        }
    }
}

/// The failure once no address is left.
pub open spec fn exhausted(host: Seq<char>, last: Option<Seq<char>>) -> RouteFault {
    match last {
        None => RouteFault::Judge("no addresses resolved for "@ + host),
        Some(message) => RouteFault::Judge(
            "all resolved addresses for "@ + host + " failed: "@ + message,
        ),
    }
}

/// What trying the addresses in turn comes to: the first attempt that decides
/// anything does.
pub open spec fn callout(host: Seq<char>, attempts: Seq<AttemptView>) -> Result<
    Seq<u8>,
    RouteFault,
> {
    callout_from(host, None, attempts)
}

/// As [`callout`], after earlier attempts the last of which failed to connect
/// with `last`.
pub open spec fn callout_from(
    host: Seq<char>,
    last: Option<Seq<char>>,
    attempts: Seq<AttemptView>,
) -> Result<Seq<u8>, RouteFault>
    decreases attempts.len(),
{
    if attempts.len() == 0 {
        Err(exhausted(host, last))
    } else {
        match decided(attempts[0]) {
            Some(result) => result,
            None => callout_from(
                host,
                last_refusal(attempts.take(1)),
                attempts.drop_first(),
            ),
        }
    }
}

/// The judge callout of one request: which addresses were tried, and what is
/// still to be done.
pub struct SubRequestJudge<'req> {
    /// The parsed judge endpoint.
    endpoint: &'req JudgeEndpoint,
    /// Deadline in milliseconds covering name resolution and the exchange.
    timeout_ms: u64,
    /// Largest accepted reply in bytes.
    max_response_bytes: usize,
    /// Why the last address that was tried did not connect.
    last_connect_error: Option<String>,
}

impl<'req> SubRequestJudge<'req> {
    /// The endpoint that is called.
    pub closed spec fn endpoint(&self) -> EndpointView {
        self.endpoint@
    }

    /// The deadline in milliseconds.
    pub closed spec fn deadline(&self) -> u64 {
        self.timeout_ms
    }

    /// The reply size cap in bytes.
    pub closed spec fn cap(&self) -> usize {
        self.max_response_bytes
    }

    /// Why the last address that was tried did not connect.
    pub closed spec fn last(&self) -> Option<Seq<char>> {
        opt_text(self.last_connect_error)
    }

    /// Assembles the callout from config-time parts; no address is tried yet.
    pub fn new(endpoint: &'req JudgeEndpoint, judge: &JudgeConfig) -> (callout: SubRequestJudge<
        'req,
    >)
        ensures
            callout.endpoint() == endpoint@,
            callout.deadline() == judge.timeout_ms,
            callout.cap() == judge.max_response_bytes,
            callout.last() is None,
    {
        SubRequestJudge {
            endpoint,
            timeout_ms: judge.timeout(),
            max_response_bytes: judge.max_response_bytes,
            last_connect_error: None,
        }
    }

    /// The deadline in milliseconds.
    pub fn timeout_ms(&self) -> (r: u64)
        ensures
            r == self.deadline(),
    {
        self.timeout_ms
    }

    /// The reply size cap in bytes.
    pub fn max_response_bytes(&self) -> (r: usize)
        ensures
            r == self.cap(),
    {
        self.max_response_bytes
    }

    /// Builds the POST request carrying the encoded judge body.
    pub fn build_request(&self, body: Vec<u8>) -> (request: JudgeRequest)
        requires
            self.endpoint().sendable(),
        ensures
            request.method@ == "POST"@,
            request.uri@ == self.endpoint().uri,
            header_fields(request.headers) == callout_fields(self.endpoint()),
            request.body@ == body@,
    {
        let mut headers = new_headers();
        proof {
            reveal_strlit("host");
            reveal_strlit("content-type");
            reveal_strlit("application/json");
        }
        insert_header(&mut headers, "host", self.endpoint.authority.as_str(), false);
        insert_header(&mut headers, "content-type", "application/json", false);
        if let Some(credential) = &self.endpoint.auth {
            insert_header(
                &mut headers,
                credential.name.as_str(),
                credential.value.as_str(),
                credential.sensitive,
            );
        }
        JudgeRequest { method: "POST", uri: copy_uri(&self.endpoint.uri), headers, body }
    }

    /// Takes what came of the attempt at the next address: the outcome of the
    /// callout where the attempt decides it, nothing where the next address is
    /// to be tried.
    pub fn record(&mut self, attempt: Attempt) -> (r: Option<Result<Vec<u8>, RouteError>>)
        ensures
            match r {
                Some(result) => decided(attempt@) == Some(reply(result)) && *final(self) == *old(
                    self,
                ),
                None => decided(attempt@) is None,
            },
            final(self).endpoint() == old(self).endpoint(),
            final(self).deadline() == old(self).deadline(),
            final(self).cap() == old(self).cap(),
            attempt@ matches AttemptView::ConnectFailed(message) ==> final(self).last() == Some(
                message,
            ),
            forall|rest: Seq<AttemptView>| #[trigger]
                callout_from(old(self).endpoint().host, old(self).last(), seq![attempt@] + rest) == (
                match r {
                    Some(result) => reply(result),
                    None => callout_from(final(self).endpoint().host, final(self).last(), rest),
                }),
    {
        proof {
            let host = self.endpoint().host;
            let last = self.last();
            assert forall|rest: Seq<AttemptView>| #[trigger]
                callout_from(host, last, seq![attempt@] + rest) == (match decided(attempt@) {
                    Some(result) => result,
                    None => callout_from(host, last_refusal(seq![attempt@]), rest),
                }) by {
                let all = seq![attempt@] + rest;
                assert(all[0] == attempt@);
                assert(all.take(1) =~= seq![attempt@]);
                assert(all.drop_first() =~= rest);
            }
        }
        match attempt {
            Attempt::Replied { status, body } => Some(check_status(status, body)),
            Attempt::ConnectFailed(message) => {
                self.last_connect_error = Some(message);
                None
            },
            Attempt::Failed(message) => Some(Err(RouteError::Judge(message))),
        }
    }

    /// The failure once no address is left.
    pub fn exhausted(&self) -> (error: RouteError)
        ensures
            error@ == exhausted(self.endpoint().host, self.last()),
            callout_from(self.endpoint().host, self.last(), Seq::empty()) == Err::<
                Seq<u8>,
                RouteFault,
            >(error@),
    {
        let host = self.endpoint.host.as_str();
        match &self.last_connect_error {
            None => RouteError::Judge(join("no addresses resolved for ", host)),
            Some(message) => {
                let mut text = join("all resolved addresses for ", host);
                text.append(" failed: ");
                text.append(message.as_str());
                RouteError::Judge(text)
            },
        }
    }

    /// Takes the outcome of resolving the host: the number of addresses found,
    /// or the resolver's error.
    pub fn check_resolution(&self, found: Result<usize, String>) -> (r: Result<(), RouteError>)
        ensures
            r is Ok <==> (found matches Ok(count) && count > 0),
            r matches Err(error) ==> error@ == RouteFault::Judge(
                match found {
                    Ok(_) => "no addresses resolved for "@ + self.endpoint().host,
                    Err(message) => "DNS resolution failed for "@ + self.endpoint().host + ": "@
                        + message@,
                },
            ),
    {
        match resolved_addresses(self.endpoint.host.as_str(), found) {
            Ok(()) => Ok(()),
            Err(message) => Err(RouteError::Judge(message)),
        }
    }
}

/// Accepts 2xx judge replies and rejects everything else.
pub fn check_status(status: u16, body: Vec<u8>) -> (r: Result<Vec<u8>, RouteError>)
    ensures
        reply(r) == accepted(status, body@),
{
    if status >= 200 && status <= 299 {
        Ok(body)
    } else {
        Err(RouteError::Judge(join("judge returned HTTP ", decimal(status as u64).as_str())))
    }
}

/// The failure of a callout that outlasts its deadline.
pub fn deadline_exceeded() -> (error: RouteError)
    ensures
        error@ == RouteFault::Judge("deadline exceeded"@),
{
    RouteError::Judge("deadline exceeded".to_owned())
}

/// No refusal echoes a secret: two secrets that are both refused are refused
/// with one message. A credential that is accepted is marked as sensitive.
pub proof fn refusals_never_echo_the_secret(
    auth: JudgeAuthView,
    one: Seq<char>,
    other: Seq<char>,
)
    requires
        one.len() > 0,
        other.len() > 0,
    ensures
        resolved(auth, Some(one)) is Err && resolved(auth, Some(other)) is Err ==> resolved(
            auth,
            Some(one),
        ) == resolved(auth, Some(other)),
        resolved(auth, Some(one)) matches Ok(credential) ==> credential.sensitive,
{
}

/// Addresses that do not connect change nothing but the message that is left
/// when none does: the callout comes to what the first attempt that connects
/// decides, and fails with the last connect error when there is none.
pub proof fn callout_falls_back(host: Seq<char>, attempts: Seq<AttemptView>, at: int)
    requires
        0 <= at <= attempts.len(),
        forall|i: int| 0 <= i < at ==> #[trigger] attempts[i] is ConnectFailed,
        at < attempts.len() ==> !(attempts[at] is ConnectFailed),
    ensures
        at < attempts.len() ==> Some(callout(host, attempts)) == decided(attempts[at]),
        at == attempts.len() ==> callout(host, attempts) == Err::<Seq<u8>, RouteFault>(
            exhausted(host, last_refusal(attempts)),
        ),
{
    callout_from_falls_back(host, None, attempts, at);
}

proof fn callout_from_falls_back(
    host: Seq<char>,
    last: Option<Seq<char>>,
    attempts: Seq<AttemptView>,
    at: int,
)
    requires
        0 <= at <= attempts.len(),
        forall|i: int| 0 <= i < at ==> #[trigger] attempts[i] is ConnectFailed,
        at < attempts.len() ==> !(attempts[at] is ConnectFailed),
    ensures
        at < attempts.len() ==> Some(callout_from(host, last, attempts)) == decided(attempts[at]),
        at == attempts.len() ==> callout_from(host, last, attempts) == Err::<Seq<u8>, RouteFault>(
            exhausted(
                host,
                if attempts.len() == 0 {
                    last
                } else {
                    last_refusal(attempts)
                },
            ),
        ),
    decreases attempts.len(),
{
    if at > 0 {
        let rest = attempts.drop_first();
        assert(attempts[0] is ConnectFailed);
        assert forall|i: int| 0 <= i < at - 1 implies #[trigger] rest[i] is ConnectFailed by {
            assert(attempts[i + 1] is ConnectFailed);
        }
        callout_from_falls_back(host, last_refusal(attempts.take(1)), rest, at - 1);
        if rest.len() == 0 {
            assert(attempts.take(1) =~= attempts);
        } else {
            assert(rest.last() == attempts.last());
        }
    }
}

/// An endpoint is dialled as its URL says: TLS exactly for `https`, the port as
/// written or else that of the scheme, the host without brackets, and the
/// authority and the request target as they are. It is refused exactly where
/// the scheme is another one, a host is missing, or the authority or the target
/// cannot be sent; the first of these is told.
pub proof fn endpoints_are_dialled_as_written(
    parsed: UriParts,
    target: Result<UriParts, String>,
    r: Result<JudgeEndpoint, ConfigError>,
)
    requires
        call_ensures(JudgeEndpoint::from_parts, (parsed, target), r),
    ensures
        ({
            let https = parsed.scheme is Some && parsed.scheme->Some_0@ == "https"@;
            let http = parsed.scheme is Some && parsed.scheme->Some_0@ == "http"@;
            let known = https || http;
            let hosted = known && parsed.authority is Some;
            let authority = parsed.authority->Some_0;
            let sendable = hosted && is_header_value(authority.text@);
            &&& r is Ok <==> sendable && target is Ok
            &&& r is Ok ==> {
                let endpoint = r->Ok_0;
                &&& endpoint.tls == https
                &&& endpoint.host@ == bare_host(authority.host@)
                &&& authority.port matches Some(port) ==> endpoint.port == port
                &&& authority.port is None && https ==> endpoint.port == 443
                &&& authority.port is None && http ==> endpoint.port == 80
                &&& https ==> endpoint.sni@ == endpoint.host@
                &&& http ==> endpoint.sni@.len() == 0
                &&& endpoint.authority@ == authority.text@
                &&& endpoint.uri@ == target->Ok_0@
                &&& endpoint.auth is None
            }
            &&& parsed.scheme is None ==> r->Err_0.message@ == "switchyard_route: judge.endpoint "@
                + "must be an absolute http(s) URL"@
            &&& parsed.scheme is Some && !known ==> r->Err_0.message@
                == "switchyard_route: judge.endpoint "@ + ("unsupported scheme '"@
                + parsed.scheme->Some_0@ + "'"@)
            &&& known && !hosted ==> r->Err_0.message@ == "switchyard_route: judge.endpoint "@
                + "missing host"@
            &&& hosted && !sendable ==> r->Err_0.message@ == "switchyard_route: judge.endpoint "@
                + "invalid authority: failed to parse header value"@
            &&& sendable && target is Err ==> r->Err_0.message@
                == "switchyard_route: judge.endpoint "@ + ("bad path: "@ + target->Err_0@)
        }),
{
    reveal_strlit("http");
    reveal_strlit("https");
    assert("http"@.len() != "https"@.len());
    assert(settled_as(r) is Ok == r is Ok);
    if r is Ok {
        let view = r->Ok_0@;
        assert(view.auth == credential_view(r->Ok_0.auth));
        assert(view.tls == r->Ok_0.tls && view.port == r->Ok_0.port && view.sni == r->Ok_0.sni@);
        assert(parsed@.authority == Some(parsed.authority->Some_0@));
    }
}

/// A URL's text makes the endpoint of what it parses to, with its own request
/// target.
pub proof fn urls_make_the_endpoint_they_parse_to(
    text: &str,
    whole: Result<JudgeEndpoint, ConfigError>,
    parsed: UriParts,
    target: Result<UriParts, String>,
    parts: Result<JudgeEndpoint, ConfigError>,
)
    requires
        call_ensures(JudgeEndpoint::parse_url, (text,), whole),
        call_ensures(JudgeEndpoint::from_parts, (parsed, target), parts),
    ensures
        parsed_uri(text@) matches Err(why) ==> whole is Err && whole->Err_0.message@
            == "switchyard_route: judge.endpoint "@ + ("not a valid URL: "@ + why),
        parsed_uri(text@) == Ok::<UriView, Seq<char>>(parsed@) && uri_outcome(target)
            == parsed_uri(
            match parsed.path_and_query {
                Some(written) => written@,
                None => "/"@,
            },
        ) ==> {
            &&& whole is Ok == parts is Ok
            &&& whole is Ok ==> whole->Ok_0@ == parts->Ok_0@
            &&& whole is Err ==> whole->Err_0.message@ == parts->Err_0.message@
        },
{
    assert(settled_as(whole) is Ok == whole is Ok);
    assert(settled_as(parts) is Ok == parts is Ok);
}

/// A secret is sent behind its scheme and a blank, or alone where the scheme is
/// empty, under the configured header in lower case, and is kept out of debug
/// output. It is refused where it is missing or empty, where the header is no
/// header name, and where it cannot be sent.
pub proof fn secrets_are_sent_as_configured(
    auth: JudgeAuthConfig,
    secret: Option<String>,
    r: Result<Credential, ConfigError>,
)
    requires
        call_ensures(resolve_auth, (&auth, secret), r),
    ensures
        ({
            let held = secret is Some && secret->Some_0@.len() > 0;
            let value = if auth.scheme@.len() == 0 {
                secret->Some_0@
            } else {
                auth.scheme@ + " "@ + secret->Some_0@
            };
            let named = held && is_header_name(auth.header@);
            &&& r is Ok <==> named && is_header_value(value)
            &&& r is Ok ==> {
                &&& r->Ok_0.name@ == lowered(auth.header@)
                &&& r->Ok_0.value@ == value
                &&& r->Ok_0.sensitive
            }
            &&& !held ==> r->Err_0.message@ == "switchyard_route: judge.auth "@ + (
            "credential env var '"@ + auth.value_env@ + "' is unset or empty"@)
            &&& held && !named ==> r->Err_0.message@ == "switchyard_route: judge.auth "@
                + "invalid header name: invalid HTTP header name"@
            &&& named && !is_header_value(value) ==> r->Err_0.message@
                == "switchyard_route: judge.auth "@
                + "resolved credential is not a valid header value"@
        }),
{
    assert(settled_as(r) is Ok == r is Ok);
}

/// A configured endpoint is that of its URL, with the credential where a block
/// asks for one and without where none does; a fault of either is told, the
/// URL's first.
pub proof fn endpoints_carry_their_credential(
    judge: JudgeConfig,
    secret: Option<String>,
    r: Result<JudgeEndpoint, ConfigError>,
    url: &str,
    dialled_at: Result<JudgeEndpoint, ConfigError>,
    auth: Result<Credential, ConfigError>,
)
    requires
        call_ensures(JudgeEndpoint::from_config, (&judge, secret), r),
        url@ == judge.endpoint@,
        call_ensures(JudgeEndpoint::parse_url, (url,), dialled_at),
        judge.auth is Some ==> call_ensures(resolve_auth, (&judge.auth->Some_0, secret), auth),
    ensures
        dialled_at is Err ==> r is Err && r->Err_0.message@ == dialled_at->Err_0.message@,
        dialled_at is Ok && judge.auth is Some && auth is Err ==> r is Err && r->Err_0.message@
            == auth->Err_0.message@,
        dialled_at is Ok && (judge.auth is Some ==> auth is Ok) ==> {
            &&& r is Ok
            &&& r->Ok_0.tls == dialled_at->Ok_0.tls
            &&& r->Ok_0.host@ == dialled_at->Ok_0.host@
            &&& r->Ok_0.port == dialled_at->Ok_0.port
            &&& r->Ok_0.sni@ == dialled_at->Ok_0.sni@
            &&& r->Ok_0.authority@ == dialled_at->Ok_0.authority@
            &&& r->Ok_0.uri@ == dialled_at->Ok_0.uri@
            &&& judge.auth is None ==> credential_view(r->Ok_0.auth) == credential_view(
                dialled_at->Ok_0.auth,
            )
            &&& judge.auth is Some ==> r->Ok_0.auth is Some && r->Ok_0.auth->Some_0@
                == auth->Ok_0@
        },
{
    assert(settled_as(r) is Ok == r is Ok);
    assert(settled_as(dialled_at) is Ok == dialled_at is Ok);
    if judge.auth is Some {
        assert(settled_as(auth) is Ok == auth is Ok);
        assert(judge@.auth == Some(judge.auth->Some_0@));
    }
    if r is Ok && dialled_at is Ok {
        let a = r->Ok_0@;
        let b = dialled_at->Ok_0@;
        assert(a.tls == b.tls && a.host == b.host && a.port == b.port && a.sni == b.sni
            && a.authority == b.authority && a.uri == b.uri);
        assert(a.auth == credential_view(r->Ok_0.auth));
        assert(b.auth == credential_view(dialled_at->Ok_0.auth));
    }
}

/// A callout is a POST of the encoded request to the endpoint's target, with
/// the authority as `host`, JSON as `content-type`, the credential under its own
/// name, and no other header.
pub proof fn callouts_carry_host_type_and_credential(endpoint: EndpointView, name: Seq<char>)
    ensures
        ({
            let fields = callout_fields(endpoint);
            let named = if endpoint.auth is Some {
                lowered(endpoint.auth->Some_0.name)
            } else {
                Seq::empty()
            };
            &&& fields.contains_key("host"@)
            &&& named != "host"@ ==> fields["host"@] == seq![
                HeaderField { bytes: encode_utf8(endpoint.authority), sensitive: false },
            ]
            &&& fields.contains_key("content-type"@)
            &&& named != "content-type"@ ==> fields["content-type"@] == seq![
                HeaderField { bytes: encode_utf8("application/json"@), sensitive: false },
            ]
            &&& endpoint.auth matches Some(credential) ==> {
                &&& fields.contains_key(lowered(credential.name))
                &&& fields[lowered(credential.name)] == seq![
                    HeaderField {
                        bytes: encode_utf8(credential.value),
                        sensitive: credential.sensitive,
                    },
                ]
            }
            &&& fields.contains_key(name) ==> name == "host"@ || name == "content-type"@ || (
            endpoint.auth is Some && name == lowered(endpoint.auth->Some_0.name))
        }),
{
    reveal_strlit("host");
    reveal_strlit("content-type");
    assert("host"@.len() != "content-type"@.len());
    assert(lowered("host"@) =~= "host"@) by {
        assert forall|i: int| 0 <= i < 4 implies lowered("host"@)[i] == "host"@[i] by {
            assert(lowered("host"@)[i] == lower_char("host"@[i]));
        }
    }
    assert(lowered("content-type"@) =~= "content-type"@) by {
        assert forall|i: int| 0 <= i < 12 implies lowered("content-type"@)[i]
            == "content-type"@[i] by {
            assert(lowered("content-type"@)[i] == lower_char("content-type"@[i]));
        }
    }
}

/// The callout goes to the endpoint that it was made for, with the deadline and
/// the cap that are configured, and posts the body that it is given.
pub proof fn callouts_post_what_they_are_given(
    endpoint: JudgeEndpoint,
    judge: JudgeConfig,
    callout: SubRequestJudge,
    body: Vec<u8>,
    request: JudgeRequest,
    timeout_ms: u64,
    cap: usize,
)
    requires
        call_ensures(SubRequestJudge::new, (&endpoint, &judge), callout),
        call_ensures(SubRequestJudge::build_request, (&callout, body), request),
        call_ensures(SubRequestJudge::timeout_ms, (&callout,), timeout_ms),
        call_ensures(SubRequestJudge::max_response_bytes, (&callout,), cap),
    ensures
        request.method@ == "POST"@,
        request.body@ == body@,
        request.uri@ == endpoint.uri@,
        header_fields(request.headers) == callout_fields(endpoint@),
        timeout_ms == judge.timeout_ms,
        cap == judge.max_response_bytes,
{
}

/// A reply is accepted exactly with a status from 200 to 299, as it came; any
/// other status is the judge's failure, told with its number.
pub proof fn only_2xx_replies_are_accepted(
    status: u16,
    body: Vec<u8>,
    r: Result<Vec<u8>, RouteError>,
    late: RouteError,
)
    requires
        call_ensures(check_status, (status, body), r),
        call_ensures(deadline_exceeded, (), late),
    ensures
        r is Ok <==> 200 <= status < 300,
        r matches Ok(found) ==> found@ == body@,
        r matches Err(error) ==> error@ == RouteFault::Judge(
            "judge returned HTTP "@ + decimal_text(status as nat),
        ),
        late@ == RouteFault::Judge("deadline exceeded"@),
{
    assert(reply(r) is Ok == r is Ok);
}

/// Addresses that do not connect are passed over, and the first that does
/// decides: with the body of a 2xx reply, with a failure for any other status,
/// or with the failure of the exchange. When none connects, the failure tells
/// the host and the last of their messages; without addresses, that there was
/// none.
pub proof fn the_first_address_that_connects_decides(
    host: Seq<char>,
    attempts: Seq<AttemptView>,
    at: int,
    status: u16,
    body: Seq<u8>,
    message: Seq<char>,
)
    requires
        0 <= at <= attempts.len(),
        forall|i: int| 0 <= i < at ==> #[trigger] attempts[i] is ConnectFailed,
    ensures
        at < attempts.len() && attempts[at] == (AttemptView::Replied { status, body }) && 200
            <= status <= 299 ==> callout(host, attempts) == Ok::<Seq<u8>, RouteFault>(body),
        at < attempts.len() && attempts[at] == (AttemptView::Replied { status, body }) && !(200
            <= status <= 299) ==> callout(host, attempts) == Err::<Seq<u8>, RouteFault>(
            RouteFault::Judge("judge returned HTTP "@ + decimal_text(status as nat)),
        ),
        at < attempts.len() && attempts[at] == AttemptView::Failed(message) ==> callout(
            host,
            attempts,
        ) == Err::<Seq<u8>, RouteFault>(RouteFault::Judge(message)),
        at == attempts.len() && at > 0 && attempts[at - 1] == AttemptView::ConnectFailed(message)
            ==> callout(host, attempts) == Err::<Seq<u8>, RouteFault>(
            RouteFault::Judge("all resolved addresses for "@ + host + " failed: "@ + message),
        ),
        attempts.len() == 0 ==> callout(host, attempts) == Err::<Seq<u8>, RouteFault>(
            RouteFault::Judge("no addresses resolved for "@ + host),
        ),
{
    if at == attempts.len() || !(attempts[at] is ConnectFailed) {
        callout_falls_back(host, attempts, at);
    }
}

/// A host counts as resolved exactly where at least one address was found.
pub proof fn resolution_needs_an_address(
    callout: SubRequestJudge,
    found: Result<usize, String>,
    r: Result<(), RouteError>,
    left: RouteError,
)
    requires
        call_ensures(SubRequestJudge::check_resolution, (&callout, found), r),
        call_ensures(SubRequestJudge::exhausted, (&callout,), left),
    ensures
        r is Ok <==> found is Ok && found->Ok_0 >= 1,
        found is Ok && found->Ok_0 == 0 ==> r->Err_0@ == RouteFault::Judge(
            "no addresses resolved for "@ + callout.endpoint().host,
        ),
        found matches Err(why) ==> r->Err_0@ == RouteFault::Judge(
            "DNS resolution failed for "@ + callout.endpoint().host + ": "@ + why@,
        ),
        callout.last() is None ==> left@ == RouteFault::Judge(
            "no addresses resolved for "@ + callout.endpoint().host,
        ),
        callout.last() matches Some(message) ==> left@ == RouteFault::Judge(
            "all resolved addresses for "@ + callout.endpoint().host + " failed: "@ + message,
        ),
{
}

/// One attempt decides a callout where it connected: by the body of a 2xx
/// reply, by a failure for any other status, or by the failure of the exchange.
/// One that did not connect decides nothing, and its message is kept.
pub proof fn attempts_decide_where_they_connect(
    callout: &mut SubRequestJudge,
    attempt: Attempt,
    r: Option<Result<Vec<u8>, RouteError>>,
)
    requires
        call_ensures(SubRequestJudge::record, (callout, attempt), r),
    ensures
        attempt matches Attempt::ConnectFailed(message) ==> r is None && final(callout).last()
            == Some(message@),
        attempt matches Attempt::Failed(message) ==> (r matches Some(Err(RouteError::Judge(told)))
            && told@ == message@) && final(callout).last() == old(callout).last(),
        attempt matches Attempt::Replied { status, body } ==> {
            &&& 200 <= status <= 299 ==> (r matches Some(Ok(found)) && found@ == body@)
            &&& !(200 <= status <= 299) ==> (r matches Some(Err(RouteError::Judge(told))) && told@
                == "judge returned HTTP "@ + decimal_text(status as nat))
        },
{
    let view = attempt@;
    if r is Some {
        assert(reply(r->Some_0) is Ok == r->Some_0 is Ok);
        if r->Some_0 is Err {
            let fault = r->Some_0->Err_0@;
        }
    }
}

} // verus!
