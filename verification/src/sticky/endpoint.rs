//! The judge endpoint of the session-remembering filter.

use vstd::prelude::*;
use vstd::utf8::*;

use super::error::{RouteError, RouteFault};
use crate::judge::JudgeRequest;
use crate::text::{join, lower_char, lowered, strip_end, strip_start, text_eq};
use crate::wire::{
    bare_host, check_header_value, copy_uri, header_fields, insert_header, 
    is_header_value, new_headers, no_fields, parse_uri, parsed_uri, request_target, target_text,
    uri_outcome, with_header, HeaderField, UriParts, UriView,
};

verus! {

/// Parsed judge URL components for the callout.
#[derive(Debug, Clone)]
pub struct JudgeEndpoint {
    /// Whether the endpoint uses HTTPS.
    pub tls: bool,
    /// Hostname used for DNS resolution.
    pub host: String,
    /// TCP port.
    pub port: u16,
    /// TLS server name; empty for cleartext HTTP.
    pub sni: String,
    /// Original URL authority, sent as the `Host` header.
    pub authority: String,
    /// Path and query of the POST.
    pub uri: UriParts,
}

/// The content of a [`JudgeEndpoint`].
pub struct EndpointView {
    pub tls: bool,
    pub host: Seq<char>,
    pub port: u16,
    pub sni: Seq<char>,
    pub authority: Seq<char>,
    pub uri: UriView,
}

impl View for JudgeEndpoint {
    type V = EndpointView;

    open spec fn view(&self) -> EndpointView {
        EndpointView {
            tls: self.tls,
            host: self.host@,
            port: self.port,
            sni: self.sni@,
            authority: self.authority@,
            uri: self.uri@,
        }
    }
}

/// Whether a URL asks for TLS, or why it cannot be dialled.
pub open spec fn tls_of(uri: UriView) -> Result<bool, Seq<char>> {
    match uri.scheme {
        None => Err("endpoint must be an absolute http(s) URL"@),
        Some(scheme) => if scheme == "https"@ {
            Ok(true)
        } else if scheme == "http"@ {
            Ok(false)
        } else {
            Err("unsupported scheme '"@ + scheme + "'"@)
        },
    }
}

/// The endpoint that a parsed URL and its parsed request target make, or the
/// first complaint.
pub open spec fn dialled(uri: UriView, target: Result<UriView, Seq<char>>) -> Result<
    EndpointView,
    Seq<char>,
> {
    match tls_of(uri) {
        Err(message) => Err(message),
        Ok(tls) => match uri.authority {
            None => Err("endpoint missing host"@),
            Some(authority) => if !is_header_value(authority.text) {
                Err("invalid authority: failed to parse header value"@)
            } else {
                match target {
                    Err(error) => Err("bad path: "@ + error),
                    Ok(path) => Ok(
                        EndpointView {
                            tls,
                            host: bare_host(authority.host),
                            port: match authority.port {
                                Some(port) => port,
                                None => if tls { 443 } else { 80 },
                            },
                            sni: if tls { bare_host(authority.host) } else { Seq::empty() },
                            authority: authority.text,
                            uri: path,
                        },
                    ),
                }
            },
        },
    }
}

/// The endpoint that a URL's text makes.
pub open spec fn endpoint_at(url: Seq<char>) -> Result<EndpointView, Seq<char>> {
    match parsed_uri(url) {
        Err(error) => Err("bad endpoint: "@ + error),
        Ok(uri) => dialled(uri, parsed_uri(request_target(uri))),
    }
}

/// An endpoint, or the complaint of a judge failure, by content.
pub open spec fn endpoint_outcome(r: Result<JudgeEndpoint, RouteError>) -> Result<
    EndpointView,
    RouteFault,
> {
    match r {
        Ok(endpoint) => Ok(endpoint@),
        Err(error) => Err(error@),
    }
}

/// A complaint as a judge failure.
pub open spec fn as_judge_fault<T>(r: Result<T, Seq<char>>) -> Result<T, RouteFault> {
    match r {
        Ok(value) => Ok(value),
        Err(message) => Err(RouteFault::Judge(message)),
    }
}

/// The header fields of a callout.
pub open spec fn callout_fields(authority: Seq<char>, token: Option<Seq<char>>) -> Map<
    Seq<char>,
    Seq<HeaderField>,
> {
    let plain = with_header(
        with_header(no_fields(), "host"@, authority, false),
        "content-type"@,
        "application/json"@,
        false,
    );
    match token {
        Some(text) => with_header(plain, "authorization"@, "Bearer "@ + text, false),
        None => plain,
    }
}

/// The text in an optional string slice.
pub open spec fn opt_str(text: Option<&str>) -> Option<Seq<char>> {
    match text {
        Some(found) => Some(found@),
        None => None,
    }
}

impl JudgeEndpoint {
    /// Makes the endpoint of a parsed URL and the outcome of parsing its
    /// request target.
    pub fn from_parts(parsed: UriParts, target: Result<UriParts, String>) -> (r: Result<
        JudgeEndpoint,
        RouteError,
    >)
        ensures
            endpoint_outcome(r) == as_judge_fault(dialled(parsed@, uri_outcome(target))),
            r matches Ok(endpoint) ==> is_header_value(endpoint.authority@),
    {
        let tls = match &parsed.scheme {
            Some(scheme) => {
                if text_eq(scheme.as_str(), "https") {
                    true
                } else if text_eq(scheme.as_str(), "http") {
                    false
                } else {
                    let message = join(
                        join("unsupported scheme '", scheme.as_str()).as_str(),
                        "'",
                    );
                    return Err(RouteError::Judge(message));
                }
            },
            None => {
                return Err(
                    RouteError::Judge("endpoint must be an absolute http(s) URL".to_owned()),
                );
            },
        };
        let authority = match parsed.authority {
            Some(authority) => authority,
            None => return Err(RouteError::Judge("endpoint missing host".to_owned())),
        };
        let host = strip_end(strip_start(authority.host.as_str(), '[').as_str(), ']');
        let port: u16 = match authority.port {
            Some(port) => port,
            None => if tls {
                443
            } else {
                80
            },
        };
        let sni = if tls {
            host.clone()
        } else {
            String::new()
        };
        if let Err(error) = check_header_value(authority.text.as_str()) {
            proof {
                reveal_strlit("invalid authority: ");
                reveal_strlit("failed to parse header value");
                reveal_strlit("invalid authority: failed to parse header value");
                assert("invalid authority: "@ + "failed to parse header value"@
                    =~= "invalid authority: failed to parse header value"@);
            }
            return Err(RouteError::Judge(join("invalid authority: ", error.as_str())));
        }
        let uri = match target {
            Ok(uri) => uri,
            Err(error) => return Err(RouteError::Judge(join("bad path: ", error.as_str()))),
        };
        Ok(JudgeEndpoint { tls, host, port, sni, authority: authority.text, uri })
    }

    /// Parses an absolute http(s) judge URL.
    pub fn parse(endpoint: &str) -> (r: Result<JudgeEndpoint, RouteError>)
        ensures
            endpoint_outcome(r) == as_judge_fault(endpoint_at(endpoint@)),
            r matches Ok(parsed) ==> is_header_value(parsed.authority@),
    {
        match parse_uri(endpoint) {
            Err(error) => Err(RouteError::Judge(join("bad endpoint: ", error.as_str()))),
            Ok(parsed) => {
                let target = parse_uri(target_text(&parsed).as_str());
                JudgeEndpoint::from_parts(parsed, target)
            },
        }
    }

    /// Builds the POST request carrying the encoded judge body.
    pub fn build_request(&self, body: Vec<u8>, auth_token: Option<&str>) -> (r: Result<
        JudgeRequest,
        RouteError,
    >)
        requires
            is_header_value(self.authority@),
        ensures
            r is Ok <==> (auth_token matches Some(token) ==> is_header_value("Bearer "@ + token@)),
            r matches Err(error) ==> error@ == RouteFault::Judge(
                "invalid auth header: failed to parse header value"@,
            ),
            r matches Ok(request) ==> {
                &&& request.method@ == "POST"@
                &&& request.uri@ == self.uri@
                &&& header_fields(request.headers) == callout_fields(
                    self.authority@,
                    opt_str(auth_token),
                )
                &&& request.body@ == body@
            },
    {
        let mut headers = new_headers();
        proof {
            reveal_strlit("host");
            reveal_strlit("content-type");
            reveal_strlit("application/json");
            reveal_strlit("authorization");
        }
        insert_header(&mut headers, "host", self.authority.as_str(), false);
        insert_header(&mut headers, "content-type", "application/json", false);
        if let Some(token) = auth_token {
            let value = join("Bearer ", token);
            if let Err(error) = check_header_value(value.as_str()) {
                proof {
                    reveal_strlit("invalid auth header: ");
                    reveal_strlit("failed to parse header value");
                    reveal_strlit("invalid auth header: failed to parse header value");
                    assert("invalid auth header: "@ + "failed to parse header value"@
                        =~= "invalid auth header: failed to parse header value"@);
                }
                return Err(RouteError::Judge(join("invalid auth header: ", error.as_str())));
            }
            insert_header(&mut headers, "authorization", value.as_str(), false);
        }
        Ok(JudgeRequest { method: "POST", uri: copy_uri(&self.uri), headers, body })
    }

    /// Whether the certificate and the host name of the judge are checked: they
    /// are, unless the endpoint uses TLS and checking is switched off.
    pub fn verifies_peer(&self, verify_tls: bool) -> (r: bool)
        ensures
            r == !(self.tls && !verify_tls),
    {
        !(self.tls && !verify_tls)
    }
}

/// An endpoint is dialled as its URL says: TLS exactly for `https`, the port as
/// written or else that of the scheme, the host without brackets, and the
/// authority and the request target as they are. It is refused exactly where
/// the scheme is another one, a host is missing, or the authority or the target
/// cannot be sent; the first of these is told.
pub proof fn endpoints_are_dialled_as_written(
    parsed: UriParts,
    target: Result<UriParts, String>,
    r: Result<JudgeEndpoint, RouteError>,
)
    requires
        call_ensures(JudgeEndpoint::from_parts, (parsed, target), r),
    ensures
        ({
            let https = parsed.scheme is Some && parsed.scheme->Some_0@ == "https"@;
            let http = parsed.scheme is Some && parsed.scheme->Some_0@ == "http"@;
            let known = https || http;
            let hosted = known && parsed.authority is Some;
            let authority = parsed.authority->Some_0;
            let sendable = hosted && is_header_value(authority.text@);
            &&& r is Ok <==> sendable && target is Ok
            &&& r is Ok ==> {
                let endpoint = r->Ok_0;
                &&& endpoint.tls == https
                &&& endpoint.host@ == bare_host(authority.host@)
                &&& authority.port matches Some(port) ==> endpoint.port == port
                &&& authority.port is None && https ==> endpoint.port == 443
                &&& authority.port is None && http ==> endpoint.port == 80
                &&& https ==> endpoint.sni@ == endpoint.host@
                &&& http ==> endpoint.sni@.len() == 0
                &&& endpoint.authority@ == authority.text@
                &&& endpoint.uri@ == target->Ok_0@
            }
            &&& parsed.scheme is None ==> r->Err_0@ == RouteFault::Judge(
                "endpoint must be an absolute http(s) URL"@,
            )
            &&& parsed.scheme is Some && !known ==> r->Err_0@ == RouteFault::Judge(
                "unsupported scheme '"@ + parsed.scheme->Some_0@ + "'"@,
            )
            &&& known && !hosted ==> r->Err_0@ == RouteFault::Judge("endpoint missing host"@)
            &&& hosted && !sendable ==> r->Err_0@ == RouteFault::Judge(
                "invalid authority: failed to parse header value"@,
            )
            &&& sendable && target is Err ==> r->Err_0@ == RouteFault::Judge(
                "bad path: "@ + target->Err_0@,
            )
        }),
{
    reveal_strlit("http");
    reveal_strlit("https");
    assert("http"@.len() != "https"@.len());
    assert(endpoint_outcome(r) is Ok == r is Ok);
    if r is Ok {
        let view = r->Ok_0@;
        assert(view.tls == r->Ok_0.tls && view.port == r->Ok_0.port && view.sni == r->Ok_0.sni@);
        assert(parsed@.authority == Some(parsed.authority->Some_0@));
    }
}

/// A URL's text makes the endpoint of what it parses to, with its own request
/// target.
pub proof fn urls_make_the_endpoint_they_parse_to(
    text: &str,
    whole: Result<JudgeEndpoint, RouteError>,
    parsed: UriParts,
    target: Result<UriParts, String>,
    parts: Result<JudgeEndpoint, RouteError>,
)
    requires
        call_ensures(JudgeEndpoint::parse, (text,), whole),
        call_ensures(JudgeEndpoint::from_parts, (parsed, target), parts),
    ensures
        parsed_uri(text@) matches Err(why) ==> whole is Err && whole->Err_0@ == RouteFault::Judge(
            "bad endpoint: "@ + why,
        ),
        parsed_uri(text@) == Ok::<UriView, Seq<char>>(parsed@) && uri_outcome(target)
            == parsed_uri(
            match parsed.path_and_query {
                Some(written) => written@,
                None => "/"@,
            },
        ) ==> {
            &&& whole is Ok == parts is Ok
            &&& whole is Ok ==> whole->Ok_0@ == parts->Ok_0@
            &&& whole is Err ==> whole->Err_0@ == parts->Err_0@
        },
{
    assert(endpoint_outcome(whole) is Ok == whole is Ok);
    assert(endpoint_outcome(parts) is Ok == parts is Ok);
}

/// A callout is a POST of the body to the endpoint's target, with the authority
/// as `host`, JSON as `content-type`, the token as a bearer token where there is
/// one, and no other header. A token that cannot be sent is refused. The judge's
/// certificate is checked unless that is switched off.
pub proof fn callouts_carry_host_type_and_token(
    endpoint: JudgeEndpoint,
    body: Vec<u8>,
    auth_token: Option<&str>,
    r: Result<JudgeRequest, RouteError>,
    name: Seq<char>,
    verify_tls: bool,
    checked: bool,
)
    requires
        call_ensures(JudgeEndpoint::build_request, (&endpoint, body, auth_token), r),
        call_ensures(JudgeEndpoint::verifies_peer, (&endpoint, verify_tls), checked),
    ensures
        auth_token is None ==> r is Ok,
        auth_token is Some ==> (r is Ok <==> is_header_value("Bearer "@ + auth_token->Some_0@)),
        r is Err ==> r->Err_0@ == RouteFault::Judge(
            "invalid auth header: failed to parse header value"@,
        ),
        r is Ok ==> {
            let request = r->Ok_0;
            let fields = header_fields(request.headers);
            &&& request.method@ == "POST"@
            &&& request.uri@ == endpoint.uri@
            &&& request.body@ == body@
            &&& fields.contains_key("host"@)
            &&& fields["host"@] == seq![
                HeaderField { bytes: encode_utf8(endpoint.authority@), sensitive: false },
            ]
            &&& fields.contains_key("content-type"@)
            &&& fields["content-type"@] == seq![
                HeaderField { bytes: encode_utf8("application/json"@), sensitive: false },
            ]
            &&& auth_token is Some ==> fields.contains_key("authorization"@)
                && fields["authorization"@][0].bytes == encode_utf8(
                "Bearer "@ + auth_token->Some_0@,
            )
            &&& fields.contains_key(name) ==> name == "host"@ || name == "content-type"@ || (
            auth_token is Some && name == "authorization"@)
        },
        verify_tls || !endpoint.tls ==> checked,
        !verify_tls && endpoint.tls ==> !checked,
{
    reveal_strlit("host");
    reveal_strlit("content-type");
    reveal_strlit("authorization");
    assert("host"@.len() == 4 && "content-type"@.len() == 12 && "authorization"@.len() == 13);
    assert(lowered("host"@) =~= "host"@) by {
        assert forall|i: int| 0 <= i < 4 implies lowered("host"@)[i] == "host"@[i] by {
            assert(lowered("host"@)[i] == lower_char("host"@[i]));
        }
    }
    assert(lowered("content-type"@) =~= "content-type"@) by {
        assert forall|i: int| 0 <= i < 12 implies lowered("content-type"@)[i]
            == "content-type"@[i] by {
            assert(lowered("content-type"@)[i] == lower_char("content-type"@[i]));
        }
    }
    assert(lowered("authorization"@) =~= "authorization"@) by {
        assert forall|i: int| 0 <= i < 13 implies lowered("authorization"@)[i]
            == "authorization"@[i] by {
            assert(lowered("authorization"@)[i] == lower_char("authorization"@[i]));
        }
    }
}

} // verus!
