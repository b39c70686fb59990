//! The session-remembering filter: one routing pass per request.
//!
//! A pass has two halves around the judge's answer.
//! [`SwitchyardRouteFilter::begin`] parses the body and derives the session
//! key; [`SwitchyardRouteFilter::settle`] takes the tier that the judge chose,
//! rewrites the body and remembers the tier. A pass that fails goes through
//! [`SwitchyardRouteFilter::on_route_error`], which never writes a tier that
//! the judge did not choose. [`SwitchyardRouteFilter::route`] is all of that in
//! one, for an answer that is at hand.

use vstd::prelude::*;

use super::config::{configured, parse, RouteConfig, RouteSettings, RouteView};
use super::error::{fault_text, rewritable, RouteError, RouteFault};
use super::failure::{
    disposition, failure_action, fallback_text, FailureAction, FailureApply, DECISION_REJECTED,
    DECISION_ROUTED, DECISION_UNROUTED,
};
use super::judge::parse_outcome;
use super::session::{key_view, session_key, session_key_from_request, KeyView, SessionKey};
use super::store::{after_recall, after_remember, distinct, recalled, EntryView, SessionStore};
use crate::config::{ConfigError, FailureMode};
use crate::json::{
    carries, is_object, json_bytes, json_tree, may_name_reserved, parse_json, parsed_json,
    print_json, printable, reads_back, set_text, with_text, with_text_stays_printable, JsonTree,
    RESERVED_KEY,
};
use crate::text::{ends_with, leading, take_chars};
use crate::tier::Tier;
use crate::wire::{copy_text, header_fields, opt_text, parsed_uri, HeaderField};

verus! {

/// Metadata key for the chosen cluster.
pub const METADATA_CLUSTER: &'static str = "switchyard_route.cluster";

/// Metadata key for why the request uses its cluster.
pub const METADATA_DECISION: &'static str = "switchyard_route.decision";

/// Metadata key for the routing error.
pub const METADATA_ERROR: &'static str = "switchyard_route.error";

/// How many characters of a routing error are recorded.
pub const ERROR_CHARS: usize = 250;

/// The header fields of a request, by lower-case name.
pub type Fields = Map<Seq<char>, Seq<HeaderField>>;

/// The bytes of an optional body.
pub open spec fn body_bytes(body: Option<&[u8]>) -> Option<Seq<u8>> {
    match body {
        Some(bytes) => Some(bytes@),
        None => None,
    }
}

/// The body of a request as a document, given what parsing its bytes gives.
pub open spec fn body_document(
    body: Option<Seq<u8>>,
    parsed: Result<JsonTree, Seq<char>>,
) -> Result<JsonTree, RouteFault> {
    match body {
        None => Err(RouteFault::Body("missing"@)),
        Some(bytes) => if bytes.len() == 0 {
            Err(RouteFault::Body("empty"@))
        } else {
            match parsed {
                Ok(tree) => Ok(tree),
                Err(error) => Err(RouteFault::Json(error)),
            }
        },
    }
}

/// The body of a request as a document.
pub open spec fn body_of(body: Option<Seq<u8>>) -> Result<JsonTree, RouteFault> {
    match body {
        None => body_document(None, Err(Seq::empty())),
        Some(bytes) => body_document(Some(bytes), parsed_json(bytes)),
    }
}

/// A document, or the failure, by content.
pub open spec fn document(r: Result<serde_json::Value, RouteError>) -> Result<JsonTree, RouteFault> {
    match r {
        Ok(value) => Ok(json_tree(value)),
        Err(error) => Err(error@),
    }
}

/// A body with its model rewritten, or the failure.
pub open spec fn rewritten(body: JsonTree, model: Seq<char>) -> Result<Seq<u8>, RouteFault> {
    if body is Object {
        Ok(json_bytes(with_text(body, "model"@, model)))
    } else {
        Err(RouteFault::Body("not an object"@))
    }
}

/// Takes the outcome of parsing a body that is neither missing nor empty.
pub fn accept_body(parsed: Result<serde_json::Value, String>) -> (r: Result<
    serde_json::Value,
    RouteError,
>)
    ensures
        forall|bytes: Seq<u8>|
            bytes.len() > 0 ==> document(r) == #[trigger] body_document(
                Some(bytes),
                parse_outcome(parsed),
            ),
{
    match parsed {
        Ok(value) => Ok(value),
        Err(error) => Err(RouteError::Json(error)),
    }
}

/// Parses the buffered body as JSON.
pub fn parse_body(body: Option<&[u8]>) -> (r: Result<serde_json::Value, RouteError>)
    ensures
        document(r) == body_of(body_bytes(body)),
        r matches Ok(value) ==> may_name_reserved(body_bytes(body)->Some_0) || printable(
            json_tree(value),
        ),
{
    match body {
        None => Err(RouteError::Body("missing")),
        Some(bytes) => {
            if bytes.len() == 0 {
                return Err(RouteError::Body("empty"));
            }
            let parsed = parse_json(bytes);
            let ghost outcome = parse_outcome(parsed);
            let accepted = accept_body(parsed);
            assert(document(accepted) == body_document(Some(bytes@), outcome));
            accepted
        },
    }
}

/// Takes the outcome of decoding the inbound body for the judge. `reachable`
/// says whether there is a client to ask the judge with.
pub fn decode_for_judge<T>(decoded: Result<T, String>, reachable: bool) -> (r: Result<
    T,
    RouteError,
>)
    ensures
        match decoded {
            Err(error) => r matches Err(fault) && fault@ == RouteFault::Translation(error@),
            Ok(request) => if reachable {
                r == Ok::<T, RouteError>(request)
            } else {
                r matches Err(fault) && fault@ == RouteFault::MissingSubrequestClient
            },
        },
{
    match decoded {
        Err(error) => Err(RouteError::Translation(error)),
        Ok(request) => {
            if reachable {
                Ok(request)
            } else {
                Err(RouteError::MissingSubrequestClient)
            }
        },
    }
}

/// Rewrites the `model` field and re-serializes.
pub fn rewrite_model(body: serde_json::Value, model: &str) -> (r: Result<Vec<u8>, RouteError>)
    ensures
        match r {
            Ok(bytes) => rewritten(json_tree(body), model@) == Ok::<Seq<u8>, RouteFault>(bytes@),
            Err(error) => rewritten(json_tree(body), model@) == Err::<Seq<u8>, RouteFault>(error@),
        },
        r matches Ok(bytes) ==> carries(bytes@, json_tree(body), "model"@, model@),
{
    let mut value = body;
    if !is_object(&value) {
        return Err(RouteError::Body("not an object"));
    }
    set_text(&mut value, "model", model);
    proof {
        if printable(json_tree(body)) {
            reveal_strlit("model");
            reveal_strlit("$serde_json::private::RawValue");
            assert("model"@.len() != RESERVED_KEY@.len());
            with_text_stays_printable(json_tree(body), "model"@, model@);
        }
    }
    match print_json(&value) {
        Ok(bytes) => Ok(bytes),
        Err(error) => Err(RouteError::Serialize(error)),
    }
}

/// Truncates a routing error for the metadata.
pub fn record_error_metadata(error: &RouteError) -> (r: String)
    ensures
        r@ == leading(fault_text(error@), ERROR_CHARS as nat),
{
    take_chars(error.message().as_str(), ERROR_CHARS)
}

/// What a routing pass knows before the judge is asked.
#[derive(Debug)]
pub struct Turn {
    /// The parsed body.
    pub value: serde_json::Value,
    /// The session's key, if the request has one.
    pub session: Option<SessionKey>,
}

/// The content of a [`Turn`].
pub struct TurnView {
    pub body: JsonTree,
    pub session: Option<KeyView>,
}

impl View for Turn {
    type V = TurnView;

    open spec fn view(&self) -> TurnView {
        TurnView { body: json_tree(self.value), session: key_view(self.session) }
    }
}

/// What a routing pass knows before the judge is asked, or why it fails.
pub open spec fn begun(fields: Fields, path: Seq<char>, body: Option<Seq<u8>>) -> Result<
    TurnView,
    RouteFault,
> {
    match body_of(body) {
        Err(fault) => Err(fault),
        Ok(tree) => if !"/chat/completions"@.is_suffix_of(path) {
            Err(RouteFault::UnsupportedPath)
        } else {
            Ok(TurnView { body: tree, session: session_key(fields, tree) })
        },
    }
}

/// A request that is sent to a cluster.
#[derive(Debug)]
pub struct Routed {
    /// The rewritten body.
    pub body: Vec<u8>,
    /// The chosen cluster.
    pub cluster: String,
    /// Why it was chosen, for [`METADATA_DECISION`].
    pub decision: &'static str,
}

/// The content of a [`Routed`].
pub struct RoutedView {
    pub body: Seq<u8>,
    pub cluster: Seq<char>,
    pub decision: Seq<char>,
}

impl View for Routed {
    type V = RoutedView;

    open spec fn view(&self) -> RoutedView {
        RoutedView { body: self.body@, cluster: self.cluster@, decision: self.decision@ }
    }
}

/// A request for the target of `tier`, or why it cannot be rewritten.
pub open spec fn sent(config: RouteView, body: JsonTree, tier: Tier, why: Seq<char>) -> Result<
    RoutedView,
    RouteFault,
> {
    match rewritten(body, config.target(tier).model) {
        Ok(bytes) => Ok(
            RoutedView { body: bytes, cluster: config.target(tier).cluster, decision: why },
        ),
        Err(fault) => Err(fault),
    }
}

/// What becomes of a request without a decision.
#[derive(Debug)]
pub enum Fallback {
    /// It is served by a fallback tier.
    Serve {
        /// The rewritten request.
        routed: Routed,
        /// The tier, and why it serves.
        apply: FailureApply,
    },
    /// It passes through as it came.
    PassThrough {
        /// Why, for [`METADATA_DECISION`].
        decision: &'static str,
    },
    /// It is answered by the filter, with an empty body.
    Reject {
        /// Status of the answer.
        status: u16,
        /// Why, for [`METADATA_DECISION`].
        decision: &'static str,
    },
}

/// The content of a [`Fallback`].
pub enum FallbackView {
    Serve { routed: RoutedView, apply: FailureApply },
    PassThrough { decision: Seq<char> },
    Reject { status: u16, decision: Seq<char> },
}

impl View for Fallback {
    type V = FallbackView;

    open spec fn view(&self) -> FallbackView {
        match *self {
            Fallback::Serve { routed, apply } => FallbackView::Serve { routed: routed@, apply },
            Fallback::PassThrough { decision } => FallbackView::PassThrough {
                decision: decision@,
            },
            Fallback::Reject { status, decision } => FallbackView::Reject {
                status,
                decision: decision@,
            },
        }
    }
}

/// What becomes of a request that cannot be rewritten.
pub open spec fn plain(mode: FailureMode) -> FallbackView {
    match mode {
        FailureMode::Closed => FallbackView::Reject { status: 503, decision: DECISION_REJECTED@ },
        FailureMode::Open => FallbackView::PassThrough { decision: DECISION_UNROUTED@ },
    }
}

/// What becomes of a request without a decision, given its body and what is
/// remembered.
pub open spec fn recovered(
    config: RouteView,
    body: Option<Seq<u8>>,
    may_apply: bool,
    remembered: Option<Tier>,
) -> FallbackView {
    match disposition(config.on_failure, may_apply, remembered) {
        FailureAction::Reject => FallbackView::Reject {
            status: 503,
            decision: DECISION_REJECTED@,
        },
        FailureAction::Unrouted => FallbackView::PassThrough { decision: DECISION_UNROUTED@ },
        FailureAction::Apply(apply) => match body_of(body) {
            Err(_) => plain(config.on_failure),
            Ok(tree) => match sent(config, tree, apply.tier, fallback_text(apply.kind)) {
                Ok(routed) => FallbackView::Serve { routed, apply },
                Err(_) => plain(config.on_failure),
            },
        },
    }
}

/// Whether `sent` carries the body of a request, with its model set to `model`.
pub open spec fn body_carries(sent: Seq<u8>, body: Option<Seq<u8>>, model: Seq<char>) -> bool {
    &&& body_of(body) is Ok
    &&& carries(sent, body_of(body)->Ok_0, "model"@, model)
    &&& may_name_reserved(body->Some_0) || reads_back(
        sent,
        with_text(body_of(body)->Ok_0, "model"@, model),
    )
}

/// Whether a fallback that serves a request carries its body, with the model of
/// the fallback tier.
pub open spec fn fallback_carries(
    config: RouteView,
    body: Option<Seq<u8>>,
    fallback: FallbackView,
) -> bool {
    fallback matches FallbackView::Serve { routed, apply } ==> body_carries(
        routed.body,
        body,
        config.target(apply.tier).model,
    )
}

/// The key of a request whose body parses.
pub open spec fn request_key(fields: Fields, body: Option<Seq<u8>>) -> Option<KeyView> {
    match body_of(body) {
        Ok(tree) => session_key(fields, tree),
        Err(_) => None,
    }
}

/// The tier that is remembered for a request.
pub open spec fn remembered_for(
    entries: Seq<EntryView>,
    ttl: u64,
    key: Option<KeyView>,
    now: u64,
) -> Option<Tier> {
    match key {
        Some(known) => recalled(entries, known, now, ttl),
        None => None,
    }
}

/// The entries after a request was looked up.
pub open spec fn looked_up(
    entries: Seq<EntryView>,
    ttl: u64,
    key: Option<KeyView>,
    now: u64,
) -> Seq<EntryView> {
    match key {
        Some(known) => after_recall(entries, known, now, ttl),
        None => entries,
    }
}

/// What became of one turn, as far as the memory goes.
pub enum TurnEnd {
    /// The judge chose a tier, and the request was rewritten for it.
    Routed(Tier),
    /// The judge failed on a request that a fallback tier can serve.
    JudgeFailed,
    /// The request could not be routed nor served by a fallback tier.
    Refused,
}

/// One turn, as far as the memory goes.
pub struct TurnRecord {
    /// The session that the request belongs to.
    pub session: Option<KeyView>,
    /// When the turn was settled.
    pub now: u64,
    /// What became of it.
    pub end: TurnEnd,
}

impl TurnRecord {
    /// Whether the turn is one of the session `key` that writes or reads its
    /// entry.
    pub open spec fn uses(self, key: KeyView) -> bool {
        self.session == Some(key) && !(self.end is Refused)
    }
}

/// The memory after a turn.
pub open spec fn entries_after(
    entries: Seq<EntryView>,
    ttl: u64,
    capacity: nat,
    turn: TurnRecord,
) -> Seq<EntryView> {
    match turn.end {
        TurnEnd::Routed(tier) => match turn.session {
            Some(key) => after_remember(entries, key, tier, turn.now, capacity),
            None => entries,
        },
        TurnEnd::JudgeFailed => looked_up(entries, ttl, turn.session, turn.now),
        TurnEnd::Refused => entries,
    }
}

/// Why a pass fails, if it does, where the judge answers `answer`.
pub open spec fn failure_of(
    fields: Fields,
    path: Seq<char>,
    body: Option<Seq<u8>>,
    answer: Result<Tier, RouteFault>,
) -> Option<RouteFault> {
    match begun(fields, path, body) {
        Err(fault) => Some(fault),
        Ok(turn) => match answer {
            Err(fault) => Some(fault),
            Ok(_) => if turn.body is Object {
                None
            } else {
                Some(RouteFault::Body("not an object"@))
            },
        },
    }
}

/// A request and what the judge answers to it, as far as the memory goes.
pub open spec fn record_of(
    fields: Fields,
    path: Seq<char>,
    body: Option<Seq<u8>>,
    answer: Result<Tier, RouteFault>,
    now: u64,
) -> TurnRecord {
    TurnRecord {
        session: request_key(fields, body),
        now,
        end: match failure_of(fields, path, body, answer) {
            None => TurnEnd::Routed(answer->Ok_0),
            Some(fault) => if rewritable(fault) {
                TurnEnd::JudgeFailed
            } else {
                TurnEnd::Refused
            },
        },
    }
}

/// What a whole routing pass makes of a request.
#[derive(Debug)]
pub enum Outcome {
    /// The judge chose, and the request is sent there.
    Routed(Routed),
    /// There is no decision.
    Failed {
        /// Why.
        error: RouteError,
        /// What becomes of the request.
        fallback: Fallback,
    },
}

/// What the judge answers, by content.
pub open spec fn answered(answer: Result<Tier, RouteError>) -> Result<Tier, RouteFault> {
    match answer {
        Ok(tier) => Ok(tier),
        Err(error) => Err(error@),
    }
}

/// The filter.
pub struct SwitchyardRouteFilter {
    /// Validated configuration.
    config: RouteConfig,
    /// Last successful judge tier per session.
    sessions: SessionStore,
}

impl SwitchyardRouteFilter {
    /// The configuration.
    pub closed spec fn config(&self) -> RouteView {
        self.config@
    }

    /// The remembered sessions, least recently used first.
    pub closed spec fn entries(&self) -> Seq<EntryView> {
        self.sessions.entries()
    }

    /// How long an unused session is remembered, in nanoseconds.
    pub closed spec fn ttl(&self) -> u64 {
        self.sessions.ttl()
    }

    /// How many sessions are remembered.
    pub closed spec fn capacity(&self) -> nat {
        self.sessions.capacity()
    }

    /// Whether the memory keeps its bound and its keys distinct.
    pub open spec fn wf(&self) -> bool {
        &&& distinct(self.entries())
        &&& self.entries().len() <= self.capacity()
        &&& self.capacity() > 0
    }

    /// Whether `other` is configured as this filter is.
    pub open spec fn configured_as(&self, other: &SwitchyardRouteFilter) -> bool {
        &&& self.config() == other.config()
        &&& self.ttl() == other.ttl()
        &&& self.capacity() == other.capacity()
    }

    /// Makes the filter of a validated configuration; nothing is remembered yet.
    pub fn new(config: RouteConfig) -> (filter: SwitchyardRouteFilter)
        ensures
            filter.wf(),
            filter.config() == config@,
            filter.entries() == Seq::<EntryView>::empty(),
            filter.ttl() == super::session::IDLE_TTL,
            filter.capacity() == super::session::MAX_SESSIONS,
    {
        SwitchyardRouteFilter { config, sessions: SessionStore::with_defaults() }
    }

    /// Makes the filter of settings as written and the content of the
    /// environment variable that the credential block names.
    pub fn from_config(settings: RouteSettings, secret: Option<String>) -> (r: Result<
        SwitchyardRouteFilter,
        ConfigError,
    >)
        ensures
            ({
                let outcome = configured(
                    settings,
                    parsed_uri(settings.judge.endpoint@),
                    opt_text(secret),
                );
                match r {
                    Ok(filter) => {
                        &&& outcome == Ok::<RouteView, Seq<char>>(filter.config())
                        &&& filter.wf()
                        &&& filter.entries() == Seq::<EntryView>::empty()
                        &&& filter.ttl() == super::session::IDLE_TTL
                        &&& filter.capacity() == super::session::MAX_SESSIONS
                    },
                    Err(error) => outcome == Err::<RouteView, Seq<char>>(error.message@),
                }
            }),
    {
        match parse(settings, secret) {
            Ok(config) => Ok(SwitchyardRouteFilter::new(config)),
            Err(error) => Err(error),
        }
    }

    /// The configuration.
    pub fn settings(&self) -> (r: &RouteConfig)
        ensures
            r@ == self.config(),
    {
        &self.config
    }

    /// Begins a routing pass: parses the body, checks the path and derives the
    /// session key.
    pub fn begin(
        &self,
        headers: &http::HeaderMap<http::HeaderValue>,
        path: &str,
        body: Option<&[u8]>,
    ) -> (r: Result<Turn, RouteError>)
        ensures
            match r {
                Ok(turn) => begun(header_fields(*headers), path@, body_bytes(body)) == Ok::<
                    TurnView,
                    RouteFault,
                >(turn@),
                Err(error) => begun(header_fields(*headers), path@, body_bytes(body)) == Err::<
                    TurnView,
                    RouteFault,
                >(error@),
            },
            r matches Ok(turn) ==> may_name_reserved(body_bytes(body)->Some_0) || printable(
                turn@.body,
            ),
    {
        let value = match parse_body(body) {
            Ok(value) => value,
            Err(error) => return Err(error),
        };
        if !ends_with(path, "/chat/completions") {
            return Err(RouteError::UnsupportedPath);
        }
        let session = session_key_from_request(headers, &value);
        Ok(Turn { value, session })
    }

    /// Rewrites a body to the tier's model and names the cluster.
    pub fn rewrite_for_tier(
        &self,
        value: serde_json::Value,
        tier: Tier,
        decision: &'static str,
    ) -> (r: Result<Routed, RouteError>)
        ensures
            match r {
                Ok(routed) => sent(self.config(), json_tree(value), tier, decision@) == Ok::<
                    RoutedView,
                    RouteFault,
                >(routed@),
                Err(error) => sent(self.config(), json_tree(value), tier, decision@) == Err::<
                    RoutedView,
                    RouteFault,
                >(error@),
            },
            r matches Ok(routed) ==> carries(
                routed.body@,
                json_tree(value),
                "model"@,
                self.config().target(tier).model,
            ),
    {
        let target = self.config.target(tier);
        match rewrite_model(value, target.model.as_str()) {
            Ok(body) => Ok(Routed { body, cluster: target.cluster.clone(), decision }),
            Err(error) => Err(error),
        }
    }

    /// Ends a routing pass whose judge chose `tier`: rewrites the body and
    /// remembers the tier for the session.
    pub fn settle(&mut self, turn: Turn, tier: Tier, now: u64) -> (r: Result<Routed, RouteError>)
        requires
            old(self).wf(),
        ensures
            final(self).wf(),
            final(self).configured_as(old(self)),
            match r {
                Ok(routed) => {
                    &&& sent(old(self).config(), turn@.body, tier, DECISION_ROUTED@) == Ok::<
                        RoutedView,
                        RouteFault,
                    >(routed@)
                    &&& final(self).entries() == (match turn@.session {
                        Some(key) => after_remember(
                            old(self).entries(),
                            key,
                            tier,
                            now,
                            old(self).capacity(),
                        ),
                        None => old(self).entries(),
                    })
                    &&& carries(
                        routed.body@,
                        turn@.body,
                        "model"@,
                        old(self).config().target(tier).model,
                    )
                },
                Err(error) => {
                    &&& sent(old(self).config(), turn@.body, tier, DECISION_ROUTED@) == Err::<
                        RoutedView,
                        RouteFault,
                    >(error@)
                    &&& final(self).entries() == old(self).entries()
                },
            },
    {
        let routed = match self.rewrite_for_tier(turn.value, tier, DECISION_ROUTED) {
            Ok(routed) => routed,
            Err(error) => return Err(error),
        };
        if let Some(key) = &turn.session {
            self.sessions.remember(key, tier, now);
        }
        Ok(routed)
    }

    /// A whole routing pass that ends at `now`, with the answer of the judge at
    /// hand: the tier that it chose or the failure that it ended in.
    pub fn route(
        &mut self,
        headers: &http::HeaderMap<http::HeaderValue>,
        path: &str,
        body: Option<&[u8]>,
        answer: Result<Tier, RouteError>,
        now: u64,
    ) -> (r: Outcome)
        requires
            old(self).wf(),
        ensures
            final(self).wf(),
            final(self).configured_as(old(self)),
            ({
                let fields = header_fields(*headers);
                let bytes = body_bytes(body);
                let failure = failure_of(fields, path@, bytes, answered(answer));
                let record = record_of(fields, path@, bytes, answered(answer), now);
                &&& final(self).entries() == entries_after(
                    old(self).entries(),
                    old(self).ttl(),
                    old(self).capacity(),
                    record,
                )
                &&& match r {
                    Outcome::Routed(routed) => {
                        let tier = answered(answer)->Ok_0;
                        &&& failure is None
                        &&& sent(
                            old(self).config(),
                            body_of(bytes)->Ok_0,
                            tier,
                            DECISION_ROUTED@,
                        ) == Ok::<RoutedView, RouteFault>(routed@)
                        &&& body_carries(
                            routed.body@,
                            bytes,
                            old(self).config().target(tier).model,
                        )
                    },
                    Outcome::Failed { error, fallback } => {
                        &&& failure == Some(error@)
                        &&& fallback@ == recovered(
                            old(self).config(),
                            bytes,
                            rewritable(error@),
                            if rewritable(error@) {
                                remembered_for(
                                    old(self).entries(),
                                    old(self).ttl(),
                                    record.session,
                                    now,
                                )
                            } else {
                                None
                            },
                        )
                        &&& fallback_carries(old(self).config(), bytes, fallback@)
                    },
                }
            }),
    {
        let settled = match self.begin(headers, path, body) {
            Ok(turn) => match answer {
                Ok(tier) => self.settle(turn, tier, now),
                Err(error) => Err(error),
            },
            Err(error) => Err(error),
        };
        match settled {
            Ok(routed) => Outcome::Routed(routed),
            Err(error) => {
                let fallback = self.on_route_error(headers, body, &error, now);
                Outcome::Failed { error, fallback }
            },
        }
    }

    /// Looks up the last real judge success for this request's session.
    pub fn lookup_remembered(
        &mut self,
        headers: &http::HeaderMap<http::HeaderValue>,
        body: Option<&[u8]>,
        now: u64,
    ) -> (r: Option<Tier>)
        requires
            old(self).wf(),
        ensures
            final(self).wf(),
            final(self).configured_as(old(self)),
            r == remembered_for(
                old(self).entries(),
                old(self).ttl(),
                request_key(header_fields(*headers), body_bytes(body)),
                now,
            ),
            final(self).entries() == looked_up(
                old(self).entries(),
                old(self).ttl(),
                request_key(header_fields(*headers), body_bytes(body)),
                now,
            ),
    {
        let value = match parse_body(body) {
            Ok(value) => value,
            Err(_) => return None,
        };
        match session_key_from_request(headers, &value) {
            Some(key) => self.sessions.last_success(&key, now),
            None => None,
        }
    }

    /// Applies `on_failure` to a request without a decision: reuse, default
    /// strong, 503, or unrouted.
    pub fn on_route_error(
        &mut self,
        headers: &http::HeaderMap<http::HeaderValue>,
        body: Option<&[u8]>,
        error: &RouteError,
        now: u64,
    ) -> (r: Fallback)
        requires
            old(self).wf(),
        ensures
            final(self).wf(),
            final(self).configured_as(old(self)),
            ({
                let key = request_key(header_fields(*headers), body_bytes(body));
                if rewritable(error@) {
                    &&& r@ == recovered(
                        old(self).config(),
                        body_bytes(body),
                        true,
                        remembered_for(old(self).entries(), old(self).ttl(), key, now),
                    )
                    &&& final(self).entries() == looked_up(
                        old(self).entries(),
                        old(self).ttl(),
                        key,
                        now,
                    )
                } else {
                    &&& r@ == recovered(old(self).config(), body_bytes(body), false, None)
                    &&& final(self).entries() == old(self).entries()
                }
            }),
            fallback_carries(old(self).config(), body_bytes(body), r@),
    {
        let may_apply = error.may_apply_failure_tier();
        let remembered = if may_apply {
            self.lookup_remembered(headers, body, now)
        } else {
            None
        };
        self.dispatch_failure(body, may_apply, remembered)
    }

    /// Maps a failure disposition onto continue, 503 or rewrite.
    pub fn dispatch_failure(
        &self,
        body: Option<&[u8]>,
        may_apply: bool,
        remembered: Option<Tier>,
    ) -> (r: Fallback)
        ensures
            r@ == recovered(self.config(), body_bytes(body), may_apply, remembered),
            fallback_carries(self.config(), body_bytes(body), r@),
    {
        match failure_action(self.config.on_failure, may_apply, remembered) {
            FailureAction::Reject => reject_closed(),
            FailureAction::Unrouted => fail_open_unrouted(),
            FailureAction::Apply(apply) => self.apply_failure_tier(body, apply),
        }
    }

    /// Rewrites the request for a fallback tier.
    pub fn apply_failure_tier(&self, body: Option<&[u8]>, apply: FailureApply) -> (r: Fallback)
        ensures
            r@ == (match body_of(body_bytes(body)) {
                Err(_) => plain(self.config().on_failure),
                Ok(tree) => match sent(
                    self.config(),
                    tree,
                    apply.tier,
                    fallback_text(apply.kind),
                ) {
                    Ok(routed) => FallbackView::Serve { routed, apply },
                    Err(_) => plain(self.config().on_failure),
                },
            }),
            fallback_carries(self.config(), body_bytes(body), r@),
    {
        let value = match parse_body(body) {
            Ok(value) => value,
            Err(_) => return fail_open_or_reject(self.config.on_failure),
        };
        match self.rewrite_for_tier(value, apply.tier, apply.kind.metadata()) {
            Ok(routed) => Fallback::Serve { routed, apply },
            Err(_) => fail_open_or_reject(self.config.on_failure),
        }
    }

    /// The clusters that a pass can choose: weak, then strong.
    pub fn selected_clusters(&self) -> (r: Vec<String>)
        ensures
            r@.map_values(|name: String| name@) == seq![
                self.config().weak.cluster,
                self.config().strong.cluster,
            ],
    {
        let mut names: Vec<String> = Vec::new();
        names.push(self.config.weak.cluster.clone());
        names.push(self.config.strong.cluster.clone());
        names
    }
}

/// 503 for a filter that fails closed.
pub fn reject_closed() -> (r: Fallback)
    ensures
        r@ == plain(FailureMode::Closed),
{
    Fallback::Reject { status: 503, decision: DECISION_REJECTED }
}

/// Pass through for a filter that fails open.
pub fn fail_open_unrouted() -> (r: Fallback)
    ensures
        r@ == plain(FailureMode::Open),
{
    Fallback::PassThrough { decision: DECISION_UNROUTED }
}

/// What becomes of a request that cannot be rewritten.
pub fn fail_open_or_reject(mode: FailureMode) -> (r: Fallback)
    ensures
        r@ == plain(mode),
{
    match mode {
        FailureMode::Closed => reject_closed(),
        FailureMode::Open => fail_open_unrouted(),
    }
}

/// The cluster of a request in the request phase: the one that the body phase
/// stashed, otherwise the one that is already chosen.
pub fn request_cluster(chosen: &Option<String>, stashed: &Option<String>) -> (r: Option<String>)
    ensures
        opt_text(r) == (if *stashed is Some {
            opt_text(*stashed)
        } else {
            opt_text(*chosen)
        }),
{
    if stashed.is_some() {
        copy_text(stashed)
    } else {
        copy_text(chosen)
    }
}

} // verus!
