//! The floor-keeping filter: one routing pass per request.
//!
//! A pass has two halves around the judge's answer. [`SwitchyardRouteFilter::begin`]
//! parses the body, recognises its format and looks the session's floor up;
//! [`SwitchyardRouteFilter::settle`] takes the tag that the classifier chose,
//! clamps it to the floor, raises the floor and rewrites the body. A pass that
//! fails leaves the request as it came, or is rejected.
//! [`SwitchyardRouteFilter::route`] is the two in one, for an answer that is at
//! hand.
//!
//! Once a session is routed to the strong tier it is not routed below it again
//! while its floor lives.

use vstd::prelude::*;

use super::config::{
    config_problem, parse_config, scalar_problem, settled, RouteConfig, RouteSettings, RouteView,
    MAX_TTL_SECS,
};
use super::endpoint::{configured, EndpointView, JudgeEndpoint};
use super::error::{fault_text, RouteError, RouteFault};
use super::floor::{
    after_commit, after_lookup, floor_at, no_floors, raised, FloorEntry, InMemorySessionFloor,
    SessionFloorStore,
};
use super::judge::{document, parse_outcome};
use super::translate::{detect_format, rewrite_model, wire_format, WireFormat};
use crate::clock::NANOS_PER_SEC;
use crate::config::{ConfigError, FailureMode};
use crate::json::{
    carries, is_object, json_bytes, json_tree, may_name_reserved, parse_json, parsed_json,
    printable, reads_back, with_text, JsonTree,
};
use crate::text::{lowered, text_eq, to_lower, trim, trimmed, truncate, truncated};
use crate::tier::{tag_text, tagged, Tier};
use crate::wire::{
    copy_text, header_fields, header_text, header_value_text, opt_text, HeaderField,
};

verus! {

/// Metadata key carrying the chosen cluster to the request phase.
pub const METADATA_CLUSTER: &'static str = "switchyard_route.cluster";

/// Metadata key recording the chosen tier tag.
pub const METADATA_TIER: &'static str = "switchyard_route.tier";

/// Metadata key recording the model written into the body.
pub const METADATA_MODEL: &'static str = "switchyard_route.model";

/// Metadata key recording why routing was skipped.
pub const METADATA_ERROR: &'static str = "switchyard_route.error";

/// Header that marks a session's final turn and evicts its floor.
pub const SESSION_FINAL_HEADER: &'static str = "x-switchyard-session-final";

/// Byte cap of the error metadata value.
pub const METADATA_VALUE_LIMIT: usize = 256;

/// The header fields of a request, by lower-case name.
pub type Fields = Map<Seq<char>, Seq<HeaderField>>;

/// The committed floors, by session id.
pub type Floors = Map<Seq<char>, FloorEntry>;

/// The body of a request as a JSON object, given what parsing it gives.
pub open spec fn body_object(
    body: Option<Seq<u8>>,
    parsed: Result<JsonTree, Seq<char>>,
) -> Result<JsonTree, RouteFault> {
    match body {
        Some(bytes) if bytes.len() > 0 => match parsed {
            Err(error) => Err(RouteFault::Json(error)),
            Ok(tree) => if tree is Object {
                Ok(tree)
            } else {
                Err(RouteFault::Body("is not a JSON object"@))
            },
        },
        _ => Err(RouteFault::Body("is missing or empty"@)),
    }
}

/// The bytes of an optional body.
pub open spec fn body_bytes(body: Option<&[u8]>) -> Option<Seq<u8>> {
    match body {
        Some(bytes) => Some(bytes@),
        None => None,
    }
}

/// The bytes of an optional body, or none.
pub open spec fn bytes_or_none(body: Option<Seq<u8>>) -> Seq<u8> {
    match body {
        Some(bytes) => bytes,
        None => Seq::empty(),
    }
}

/// The session id in the header `name`, if one stands there.
pub open spec fn session_of(fields: Fields, name: Seq<char>) -> Option<Seq<char>> {
    match header_text(fields, name) {
        Some(text) => if trimmed(text).len() > 0 {
            Some(trimmed(text))
        } else {
            None
        },
        None => None,
    }
}

/// Whether a text is one of the ways to say yes.
pub open spec fn affirmative(text: Seq<char>) -> bool {
    let word = lowered(trimmed(text));
    word == "1"@ || word == "true"@ || word == "yes"@ || word == "on"@
}

/// Whether a request marks its session's final turn.
pub open spec fn is_final(fields: Fields) -> bool {
    match header_text(fields, SESSION_FINAL_HEADER@) {
        Some(text) => affirmative(text),
        None => false,
    }
}

/// Accepts the outcome of parsing a body that is neither missing nor empty.
pub fn accept_object(parsed: Result<serde_json::Value, String>) -> (r: Result<
    serde_json::Value,
    RouteError,
>)
    ensures
        forall|bytes: Seq<u8>|
            bytes.len() > 0 ==> document(r) == #[trigger] body_object(
                Some(bytes),
                parse_outcome(parsed),
            ),
{
    match parsed {
        Err(error) => Err(RouteError::Json(error)),
        Ok(value) => {
            if is_object(&value) {
                Ok(value)
            } else {
                Err(RouteError::Body("is not a JSON object"))
            }
        },
    }
}

/// Parses the buffered body into a JSON object.
pub fn parse_body(body: Option<&[u8]>) -> (r: Result<serde_json::Value, RouteError>)
    ensures
        document(r) == body_object(
            body_bytes(body),
            parsed_json(bytes_or_none(body_bytes(body))),
        ),
        r matches Ok(value) ==> may_name_reserved(bytes_or_none(body_bytes(body))) || printable(
            json_tree(value),
        ),
{
    match body {
        Some(bytes) => {
            if bytes.len() == 0 {
                return Err(RouteError::Body("is missing or empty"));
            }
            let parsed = parse_json(bytes);
            let ghost outcome = parse_outcome(parsed);
            let accepted = accept_object(parsed);
            assert(document(accepted) == body_object(Some(bytes@), outcome));
            accepted
        },
        None => Err(RouteError::Body("is missing or empty")),
    }
}

/// Whether this turn is marked as the session's last.
pub fn session_final(headers: &http::HeaderMap<http::HeaderValue>) -> (r: bool)
    ensures
        r == is_final(header_fields(*headers)),
{
    proof {
        reveal_strlit("x-switchyard-session-final");
    }
    match header_value_text(headers, SESSION_FINAL_HEADER) {
        Some(text) => {
            let word = to_lower(trim(text.as_str()).as_str());
            text_eq(word.as_str(), "1") || text_eq(word.as_str(), "true") || text_eq(
                word.as_str(),
                "yes",
            ) || text_eq(word.as_str(), "on")
        },
        None => false,
    }
}

/// What a routing pass knows before the judge is asked.
#[derive(Debug)]
pub struct Turn {
    /// The parsed body.
    pub value: serde_json::Value,
    /// The body's wire format.
    pub format: WireFormat,
    /// The session id, if the request carries one.
    pub session: Option<String>,
    /// The session's live floor.
    pub floor: Option<Tier>,
    /// Whether the judge is to be asked.
    pub judged: bool,
    /// Whether the weak tier is to be barred in the classifier.
    pub excludes_weak: bool,
    /// When the pass began.
    pub now: u64,
}

/// The content of a [`Turn`].
pub struct TurnView {
    pub body: JsonTree,
    pub format: WireFormat,
    pub session: Option<Seq<char>>,
    pub floor: Option<Tier>,
    pub judged: bool,
    pub excludes_weak: bool,
    pub now: u64,
}

impl View for Turn {
    type V = TurnView;

    open spec fn view(&self) -> TurnView {
        TurnView {
            body: json_tree(self.value),
            format: self.format,
            session: opt_text(self.session),
            floor: self.floor,
            judged: self.judged,
            excludes_weak: self.excludes_weak,
            now: self.now,
        }
    }
}

/// What a routing pass makes of a request.
#[derive(Debug)]
pub struct Routed {
    /// The rewritten body.
    pub body: Vec<u8>,
    /// The chosen cluster.
    pub cluster: String,
    /// The chosen tier.
    pub tier: Tier,
    /// The model written into the body.
    pub model: String,
}

/// The content of a [`Routed`].
pub struct RoutedView {
    pub body: Seq<u8>,
    pub cluster: Seq<char>,
    pub tier: Tier,
    pub model: Seq<char>,
}

impl View for Routed {
    type V = RoutedView;

    open spec fn view(&self) -> RoutedView {
        RoutedView {
            body: self.body@,
            cluster: self.cluster@,
            tier: self.tier,
            model: self.model@,
        }
    }
}

impl Routed {
    /// The metadata that a routed request carries: cluster, tier and model.
    pub fn metadata(&self) -> (r: Vec<(&'static str, String)>)
        ensures
            r@.len() == 3,
            r@[0].0@ == METADATA_CLUSTER@ && r@[0].1@ == self.cluster@,
            r@[1].0@ == METADATA_TIER@ && r@[1].1@ == tag_text(self.tier),
            r@[2].0@ == METADATA_MODEL@ && r@[2].1@ == self.model@,
    {
        let mut entries: Vec<(&'static str, String)> = Vec::new();
        entries.push((METADATA_CLUSTER, self.cluster.clone()));
        entries.push((METADATA_TIER, self.tier.tag().to_owned()));
        entries.push((METADATA_MODEL, self.model.clone()));
        entries
    }
}

/// What becomes of a request that could not be routed.
#[derive(Debug)]
pub enum Unrouted {
    /// It passes through as it came, with the failure in its metadata.
    PassThrough {
        /// The failure, for [`METADATA_ERROR`].
        error: String,
    },
    /// It is answered by the filter.
    Reject {
        /// Status of the answer.
        status: u16,
        /// Body of the answer.
        body: &'static str,
    },
}

/// The floor that a request's session holds.
pub open spec fn held_floor(
    kept: bool,
    floors: Floors,
    session: Option<Seq<char>>,
    now: u64,
    ttl: u64,
) -> Option<Tier> {
    match session {
        Some(id) if kept => floor_at(floors, id, now, ttl),
        _ => None,
    }
}

/// The floors after a request's session was looked up.
pub open spec fn looked_up(
    kept: bool,
    floors: Floors,
    session: Option<Seq<char>>,
    now: u64,
    ttl: u64,
) -> Floors {
    match session {
        Some(id) if kept => after_lookup(floors, id, now, ttl),
        _ => floors,
    }
}

/// The floors after a request was routed to `chosen`: the session's floor is
/// raised, or dropped on its final turn.
pub open spec fn committed(
    kept: bool,
    floors: Floors,
    session: Option<Seq<char>>,
    last: bool,
    chosen: Tier,
    now: u64,
    ttl: u64,
) -> Floors {
    match session {
        Some(id) if kept => if last {
            floors.remove(id)
        } else {
            after_commit(floors, id, chosen, now, ttl)
        },
        _ => floors,
    }
}

/// What a routing pass knows once the body is recognised; or that nobody can
/// ask the judge, where it would have to be asked.
pub open spec fn planned(
    config: RouteView,
    body: JsonTree,
    format: WireFormat,
    session: Option<Seq<char>>,
    floor: Option<Tier>,
    now: u64,
    reachable: bool,
) -> Result<TurnView, RouteFault> {
    let skipped = floor == Some(Tier::Strong) && config.session_floor.escalation_ratchet;
    if !skipped && !reachable {
        Err(RouteFault::MissingSubrequestClient)
    } else {
        Ok(
            TurnView {
                body,
                format,
                session,
                floor,
                judged: !skipped,
                excludes_weak: !skipped && floor == Some(Tier::Strong)
                    && config.session_floor.exclude_below,
                now,
            },
        )
    }
}

/// A request with a recognised body: the body and its format.
pub open spec fn recognised(
    path: Seq<char>,
    body: Option<Seq<u8>>,
    parsed: Result<JsonTree, Seq<char>>,
) -> Result<(JsonTree, WireFormat), RouteFault> {
    match body_object(body, parsed) {
        Err(fault) => Err(fault),
        Ok(tree) => match wire_format(path, tree) {
            Err(fault) => Err(fault),
            Ok(format) => Ok((tree, format)),
        },
    }
}

/// The rewritten request for a tier.
pub open spec fn applied(config: RouteView, body: JsonTree, chosen: Tier) -> Result<
    RoutedView,
    RouteFault,
> {
    if body is Object {
        Ok(
            RoutedView {
                body: json_bytes(with_text(body, "model"@, config.target(chosen).model)),
                cluster: config.target(chosen).cluster,
                tier: chosen,
                model: config.target(chosen).model,
            },
        )
    } else {
        Err(RouteFault::Body("is not a JSON object"@))
    }
}

/// One turn, as far as the floors go.
pub struct TurnRecord {
    /// The session that the request belongs to, where floors are kept.
    pub session: Option<Seq<char>>,
    /// When the pass began.
    pub now: u64,
    /// The tier that the judge chose, or that the session is held on without
    /// it; `None` for a pass that failed.
    pub decision: Option<Tier>,
    /// Whether the request marks its session's final turn.
    pub last: bool,
}

/// The tier that a turn is routed to, if it is routed.
pub open spec fn served(floors: Floors, ttl: u64, turn: TurnRecord) -> Option<Tier> {
    match turn.decision {
        Some(tier) => Some(raised(held_floor(true, floors, turn.session, turn.now, ttl), tier)),
        None => None,
    }
}

/// The floors after a turn.
pub open spec fn floors_after(floors: Floors, ttl: u64, turn: TurnRecord) -> Floors {
    let found = looked_up(true, floors, turn.session, turn.now, ttl);
    match served(floors, ttl, turn) {
        Some(chosen) => committed(true, found, turn.session, turn.last, chosen, turn.now, ttl),
        None => found,
    }
}

/// A request, and what the classifier answers when it is asked about it.
pub struct Exchange {
    /// The header fields.
    pub fields: Fields,
    /// The path.
    pub path: Seq<char>,
    /// The body.
    pub body: Option<Seq<u8>>,
    /// What parsing the body gives.
    pub parsed: Result<JsonTree, Seq<char>>,
    /// When the pass begins.
    pub now: u64,
    /// Whether there is a client to ask the judge with.
    pub reachable: bool,
    /// The tag that the classifier chooses, or why it chooses none.
    pub answer: Result<Seq<char>, RouteFault>,
}

/// What a pass over an exchange knows before the judge is asked.
pub open spec fn planned_turn(
    kept: bool,
    config: RouteView,
    floors: Floors,
    ttl: u64,
    exchange: Exchange,
) -> Result<TurnView, RouteFault> {
    let session = session_of(exchange.fields, config.session_header);
    match recognised(exchange.path, exchange.body, exchange.parsed) {
        Err(fault) => Err(fault),
        Ok((tree, format)) => planned(
            config,
            tree,
            format,
            session,
            held_floor(kept, floors, session, exchange.now, ttl),
            exchange.now,
            exchange.reachable,
        ),
    }
}

/// The tier that an exchange decides for, before the floor is looked at: the
/// strong one where the judge is not asked, else the one that the answer names.
pub open spec fn decision_of(
    plan: Result<TurnView, RouteFault>,
    answer: Result<Seq<char>, RouteFault>,
) -> Result<Tier, RouteFault> {
    match plan {
        Err(fault) => Err(fault),
        Ok(turn) => if !turn.judged {
            Ok(Tier::Strong)
        } else {
            match answer {
                Err(fault) => Err(fault),
                Ok(tag) => match tagged(tag) {
                    Some(tier) => Ok(tier),
                    None => Err(RouteFault::UnknownTier(tag)),
                },
            }
        },
    }
}

/// An exchange, as far as the floors go.
pub open spec fn record_of(
    kept: bool,
    config: RouteView,
    floors: Floors,
    ttl: u64,
    exchange: Exchange,
) -> TurnRecord {
    let plan = planned_turn(kept, config, floors, ttl, exchange);
    TurnRecord {
        session: if kept && recognised(exchange.path, exchange.body, exchange.parsed) is Ok {
            session_of(exchange.fields, config.session_header)
        } else {
            None
        },
        now: exchange.now,
        decision: match decision_of(plan, exchange.answer) {
            Ok(tier) => Some(tier),
            Err(_) => None,
        },
        last: is_final(exchange.fields),
    }
}

/// What becomes of an exchange: the request for the tier that it is served, or
/// why the pass failed.
pub open spec fn routed(
    kept: bool,
    config: RouteView,
    floors: Floors,
    ttl: u64,
    exchange: Exchange,
) -> Result<RoutedView, RouteFault> {
    let plan = planned_turn(kept, config, floors, ttl, exchange);
    match decision_of(plan, exchange.answer) {
        Err(fault) => Err(fault),
        Ok(tier) => applied(config, plan->Ok_0.body, raised(plan->Ok_0.floor, tier)),
    }
}

/// An outcome by content.
pub open spec fn by_content<T: View>(r: Result<T, RouteError>) -> Result<T::V, RouteFault> {
    match r {
        Ok(value) => Ok(value@),
        Err(error) => Err(error@),
    }
}

/// The filter.
pub struct SwitchyardRouteFilter {
    /// Validated configuration.
    config: RouteConfig,
    /// The judge endpoint, parsed once at configuration time.
    judge_endpoint: JudgeEndpoint,
    /// The session floors; `None` when none are kept.
    floor: Option<InMemorySessionFloor>,
}

impl SwitchyardRouteFilter {
    /// The configuration.
    pub closed spec fn config(&self) -> RouteView {
        self.config@
    }

    /// The judge endpoint.
    pub closed spec fn endpoint(&self) -> EndpointView {
        self.judge_endpoint@
    }

    /// Whether session floors are kept.
    pub closed spec fn kept(&self) -> bool {
        self.floor is Some
    }

    /// The committed floors.
    pub closed spec fn floors(&self) -> Floors {
        match self.floor {
            Some(store) => store.entries(),
            None => no_floors(),
        }
    }

    /// How long a floor outlives the last commit, in nanoseconds.
    pub closed spec fn ttl(&self) -> u64 {
        match self.floor {
            Some(store) => store.ttl(),
            None => 0,
        }
    }

    /// Whether the filter is as its constructors make it and its passes leave it.
    pub open spec fn wf(&self) -> bool {
        &&& scalar_problem(self.config()) is None
        &&& self.endpoint().sendable()
        &&& self.kept() == self.config().session_floor.enabled
        &&& self.kept() ==> self.ttl() == self.config().session_floor.ttl_secs * NANOS_PER_SEC
    }

    /// Whether `other` is configured as this filter is.
    pub open spec fn configured_as(&self, other: &SwitchyardRouteFilter) -> bool {
        &&& self.config() == other.config()
        &&& self.endpoint() == other.endpoint()
        &&& self.kept() == other.kept()
        &&& self.ttl() == other.ttl()
    }

    /// Makes the filter of a validated configuration and the content of the
    /// environment variable that its credential block names.
    pub fn from_config(config: RouteConfig, secret: Option<String>) -> (r: Result<
        SwitchyardRouteFilter,
        ConfigError,
    >)
        requires
            scalar_problem(config@) is None,
        ensures
            match r {
                Ok(filter) => {
                    &&& configured(config@.judge, opt_text(secret)) == Ok::<
                        EndpointView,
                        Seq<char>,
                    >(filter.endpoint())
                    &&& filter.config() == config@
                    &&& filter.floors() == no_floors()
                    &&& filter.wf()
                },
                Err(error) => configured(config@.judge, opt_text(secret)) == Err::<
                    EndpointView,
                    Seq<char>,
                >(error.message@),
            },
    {
        let judge_endpoint = match JudgeEndpoint::from_config(&config.judge, secret) {
            Ok(endpoint) => endpoint,
            Err(error) => return Err(error),
        };
        let floor = if config.session_floor.enabled {
            let ttl_secs: u64 = config.session_floor.ttl_secs;
            assert(ttl_secs <= MAX_TTL_SECS);
            Some(InMemorySessionFloor::new(ttl_secs * NANOS_PER_SEC))
        } else {
            None
        };
        Ok(SwitchyardRouteFilter { config, judge_endpoint, floor })
    }

    /// Makes the filter of settings as written.
    pub fn from_settings(settings: RouteSettings, secret: Option<String>) -> (r: Result<
        SwitchyardRouteFilter,
        ConfigError,
    >)
        ensures
            match r {
                Ok(filter) => {
                    &&& config_problem(settled(settings)) is None
                    &&& configured(settled(settings).judge, opt_text(secret)) == Ok::<
                        EndpointView,
                        Seq<char>,
                    >(filter.endpoint())
                    &&& filter.config() == settled(settings)
                    &&& filter.floors() == no_floors()
                    &&& filter.wf()
                },
                Err(error) => match config_problem(settled(settings)) {
                    Some(problem) => error.message@ == problem,
                    None => configured(settled(settings).judge, opt_text(secret)) == Err::<
                        EndpointView,
                        Seq<char>,
                    >(error.message@),
                },
            },
    {
        match parse_config(settings) {
            Ok(config) => SwitchyardRouteFilter::from_config(config, secret),
            Err(error) => Err(error),
        }
    }

    /// The configuration.
    pub fn settings(&self) -> (r: &RouteConfig)
        ensures
            r@ == self.config(),
    {
        &self.config
    }

    /// The judge endpoint.
    pub fn judge_endpoint(&self) -> (r: &JudgeEndpoint)
        ensures
            r@ == self.endpoint(),
    {
        &self.judge_endpoint
    }

    /// Reads the session id from the configured header, if present.
    pub fn session_id(&self, headers: &http::HeaderMap<http::HeaderValue>) -> (r: Option<String>)
        requires
            self.wf(),
        ensures
            opt_text(r) == session_of(header_fields(*headers), self.config().session_header),
    {
        match header_value_text(headers, self.config.session_header.as_str()) {
            Some(text) => {
                let id = trim(text.as_str());
                if id.as_str().unicode_len() > 0 {
                    Some(id)
                } else {
                    None
                }
            },
            None => None,
        }
    }

    /// The live floor for this session, when floors are kept.
    pub fn session_floor(&mut self, session: &Option<String>, now: u64) -> (r: Option<Tier>)
        ensures
            r == held_floor(
                old(self).kept(),
                old(self).floors(),
                opt_text(*session),
                now,
                old(self).ttl(),
            ),
            final(self).floors() == looked_up(
                old(self).kept(),
                old(self).floors(),
                opt_text(*session),
                now,
                old(self).ttl(),
            ),
            final(self).configured_as(old(self)),
    {
        match session {
            Some(id) => match &mut self.floor {
                Some(store) => store.floor(id.as_str(), now),
                None => None,
            },
            None => None,
        }
    }

    /// Raises the floor after a successful decision, or evicts it on the
    /// session's final turn.
    pub fn commit_floor(
        &mut self,
        headers: &http::HeaderMap<http::HeaderValue>,
        session: &Option<String>,
        chosen: Tier,
        now: u64,
    )
        ensures
            final(self).floors() == committed(
                old(self).kept(),
                old(self).floors(),
                opt_text(*session),
                is_final(header_fields(*headers)),
                chosen,
                now,
                old(self).ttl(),
            ),
            final(self).configured_as(old(self)),
    {
        if let Some(id) = session {
            if let Some(store) = &mut self.floor {
                if session_final(headers) {
                    store.evict(id.as_str());
                } else {
                    store.commit(id.as_str(), chosen, now);
                }
            }
        }
    }

    /// Begins a routing pass: parses the body, recognises its format and looks
    /// the session's floor up. A session at the strong floor skips the judge
    /// where the escalation ratchet is on. `reachable` says whether there is a
    /// client to ask the judge with.
    pub fn begin(
        &mut self,
        headers: &http::HeaderMap<http::HeaderValue>,
        path: &str,
        body: Option<&[u8]>,
        now: u64,
        reachable: bool,
    ) -> (r: Result<Turn, RouteError>)
        requires
            old(self).wf(),
        ensures
            final(self).wf(),
            final(self).configured_as(old(self)),
            match recognised(path@, body_bytes(body), parsed_json(bytes_or_none(body_bytes(body)))) {
                Err(fault) => r matches Err(error) && error@ == fault && final(self).floors()
                    == old(self).floors(),
                Ok((tree, format)) => {
                    let session = session_of(
                        header_fields(*headers),
                        old(self).config().session_header,
                    );
                    let floor = held_floor(
                        old(self).kept(),
                        old(self).floors(),
                        session,
                        now,
                        old(self).ttl(),
                    );
                    &&& by_content(r) == planned(
                        old(self).config(),
                        tree,
                        format,
                        session,
                        floor,
                        now,
                        reachable,
                    )
                    &&& final(self).floors() == looked_up(
                        old(self).kept(),
                        old(self).floors(),
                        session,
                        now,
                        old(self).ttl(),
                    )
                },
            },
            r matches Ok(turn) ==> turn@.body is Object,
            r matches Ok(turn) ==> may_name_reserved(bytes_or_none(body_bytes(body))) || printable(
                turn@.body,
            ),
    {
        let value = match parse_body(body) {
            Ok(value) => value,
            Err(error) => return Err(error),
        };
        let format = match detect_format(path, &value) {
            Ok(format) => format,
            Err(error) => return Err(error),
        };
        let session = self.session_id(headers);
        let floor = self.session_floor(&session, now);
        let strong = match floor {
            Some(Tier::Strong) => true,
            _ => false,
        };
        let judged = !(strong && self.config.session_floor.escalation_ratchet);
        if judged && !reachable {
            return Err(RouteError::MissingSubrequestClient);
        }
        let excludes_weak = judged && strong && self.config.session_floor.exclude_below;
        Ok(Turn { value, format, session, floor, judged, excludes_weak, now })
    }

    /// Ends a routing pass whose judge was asked: clamps the tier that `tag`
    /// names to the floor, raises the floor and rewrites the body.
    pub fn settle(
        &mut self,
        headers: &http::HeaderMap<http::HeaderValue>,
        turn: Turn,
        tag: String,
    ) -> (r: Result<Routed, RouteError>)
        requires
            old(self).wf(),
        ensures
            final(self).wf(),
            final(self).configured_as(old(self)),
            match tagged(tag@) {
                None => r matches Err(error) && error@ == RouteFault::UnknownTier(tag@)
                    && final(self).floors() == old(self).floors(),
                Some(tier) => {
                    let chosen = raised(turn.floor, tier);
                    &&& by_content(r) == applied(old(self).config(), turn@.body, chosen)
                    &&& final(self).floors() == committed(
                        old(self).kept(),
                        old(self).floors(),
                        turn@.session,
                        is_final(header_fields(*headers)),
                        chosen,
                        turn.now,
                        old(self).ttl(),
                    )
                    &&& r matches Ok(routed) ==> carries(
                        routed.body@,
                        turn@.body,
                        "model"@,
                        routed.model@,
                    )
                },
            },
    {
        let tier = match Tier::from_tag(tag.as_str()) {
            Some(tier) => tier,
            None => return Err(RouteError::UnknownTier(tag)),
        };
        let chosen = match turn.floor {
            Some(held) => held.at_least(tier),
            None => tier,
        };
        self.finish(headers, turn, chosen)
    }

    /// Ends a routing pass whose judge was skipped: the session stays on the
    /// strong tier.
    pub fn hold(&mut self, headers: &http::HeaderMap<http::HeaderValue>, turn: Turn) -> (r: Result<
        Routed,
        RouteError,
    >)
        requires
            old(self).wf(),
        ensures
            final(self).wf(),
            final(self).configured_as(old(self)),
            by_content(r) == applied(old(self).config(), turn@.body, Tier::Strong),
            final(self).floors() == committed(
                old(self).kept(),
                old(self).floors(),
                turn@.session,
                is_final(header_fields(*headers)),
                Tier::Strong,
                turn.now,
                old(self).ttl(),
            ),
            r matches Ok(routed) ==> carries(routed.body@, turn@.body, "model"@, routed.model@),
    {
        self.finish(headers, turn, Tier::Strong)
    }

    /// A whole routing pass, with the answer of the classifier at hand: `answer`
    /// is the tag that it chose or the failure that it ended in, and is not
    /// looked at where the judge is not asked.
    pub fn route(
        &mut self,
        headers: &http::HeaderMap<http::HeaderValue>,
        path: &str,
        body: Option<&[u8]>,
        now: u64,
        reachable: bool,
        answer: Result<String, RouteError>,
    ) -> (r: Result<Routed, RouteError>)
        requires
            old(self).wf(),
        ensures
            final(self).wf(),
            final(self).configured_as(old(self)),
            ({
                let bytes = bytes_or_none(body_bytes(body));
                let exchange = Exchange {
                    fields: header_fields(*headers),
                    path: path@,
                    body: body_bytes(body),
                    parsed: parsed_json(bytes),
                    now,
                    reachable,
                    answer: by_content(answer),
                };
                let record = record_of(
                    old(self).kept(),
                    old(self).config(),
                    old(self).floors(),
                    old(self).ttl(),
                    exchange,
                );
                &&& by_content(r) == routed(
                    old(self).kept(),
                    old(self).config(),
                    old(self).floors(),
                    old(self).ttl(),
                    exchange,
                )
                &&& final(self).floors() == floors_after(
                    old(self).floors(),
                    old(self).ttl(),
                    record,
                )
                &&& served(old(self).floors(), old(self).ttl(), record) == (match r {
                    Ok(sent) => Some(sent.tier),
                    Err(_) => None,
                })
                &&& r matches Ok(sent) ==> {
                    let tree = parsed_json(bytes)->Ok_0;
                    &&& carries(sent.body@, tree, "model"@, sent.model@)
                    &&& may_name_reserved(bytes) || reads_back(
                        sent.body@,
                        with_text(tree, "model"@, sent.model@),
                    )
                }
            }),
    {
        let turn = match self.begin(headers, path, body, now, reachable) {
            Ok(turn) => turn,
            Err(error) => return Err(error),
        };
        if !turn.judged {
            self.hold(headers, turn)
        } else {
            match answer {
                Ok(tag) => self.settle(headers, turn, tag),
                Err(error) => Err(error),
            }
        }
    }

    fn finish(
        &mut self,
        headers: &http::HeaderMap<http::HeaderValue>,
        turn: Turn,
        chosen: Tier,
    ) -> (r: Result<Routed, RouteError>)
        ensures
            final(self).configured_as(old(self)),
            by_content(r) == applied(old(self).config(), turn@.body, chosen),
            final(self).floors() == committed(
                old(self).kept(),
                old(self).floors(),
                turn@.session,
                is_final(header_fields(*headers)),
                chosen,
                turn.now,
                old(self).ttl(),
            ),
            r matches Ok(routed) ==> carries(routed.body@, turn@.body, "model"@, routed.model@),
    {
        self.commit_floor(headers, &turn.session, chosen, turn.now);
        self.apply(turn.value, chosen)
    }

    /// Applies a clamped decision: rewrites the body's model and names the
    /// cluster.
    pub fn apply(&self, value: serde_json::Value, chosen: Tier) -> (r: Result<Routed, RouteError>)
        ensures
            by_content(r) == applied(self.config(), json_tree(value), chosen),
            r matches Ok(routed) ==> carries(
                routed.body@,
                json_tree(value),
                "model"@,
                routed.model@,
            ),
    {
        let mut value = value;
        let target = self.config.targets.tier(chosen);
        match rewrite_model(&mut value, target.model.as_str()) {
            Ok(body) => Ok(
                Routed {
                    body,
                    cluster: target.cluster.clone(),
                    tier: chosen,
                    model: target.model.clone(),
                },
            ),
            Err(error) => Err(error),
        }
    }

    /// The single failure path: pass through unmodified, or 503.
    pub fn fail(&self, error: &RouteError) -> (r: Unrouted)
        ensures
            match self.config().on_failure {
                FailureMode::Open => r matches Unrouted::PassThrough { error: note } && note@
                    == truncated(fault_text(error@), METADATA_VALUE_LIMIT as nat),
                FailureMode::Closed => r matches Unrouted::Reject { status, body } && status == 503
                    && body@ == "switchyard_route: routing unavailable"@,
            },
    {
        match self.config.on_failure {
            FailureMode::Open => Unrouted::PassThrough {
                error: truncate(error.message().as_str(), METADATA_VALUE_LIMIT),
            },
            FailureMode::Closed => Unrouted::Reject {
                status: 503,
                body: "switchyard_route: routing unavailable",
            },
        }
    }

    /// The clusters that a pass can choose, each named once.
    pub fn selected_clusters(&self) -> (r: Vec<String>)
        ensures
            r@.map_values(|name: String| name@) == (if self.config().weak.cluster
                == self.config().strong.cluster {
                seq![self.config().weak.cluster]
            } else {
                seq![self.config().weak.cluster, self.config().strong.cluster]
            }),
    {
        let weak = self.config.targets.weak.cluster.clone();
        let strong = self.config.targets.strong.cluster.clone();
        let same = text_eq(weak.as_str(), strong.as_str());
        let mut names: Vec<String> = Vec::new();
        names.push(weak);
        if !same {
            names.push(strong);
        }
        names
    }

    /// How much of a request body is buffered, in bytes.
    pub fn max_body_bytes(&self) -> (r: usize)
        ensures
            r == self.config().max_body_bytes,
    {
        self.config.max_body_bytes
    }
}

/// The cluster of a request in the request phase: one that is already chosen
/// is preserved, otherwise the one that the body phase stashed.
pub fn request_cluster(chosen: &Option<String>, stashed: &Option<String>) -> (r: Option<String>)
    ensures
        opt_text(r) == (if *chosen is Some {
            opt_text(*chosen)
        } else {
            opt_text(*stashed)
        }),
{
    if chosen.is_some() {
        copy_text(chosen)
    } else {
        copy_text(stashed)
    }
}

} // verus!
