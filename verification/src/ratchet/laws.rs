//! What holds of the session floors over any number of turns, and of the single
//! passes of the filter.
//!
//! Turns are taken one after the other here. A turn does to the floors what
//! [`SwitchyardRouteFilter::route`](super::filter::SwitchyardRouteFilter::route)
//! does to them, and is served the tier that it routes to.

use vstd::prelude::*;
use vstd::utf8::*;

use super::config::{parse_config, RouteConfig, RouteSettings, RouteView};
use super::endpoint::JudgeEndpoint;
use super::error::{RouteError, RouteFault};
use super::filter::{
    applied, body_bytes, by_content, bytes_or_none, committed, floors_after, held_floor, is_final,
    parse_body, planned, recognised, record_of, request_cluster, routed, served, session_final,
    session_of, Exchange, Fields, Floors, Routed, RoutedView, SwitchyardRouteFilter, Turn,
    TurnRecord, Unrouted, METADATA_ERROR,
};
use super::floor::{
    after_commit, after_lookup, after_sweep, dead, floor_at, raised,
};
use super::judge::document;
use super::translate::{wire_format, WireFormat};
use crate::clock::elapsed;
use crate::config::{refusal, settled_as, ConfigError, FailureMode};
use crate::json::{has_member, json_bytes, json_tree, parsed_json, with_text, JsonTree};
use crate::text::{
    every_text_is_trimmed, is_space, lowered, trimming_leaves_what_stands_between,
    truncation_keeps_the_longest_prefix_that_fits,
};
use crate::tier::{rank, Tier};
use crate::wire::{
    a_header_is_read_whole, carries_header, header_fields, header_text, is_visible, opt_text,
};

verus! {

/// The floors once the first `count` of `turns` are done.
pub open spec fn floors_at(floors: Floors, ttl: u64, turns: Seq<TurnRecord>, count: nat) -> Floors
    decreases count,
{
    if count == 0 {
        floors
    } else {
        floors_after(
            floors_at(floors, ttl, turns, (count - 1) as nat),
            ttl,
            turns[count - 1],
        )
    }
}

/// Whether `session` is on record as strong since `since` or later.
spec fn strong_since(floors: Floors, session: Seq<char>, since: u64) -> bool {
    floors.contains_key(session) && floors[session].tier == Tier::Strong
        && floors[session].touched >= since
}

proof fn strong_floor_is_held(floors: Floors, session: Seq<char>, since: u64, now: u64, ttl: u64)
    requires
        strong_since(floors, session, since),
        since <= now,
        now - since < ttl,
    ensures
        floor_at(floors, session, now, ttl) == Some(Tier::Strong),
        after_lookup(floors, session, now, ttl) == floors,
{
    assert(elapsed(floors[session].touched, now) <= now - since);
}

proof fn strong_floor_survives_a_turn(
    floors: Floors,
    ttl: u64,
    turn: TurnRecord,
    session: Seq<char>,
    since: u64,
)
    requires
        strong_since(floors, session, since),
        since <= turn.now,
        turn.now - since < ttl,
        turn.session == Some(session) && turn.decision is Some ==> !turn.last,
    ensures
        strong_since(floors_after(floors, ttl, turn), session, since),
{
    strong_floor_is_held(floors, session, since, turn.now, ttl);
    if turn.session is Some && turn.session != Some(session) {
        let other = turn.session->Some_0;
        let found = after_lookup(floors, other, turn.now, ttl);
        assert(found[session] == floors[session]);
        assert(!dead(found[session], turn.now, ttl)) by {
            assert(elapsed(floors[session].touched, turn.now) <= turn.now - since);
        }
        assert(after_sweep(found, turn.now, ttl).contains_key(session));
    }
}

proof fn strong_floor_survives_turns(
    floors: Floors,
    ttl: u64,
    turns: Seq<TurnRecord>,
    session: Seq<char>,
    from: nat,
    to: nat,
)
    requires
        from <= to <= turns.len(),
        from > 0,
        strong_since(floors_at(floors, ttl, turns, from), session, turns[from - 1].now),
        forall|k: int|
            from <= k < to ==> {
                &&& turns[from - 1].now <= #[trigger] turns[k].now
                &&& turns[k].now - turns[from - 1].now < ttl
                &&& turns[k].session == Some(session) && turns[k].decision is Some ==> !turns[k].last
            },
    ensures
        strong_since(floors_at(floors, ttl, turns, to), session, turns[from - 1].now),
    decreases to - from,
{
    if from < to {
        strong_floor_survives_turns(floors, ttl, turns, session, from, (to - 1) as nat);
        strong_floor_survives_a_turn(
            floors_at(floors, ttl, turns, (to - 1) as nat),
            ttl,
            turns[to - 1],
            session,
            turns[from - 1].now,
        );
    }
}

/// Once a turn of a session was routed to the strong tier, no later turn of that
/// session within the window is routed below it, whatever the judge says,
/// whatever other sessions do in between, and whichever turns fail. Only a
/// routed final turn of the session lifts it.
pub proof fn a_strong_session_holds_for_a_window(
    floors: Floors,
    ttl: u64,
    turns: Seq<TurnRecord>,
    session: Seq<char>,
    first: int,
    later: int,
)
    requires
        0 <= first < later < turns.len(),
        turns[first].session == Some(session),
        !turns[first].last,
        served(floors_at(floors, ttl, turns, first as nat), ttl, turns[first]) == Some(Tier::Strong),
        turns[later].session == Some(session),
        turns[later].decision is Some,
        forall|k: int|
            first < k <= later ==> {
                &&& turns[first].now <= #[trigger] turns[k].now
                &&& turns[k].now - turns[first].now < ttl
            },
        forall|k: int|
            first < k < later && (#[trigger] turns[k]).session == Some(session)
                && turns[k].decision is Some ==> !turns[k].last,
    ensures
        served(floors_at(floors, ttl, turns, later as nat), ttl, turns[later]) == Some(Tier::Strong),
{
    let before = floors_at(floors, ttl, turns, first as nat);
    assert(floors_at(floors, ttl, turns, (first + 1) as nat) == floors_after(
        before,
        ttl,
        turns[first],
    ));
    strong_floor_survives_turns(
        floors,
        ttl,
        turns,
        session,
        (first + 1) as nat,
        later as nat,
    );
    strong_floor_is_held(
        floors_at(floors, ttl, turns, later as nat),
        session,
        turns[first].now,
        turns[later].now,
        ttl,
    );
}

/// Whether a turn of `session` was routed.
pub open spec fn routes(turn: TurnRecord, session: Seq<char>) -> bool {
    turn.session == Some(session) && turn.decision is Some
}

/// The last turn before `at`, and not before `first`, in which `session` was
/// routed; `first` where there is none after it.
pub open spec fn previous(turns: Seq<TurnRecord>, session: Seq<char>, first: int, at: int) -> int
    decreases at - first,
{
    if at - 1 <= first {
        first
    } else if routes(turns[at - 1], session) {
        at - 1
    } else {
        previous(turns, session, first, at - 1)
    }
}

proof fn previous_is_the_last(turns: Seq<TurnRecord>, session: Seq<char>, first: int, at: int)
    requires
        first < at,
    ensures
        first <= previous(turns, session, first, at) < at,
        previous(turns, session, first, at) > first ==> routes(
            turns[previous(turns, session, first, at)],
            session,
        ),
    decreases at - first,
{
    if at - 1 > first && !routes(turns[at - 1], session) {
        previous_is_the_last(turns, session, first, at - 1);
    }
}

/// The no-downgrade guarantee: once a turn of a session was routed to the
/// strong tier, every later routed turn of that session is, however many there
/// are and however long they take, as long as each comes within the window of
/// the one before and none of those before is the session's final turn. What
/// the judge says, what other sessions do in between and which turns fail
/// makes no difference.
pub proof fn a_strong_session_never_downgrades(
    floors: Floors,
    ttl: u64,
    turns: Seq<TurnRecord>,
    session: Seq<char>,
    first: int,
    later: int,
)
    requires
        0 <= first < later < turns.len(),
        forall|j: int, k: int|
            first <= j <= k <= later ==> (#[trigger] turns[j]).now <= (#[trigger] turns[k]).now,
        turns[first].session == Some(session),
        !turns[first].last,
        served(floors_at(floors, ttl, turns, first as nat), ttl, turns[first]) == Some(Tier::Strong),
        routes(turns[later], session),
        forall|k: int|
            first < k <= later && #[trigger] routes(turns[k], session) ==> turns[k].now
                - turns[previous(turns, session, first, k)].now < ttl,
        forall|k: int|
            first < k < later && #[trigger] routes(turns[k], session) ==> !turns[k].last,
    ensures
        served(floors_at(floors, ttl, turns, later as nat), ttl, turns[later]) == Some(Tier::Strong),
    decreases later - first,
{
    let before = previous(turns, session, first, later);
    previous_is_the_last(turns, session, first, later);
    if before > first {
        a_strong_session_never_downgrades(floors, ttl, turns, session, first, before);
    }
    assert forall|k: int|
        before < k < later && (#[trigger] turns[k]).session == Some(session)
            && turns[k].decision is Some implies !turns[k].last by {
        assert(routes(turns[k], session));
    }
    assert(turns[later].now - turns[before].now < ttl);
    a_strong_session_holds_for_a_window(floors, ttl, turns, session, before, later);
}

/// A routed turn is never routed below what the judge chose, nor below the
/// floor that its session holds.
pub proof fn no_turn_is_served_below_its_floor(floors: Floors, ttl: u64, turn: TurnRecord)
    requires
        turn.decision is Some,
    ensures
        ({
            let tier = served(floors, ttl, turn)->Some_0;
            &&& served(floors, ttl, turn) is Some
            &&& rank(tier) >= rank(turn.decision->Some_0)
            &&& held_floor(true, floors, turn.session, turn.now, ttl) matches Some(floor)
                ==> rank(tier) >= rank(floor)
        }),
{
}

/// A turn that fails changes no session's floor.
pub proof fn failures_never_move_a_floor(
    floors: Floors,
    ttl: u64,
    turn: TurnRecord,
    session: Seq<char>,
    at: u64,
)
    requires
        turn.decision is None,
        at >= turn.now,
    ensures
        floor_at(floors_after(floors, ttl, turn), session, at, ttl) == floor_at(
            floors,
            session,
            at,
            ttl,
        ),
{
}

/// A turn changes the floor of its own session at most.
pub proof fn sessions_are_isolated(
    floors: Floors,
    ttl: u64,
    turn: TurnRecord,
    session: Seq<char>,
    at: u64,
)
    requires
        turn.session != Some(session),
        at >= turn.now,
    ensures
        floor_at(floors_after(floors, ttl, turn), session, at, ttl) == floor_at(
            floors,
            session,
            at,
            ttl,
        ),
{
}

/// Committing a turn never lowers the floor of its session, whichever tier it
/// was routed to and whatever was committed since it looked the floor up: the
/// ratchet holds however the passes of one session overlap.
pub proof fn overlapping_turns_never_lower_a_floor(
    floors: Floors,
    ttl: u64,
    session: Seq<char>,
    chosen: Tier,
    now: u64,
    at: u64,
)
    requires
        at >= now,
        at - now < ttl,
    ensures
        ({
            let after = committed(true, floors, Some(session), false, chosen, now, ttl);
            &&& floor_at(after, session, at, ttl) is Some
            &&& rank(floor_at(after, session, at, ttl)->Some_0) >= rank(chosen)
            &&& floor_at(floors, session, now, ttl) matches Some(held) ==> rank(
                floor_at(after, session, at, ttl)->Some_0,
            ) >= rank(held)
        }),
{
}

/// A routed turn that is not its session's last leaves the floor at the tier
/// it was routed to for the whole window from then on, and not longer.
pub proof fn a_routed_turn_restarts_the_window(
    floors: Floors,
    ttl: u64,
    turn: TurnRecord,
    session: Seq<char>,
    at: u64,
)
    requires
        turn.session == Some(session),
        turn.decision is Some,
        !turn.last,
        at >= turn.now,
    ensures
        floor_at(floors_after(floors, ttl, turn), session, at, ttl) == (if at - turn.now < ttl {
            served(floors, ttl, turn)
        } else {
            None
        }),
{
}

/// A routed final turn is still held to the floor, and the session's next turn
/// follows the judge again.
pub proof fn the_final_turn_evicts_the_floor(
    floors: Floors,
    ttl: u64,
    turn: TurnRecord,
    session: Seq<char>,
    next: TurnRecord,
)
    requires
        turn.session == Some(session),
        turn.decision is Some,
        turn.last,
        next.session == Some(session),
    ensures
        served(floors, ttl, turn) == Some(
            raised(floor_at(floors, session, turn.now, ttl), turn.decision->Some_0),
        ),
        served(floors_after(floors, ttl, turn), ttl, next) == next.decision,
{
}

/// A request without a session id neither reads nor writes a floor.
pub proof fn sessionless_turns_follow_the_judge(floors: Floors, ttl: u64, turn: TurnRecord)
    requires
        turn.session is None,
    ensures
        served(floors, ttl, turn) == turn.decision,
        floors_after(floors, ttl, turn) == floors,
{
}

/// The judge is skipped exactly for a session at the strong floor under the
/// escalation ratchet. Such a turn is served without a client for the judge,
/// and the strong tier that it is held on is what any answer of the judge
/// would have been clamped to.
pub proof fn the_ratchet_skips_the_judge_once_strong(
    config: RouteView,
    body: JsonTree,
    format: WireFormat,
    session: Option<Seq<char>>,
    floor: Option<Tier>,
    now: u64,
    reachable: bool,
    answer: Tier,
)
    ensures
        ({
            let plan = planned(config, body, format, session, floor, now, reachable);
            let skips = floor == Some(Tier::Strong) && config.session_floor.escalation_ratchet;
            &&& skips ==> plan is Ok && !plan->Ok_0.judged
            &&& !skips && reachable ==> plan is Ok && plan->Ok_0.judged
            &&& skips ==> raised(floor, answer) == Tier::Strong
        }),
{
}

/// A routed request differs from what the client sent in its model alone, and
/// it is sent to the cluster and the model of the tier that was chosen.
pub proof fn routing_changes_only_the_model(
    config: RouteView,
    body: JsonTree,
    chosen: Tier,
    key: Seq<char>,
)
    requires
        body is Object,
        key != "model"@,
    ensures
        applied(config, body, chosen) is Ok,
        applied(config, body, chosen)->Ok_0.cluster == config.target(chosen).cluster,
        applied(config, body, chosen)->Ok_0.model == config.target(chosen).model,
        ({
            let sent = with_text(body, "model"@, config.target(chosen).model);
            &&& has_member(sent, key) == has_member(body, key)
            &&& has_member(body, key) ==> sent->Object_0[key] == body->Object_0[key]
            &&& sent->Object_0["model"@] == JsonTree::Text(config.target(chosen).model)
        }),
{
}

/// Whether `whole` is `core` between white space, and `core` neither starts nor
/// ends with any.
pub open spec fn wraps(whole: Seq<char>, lead: Seq<char>, core: Seq<char>, tail: Seq<char>) -> bool {
    &&& whole == lead + core + tail
    &&& forall|i: int| 0 <= i < lead.len() ==> is_space(#[trigger] lead[i])
    &&& forall|i: int| 0 <= i < tail.len() ==> is_space(#[trigger] tail[i])
    &&& core.len() > 0 ==> !is_space(core[0]) && !is_space(core.last())
}

/// A request belongs to the session that its header names: the whole value
/// without the white space around it, however long it is. A blank value, one
/// that is not visible ASCII and a missing one name no session.
pub proof fn the_session_header_names_the_session(
    fields: Fields,
    name: Seq<char>,
    whole: Seq<char>,
    lead: Seq<char>,
    id: Seq<char>,
    tail: Seq<char>,
)
    requires
        wraps(whole, lead, id, tail),
    ensures
        carries_header(fields, name, whole) && id.len() > 0 ==> session_of(fields, name) == Some(id),
        carries_header(fields, name, whole) && id.len() == 0 ==> session_of(fields, name) is None,
        !fields.contains_key(lowered(name)) ==> session_of(fields, name) is None,
        fields.contains_key(lowered(name)) && (exists|i: int|
            0 <= i < fields[lowered(name)][0].bytes.len() && !(32 <= (
            #[trigger] fields[lowered(name)][0].bytes[i]) <= 126 || fields[lowered(
                name,
            )][0].bytes[i] == 9)) ==> session_of(fields, name) is None,
{
    trimming_leaves_what_stands_between(lead, id, tail);
    a_header_is_read_whole(fields, name, whole);
}

/// The filter reads the session so from the header that it is configured with.
pub proof fn session_ids_are_read_from_the_configured_header(
    filter: SwitchyardRouteFilter,
    headers: http::HeaderMap<http::HeaderValue>,
    r: Option<String>,
    whole: Seq<char>,
    lead: Seq<char>,
    id: Seq<char>,
    tail: Seq<char>,
)
    requires
        call_ensures(SwitchyardRouteFilter::session_id, (&filter, &headers), r),
        wraps(whole, lead, id, tail),
    ensures
        carries_header(header_fields(headers), filter.config().session_header, whole) && id.len()
            > 0 ==> r is Some && r->Some_0@ == id,
        carries_header(header_fields(headers), filter.config().session_header, whole) && id.len()
            == 0 ==> r is None,
        !header_fields(headers).contains_key(lowered(filter.config().session_header)) ==> r is None,
        opt_text(r) == session_of(header_fields(headers), filter.config().session_header),
{
    the_session_header_names_the_session(
        header_fields(headers),
        filter.config().session_header,
        whole,
        lead,
        id,
        tail,
    );
}

/// Two requests whose session headers agree up to the white space around the
/// value, and are not blank, belong to one session; two whose values differ
/// belong to two.
pub proof fn equal_session_headers_are_one_session(
    one: Fields,
    other: Fields,
    name: Seq<char>,
    whole: Seq<char>,
    lead: Seq<char>,
    id: Seq<char>,
    tail: Seq<char>,
    other_whole: Seq<char>,
    other_lead: Seq<char>,
    other_id: Seq<char>,
    other_tail: Seq<char>,
)
    requires
        wraps(whole, lead, id, tail),
        wraps(other_whole, other_lead, other_id, other_tail),
        carries_header(one, name, whole),
        carries_header(other, name, other_whole),
        id.len() > 0,
        other_id.len() > 0,
    ensures
        session_of(one, name) is Some,
        session_of(other, name) is Some,
        session_of(one, name) == session_of(other, name) <==> id == other_id,
{
    the_session_header_names_the_session(one, name, whole, lead, id, tail);
    the_session_header_names_the_session(
        other,
        name,
        other_whole,
        other_lead,
        other_id,
        other_tail,
    );
}

/// A request marks its session's final turn exactly where the header
/// `x-switchyard-session-final` says `1`, `true`, `yes` or `on`, in any case and
/// with white space around it.
pub proof fn the_final_turn_is_marked_by_a_header(
    headers: http::HeaderMap<http::HeaderValue>,
    r: bool,
    whole: Seq<char>,
    lead: Seq<char>,
    word: Seq<char>,
    tail: Seq<char>,
)
    requires
        call_ensures(session_final, (&headers,), r),
        wraps(whole, lead, word, tail),
    ensures
        carries_header(header_fields(headers), "x-switchyard-session-final"@, whole) ==> (r <==> (
        lowered(word) == "1"@ || lowered(word) == "true"@ || lowered(word) == "yes"@ || lowered(
            word,
        ) == "on"@)),
        !header_fields(headers).contains_key(lowered("x-switchyard-session-final"@)) ==> !r,
        header_fields(headers).contains_key(lowered("x-switchyard-session-final"@)) && (exists|
            i: int,
        |
            0 <= i < header_fields(headers)[lowered(
                "x-switchyard-session-final"@,
            )][0].bytes.len() && !(32 <= (#[trigger] header_fields(headers)[lowered(
                "x-switchyard-session-final"@,
            )][0].bytes[i]) <= 126 || header_fields(headers)[lowered(
                "x-switchyard-session-final"@,
            )][0].bytes[i] == 9)) ==> !r,
        r == is_final(header_fields(headers)),
{
    trimming_leaves_what_stands_between(lead, word, tail);
    a_header_is_read_whole(header_fields(headers), "x-switchyard-session-final"@, whole);
}

/// A body is taken exactly where it is there, holds something, and parses to an
/// object; what is taken is that object.
pub proof fn bodies_are_taken_where_they_are_objects(
    body: Option<&[u8]>,
    r: Result<serde_json::Value, RouteError>,
)
    requires
        call_ensures(parse_body, (body,), r),
    ensures
        body is None || body->Some_0@.len() == 0 ==> (r matches Err(RouteError::Body(what))
            && what@ == "is missing or empty"@),
        body is Some && body->Some_0@.len() > 0 ==> {
            &&& parsed_json(body->Some_0@) matches Err(why) ==> (r matches Err(
                RouteError::Json(told),
            ) && told@ == why)
            &&& parsed_json(body->Some_0@) matches Ok(tree) ==> if tree is Object {
                r is Ok && json_tree(r->Ok_0) == tree
            } else {
                r matches Err(RouteError::Body(what)) && what@ == "is not a JSON object"@
            }
        },
{
    assert(document(r) is Ok == r is Ok);
    if r is Err {
        let fault = r->Err_0@;
    }
}

/// Whether a request reaches the judge's question: its body parses to the
/// object `tree`, and is of a known format on its path.
pub open spec fn asks_with(exchange: Exchange, tree: JsonTree) -> bool {
    &&& exchange.body is Some
    &&& exchange.body->Some_0.len() > 0
    &&& exchange.parsed == Ok::<JsonTree, Seq<char>>(tree)
    &&& tree is Object
    &&& wire_format(exchange.path, tree) is Ok
}

/// Whether a request needs no answer of the judge: its session holds the strong
/// floor, and the escalation ratchet is on.
pub open spec fn is_held(
    kept: bool,
    config: RouteView,
    floors: Floors,
    ttl: u64,
    exchange: Exchange,
) -> bool {
    &&& kept
    &&& config.session_floor.escalation_ratchet
    &&& session_of(exchange.fields, config.session_header) matches Some(id) && floor_at(
        floors,
        id,
        exchange.now,
        ttl,
    ) == Some(Tier::Strong)
}

/// A request whose session holds no strong floor is routed as the judge says:
/// `weak` to the weak target and `strong` to the strong one, with that target's
/// cluster and model, and with the body as it came but for its model.
pub proof fn requests_without_a_floor_follow_the_judge(
    kept: bool,
    config: RouteView,
    floors: Floors,
    ttl: u64,
    exchange: Exchange,
    tree: JsonTree,
)
    requires
        asks_with(exchange, tree),
        exchange.reachable,
        !kept || session_of(exchange.fields, config.session_header) is None || floor_at(
            floors,
            session_of(exchange.fields, config.session_header)->Some_0,
            exchange.now,
            ttl,
        ) != Some(Tier::Strong),
    ensures
        exchange.answer == Ok::<Seq<char>, RouteFault>("weak"@) ==> routed(
            kept,
            config,
            floors,
            ttl,
            exchange,
        ) == Ok::<RoutedView, RouteFault>(
            RoutedView {
                body: json_bytes(with_text(tree, "model"@, config.weak.model)),
                cluster: config.weak.cluster,
                tier: Tier::Weak,
                model: config.weak.model,
            },
        ),
        exchange.answer == Ok::<Seq<char>, RouteFault>("strong"@) ==> routed(
            kept,
            config,
            floors,
            ttl,
            exchange,
        ) == Ok::<RoutedView, RouteFault>(
            RoutedView {
                body: json_bytes(with_text(tree, "model"@, config.strong.model)),
                cluster: config.strong.cluster,
                tier: Tier::Strong,
                model: config.strong.model,
            },
        ),
{
    reveal_strlit("weak");
    reveal_strlit("strong");
    assert("weak"@.len() != "strong"@.len());
}

/// A request whose session holds the strong floor is routed to the strong
/// target whichever tier the judge names; under the escalation ratchet also
/// without an answer and without anyone to ask.
pub proof fn requests_at_the_strong_floor_stay_strong(
    config: RouteView,
    floors: Floors,
    ttl: u64,
    exchange: Exchange,
    tree: JsonTree,
    session: Seq<char>,
)
    requires
        asks_with(exchange, tree),
        session_of(exchange.fields, config.session_header) == Some(session),
        floor_at(floors, session, exchange.now, ttl) == Some(Tier::Strong),
        config.session_floor.escalation_ratchet || (exchange.reachable && (exchange.answer == Ok::<
            Seq<char>,
            RouteFault,
        >("weak"@) || exchange.answer == Ok::<Seq<char>, RouteFault>("strong"@))),
    ensures
        routed(true, config, floors, ttl, exchange) == Ok::<RoutedView, RouteFault>(
            RoutedView {
                body: json_bytes(with_text(tree, "model"@, config.strong.model)),
                cluster: config.strong.cluster,
                tier: Tier::Strong,
                model: config.strong.model,
            },
        ),
{
}

/// A pass fails for the first thing that is wrong: the body, then the format,
/// then that nobody can ask the judge, then the judge's own failure, then a tag
/// that names no tier. A pass that fails is routed nowhere.
pub proof fn passes_fail_for_the_first_thing_wrong(
    kept: bool,
    config: RouteView,
    floors: Floors,
    ttl: u64,
    exchange: Exchange,
    tree: JsonTree,
)
    ensures
        exchange.body is None || exchange.body->Some_0.len() == 0 ==> routed(
            kept,
            config,
            floors,
            ttl,
            exchange,
        ) == Err::<RoutedView, RouteFault>(RouteFault::Body("is missing or empty"@)),
        exchange.body is Some && exchange.body->Some_0.len() > 0 && exchange.parsed is Err
            ==> routed(kept, config, floors, ttl, exchange) == Err::<RoutedView, RouteFault>(
            RouteFault::Json(exchange.parsed->Err_0),
        ),
        exchange.body is Some && exchange.body->Some_0.len() > 0 && exchange.parsed is Ok && !(
        exchange.parsed->Ok_0 is Object) ==> routed(kept, config, floors, ttl, exchange) == Err::<
            RoutedView,
            RouteFault,
        >(RouteFault::Body("is not a JSON object"@)),
        exchange.body is Some && exchange.body->Some_0.len() > 0 && exchange.parsed is Ok && (
        exchange.parsed->Ok_0 is Object) && wire_format(exchange.path, exchange.parsed->Ok_0) is Err
            ==> routed(kept, config, floors, ttl, exchange) == Err::<RoutedView, RouteFault>(
            wire_format(exchange.path, exchange.parsed->Ok_0)->Err_0,
        ),
        asks_with(exchange, tree) && !is_held(kept, config, floors, ttl, exchange) ==> {
            &&& !exchange.reachable ==> routed(kept, config, floors, ttl, exchange) == Err::<
                RoutedView,
                RouteFault,
            >(RouteFault::MissingSubrequestClient)
            &&& exchange.reachable && exchange.answer is Err ==> routed(
                kept,
                config,
                floors,
                ttl,
                exchange,
            ) == Err::<RoutedView, RouteFault>(exchange.answer->Err_0)
            &&& exchange.reachable && exchange.answer is Ok && exchange.answer->Ok_0 != "weak"@
                && exchange.answer->Ok_0 != "strong"@ ==> routed(
                kept,
                config,
                floors,
                ttl,
                exchange,
            ) == Err::<RoutedView, RouteFault>(RouteFault::UnknownTier(exchange.answer->Ok_0))
        },
{
    if asks_with(exchange, tree) {
        }
}

/// Whether a request names the session `id` in the header `name`: the first
/// value there is `id` with nothing but white space around it.
pub open spec fn names_session(fields: Fields, name: Seq<char>, id: Seq<char>) -> bool {
    id.len() > 0 && exists|lead: Seq<char>, tail: Seq<char>| #[trigger]
        wraps(lead + id + tail, lead, id, tail) && carries_header(fields, name, lead + id + tail)
}

proof fn sessions_are_those_that_are_named(fields: Fields, name: Seq<char>, id: Seq<char>)
    ensures
        names_session(fields, name, id) <==> session_of(fields, name) == Some(id),
{
    if names_session(fields, name, id) {
        let (lead, tail) = choose|lead: Seq<char>, tail: Seq<char>| #[trigger]
            wraps(lead + id + tail, lead, id, tail) && carries_header(
                fields,
                name,
                lead + id + tail,
            );
        the_session_header_names_the_session(fields, name, lead + id + tail, lead, id, tail);
    }
    if session_of(fields, name) == Some(id) {
        let text = header_text(fields, name)->Some_0;
        let parts = every_text_is_trimmed(text);
        assert(wraps(parts.0 + id + parts.1, parts.0, id, parts.1));
        assert(carries_header(fields, name, text)) by {
            let bytes = fields[lowered(name)][0].bytes;
            assert forall|i: int| 0 <= i < text.len() implies bytes[i] as char == (
            #[trigger] text[i]) && (' ' <= text[i] <= '~' || text[i] == '\t') by {
                assert(is_visible(bytes[i]));
            }
        }
    }
}

/// The floors once the first `count` requests have been routed.
pub open spec fn floors_through(
    config: RouteView,
    floors: Floors,
    ttl: u64,
    exchanges: Seq<Exchange>,
    count: nat,
) -> Floors
    decreases count,
{
    if count == 0 {
        floors
    } else {
        let before = floors_through(config, floors, ttl, exchanges, (count - 1) as nat);
        floors_after(before, ttl, record_of(true, config, before, ttl, exchanges[count - 1]))
    }
}

/// What becomes of the request `at` among others.
pub open spec fn routed_at(
    config: RouteView,
    floors: Floors,
    ttl: u64,
    exchanges: Seq<Exchange>,
    at: int,
) -> Result<RoutedView, RouteFault> {
    routed(
        true,
        config,
        floors_through(config, floors, ttl, exchanges, at as nat),
        ttl,
        exchanges[at],
    )
}

/// Whether the request `at` names the session `id` and is routed.
pub open spec fn routes_session(
    config: RouteView,
    floors: Floors,
    ttl: u64,
    exchanges: Seq<Exchange>,
    id: Seq<char>,
    at: int,
) -> bool {
    names_session(exchanges[at].fields, config.session_header, id) && routed_at(
        config,
        floors,
        ttl,
        exchanges,
        at,
    ) is Ok
}

spec fn records(
    config: RouteView,
    floors: Floors,
    ttl: u64,
    exchanges: Seq<Exchange>,
) -> Seq<TurnRecord> {
    Seq::new(
        exchanges.len(),
        |k: int|
            record_of(
                true,
                config,
                floors_through(config, floors, ttl, exchanges, k as nat),
                ttl,
                exchanges[k],
            ),
    )
}

proof fn records_move_the_floors_alike(
    config: RouteView,
    floors: Floors,
    ttl: u64,
    exchanges: Seq<Exchange>,
    count: nat,
)
    requires
        count <= exchanges.len(),
    ensures
        floors_at(floors, ttl, records(config, floors, ttl, exchanges), count) == floors_through(
            config,
            floors,
            ttl,
            exchanges,
            count,
        ),
    decreases count,
{
    if count > 0 {
        records_move_the_floors_alike(config, floors, ttl, exchanges, (count - 1) as nat);
    }
}

proof fn records_tell_what_is_routed(
    kept: bool,
    config: RouteView,
    floors: Floors,
    ttl: u64,
    exchange: Exchange,
)
    ensures
        ({
            let record = record_of(kept, config, floors, ttl, exchange);
            let outcome = routed(kept, config, floors, ttl, exchange);
            &&& outcome is Ok <==> record.decision is Some
            &&& outcome is Ok ==> served(floors, ttl, record) == Some(outcome->Ok_0.tier)
            &&& outcome is Ok && kept ==> record.session == session_of(
                exchange.fields,
                config.session_header,
            )
            &&& record.now == exchange.now
            &&& record.last == is_final(exchange.fields)
            &&& record.session is Some ==> record.session == session_of(
                exchange.fields,
                config.session_header,
            )
        }),
{
}

proof fn records_mirror_requests(
    config: RouteView,
    floors: Floors,
    ttl: u64,
    exchanges: Seq<Exchange>,
    id: Seq<char>,
    k: int,
)
    requires
        0 <= k < exchanges.len(),
    ensures
        ({
            let turns = records(config, floors, ttl, exchanges);
            let outcome = routed_at(config, floors, ttl, exchanges, k);
            &&& (turns[k].session == Some(id) && turns[k].decision is Some) == routes_session(
                config,
                floors,
                ttl,
                exchanges,
                id,
                k,
            )
            &&& outcome is Ok ==> served(floors_at(floors, ttl, turns, k as nat), ttl, turns[k])
                == Some(outcome->Ok_0.tier)
            &&& outcome is Ok && outcome->Ok_0.tier == Tier::Strong ==> outcome->Ok_0.cluster
                == config.strong.cluster && outcome->Ok_0.model == config.strong.model
            &&& turns[k].now == exchanges[k].now
            &&& turns[k].last == is_final(exchanges[k].fields)
        }),
{
    let before = floors_through(config, floors, ttl, exchanges, k as nat);
    records_move_the_floors_alike(config, floors, ttl, exchanges, k as nat);
    records_tell_what_is_routed(true, config, before, ttl, exchanges[k]);
    sessions_are_those_that_are_named(exchanges[k].fields, config.session_header, id);
}

/// Within the window of a strong request, not marked as final, every request
/// that names the same session and is routed is routed to the strong tier.
#[verifier::spinoff_prover]
#[verifier::rlimit(60)]
pub proof fn requests_within_the_window_stay_strong(
    config: RouteView,
    floors: Floors,
    ttl: u64,
    exchanges: Seq<Exchange>,
    id: Seq<char>,
    first: int,
    later: int,
)
    requires
        0 <= first < later < exchanges.len(),
        forall|k: int|
            first < k <= later ==> exchanges[first].now <= (#[trigger] exchanges[k]).now
                && exchanges[k].now - exchanges[first].now < ttl,
        routes_session(config, floors, ttl, exchanges, id, first),
        routed_at(config, floors, ttl, exchanges, first)->Ok_0.tier == Tier::Strong,
        routes_session(config, floors, ttl, exchanges, id, later),
        forall|k: int|
            first <= k < later && #[trigger] routes_session(config, floors, ttl, exchanges, id, k)
                ==> !is_final(exchanges[k].fields),
    ensures
        routed_at(config, floors, ttl, exchanges, later)->Ok_0.tier == Tier::Strong,
        routed_at(config, floors, ttl, exchanges, later)->Ok_0.cluster == config.strong.cluster,
        routed_at(config, floors, ttl, exchanges, later)->Ok_0.model == config.strong.model,
{
    let turns = records(config, floors, ttl, exchanges);
    records_mirror_requests(config, floors, ttl, exchanges, id, first);
    records_mirror_requests(config, floors, ttl, exchanges, id, later);
    assert forall|k: int| first < k <= later implies {
        &&& turns[first].now <= #[trigger] turns[k].now
        &&& turns[k].now - turns[first].now < ttl
    } by {
        records_mirror_requests(config, floors, ttl, exchanges, id, k);
        assert(exchanges[first].now <= exchanges[k].now);
    }
    assert forall|k: int|
        first < k < later && (#[trigger] turns[k]).session == Some(id)
            && turns[k].decision is Some implies !turns[k].last by {
        records_mirror_requests(config, floors, ttl, exchanges, id, k);
        assert(routes_session(config, floors, ttl, exchanges, id, k));
    }
    a_strong_session_holds_for_a_window(floors, ttl, turns, id, first, later);
}

/// The no-downgrade guarantee, of requests: once a request that names a session
/// was routed to the strong tier, every later request that names the same
/// session and is routed is routed there too, as long as each comes within the
/// window of an earlier routed one since then and none of those between marks
/// the session's final turn. What the judge says of them, what other sessions
/// do and which passes fail makes no difference.
#[verifier::spinoff_prover]
#[verifier::rlimit(60)]
pub proof fn requests_of_a_strong_session_never_downgrade(
    config: RouteView,
    floors: Floors,
    ttl: u64,
    exchanges: Seq<Exchange>,
    id: Seq<char>,
    first: int,
    later: int,
)
    requires
        0 <= first < later < exchanges.len(),
        forall|j: int, k: int|
            first <= j <= k <= later ==> (#[trigger] exchanges[j]).now <= (
            #[trigger] exchanges[k]).now,
        routes_session(config, floors, ttl, exchanges, id, first),
        routed_at(config, floors, ttl, exchanges, first)->Ok_0.tier == Tier::Strong,
        routes_session(config, floors, ttl, exchanges, id, later),
        forall|k: int|
            first <= k < later && #[trigger] routes_session(config, floors, ttl, exchanges, id, k)
                ==> !is_final(exchanges[k].fields),
        forall|k: int|
            first < k <= later && #[trigger] routes_session(config, floors, ttl, exchanges, id, k)
                ==> exists|j: int|
                first <= j < k && #[trigger] routes_session(config, floors, ttl, exchanges, id, j)
                    && exchanges[k].now - exchanges[j].now < ttl,
    ensures
        routed_at(config, floors, ttl, exchanges, later)->Ok_0.tier == Tier::Strong,
        routed_at(config, floors, ttl, exchanges, later)->Ok_0.cluster == config.strong.cluster,
        routed_at(config, floors, ttl, exchanges, later)->Ok_0.model == config.strong.model,
    decreases later - first,
{
    let near = choose|j: int|
        first <= j < later && #[trigger] routes_session(config, floors, ttl, exchanges, id, j)
            && exchanges[later].now - exchanges[j].now < ttl;
    if near > first {
        requests_of_a_strong_session_never_downgrade(
            config,
            floors,
            ttl,
            exchanges,
            id,
            first,
            near,
        );
    }
    assert forall|k: int| near < k <= later implies exchanges[near].now <= (
    #[trigger] exchanges[k]).now && exchanges[k].now - exchanges[near].now < ttl by {
        assert(exchanges[near].now <= exchanges[k].now);
        assert(exchanges[k].now <= exchanges[later].now);
    }
    requests_within_the_window_stay_strong(config, floors, ttl, exchanges, id, near, later);
}

/// What one pass of the filter does, told by the floors before and after: the
/// session that the request names holds the tier that it was routed to for the
/// whole window, and none after it or after its final turn; every other session
/// holds what it held; and a pass that fails changes nothing.
pub proof fn a_pass_moves_the_floor_of_its_own_session(
    filter: &mut SwitchyardRouteFilter,
    headers: http::HeaderMap<http::HeaderValue>,
    path: &str,
    body: Option<&[u8]>,
    now: u64,
    reachable: bool,
    answer: Result<String, RouteError>,
    r: Result<Routed, RouteError>,
    id: Seq<char>,
    at: u64,
)
    requires
        call_ensures(
            SwitchyardRouteFilter::route,
            (filter, &headers, path, body, now, reachable, answer),
            r,
        ),
        at >= now,
        old(filter).kept(),
    ensures
        names_session(header_fields(headers), old(filter).config().session_header, id) && r is Ok
            && !is_final(header_fields(headers)) ==> floor_at(
            final(filter).floors(),
            id,
            at,
            old(filter).ttl(),
        ) == (if at - now < old(filter).ttl() {
            Some(r->Ok_0.tier)
        } else {
            None
        }),
        names_session(header_fields(headers), old(filter).config().session_header, id) && r is Ok
            && is_final(header_fields(headers)) ==> floor_at(
            final(filter).floors(),
            id,
            at,
            old(filter).ttl(),
        ) is None,
        r is Err || !names_session(
            header_fields(headers),
            old(filter).config().session_header,
            id,
        ) ==> floor_at(final(filter).floors(), id, at, old(filter).ttl()) == floor_at(
            old(filter).floors(),
            id,
            at,
            old(filter).ttl(),
        ),
        final(filter).config() == old(filter).config(),
        final(filter).kept() == old(filter).kept(),
        final(filter).ttl() == old(filter).ttl(),
{
    let exchange = Exchange {
        fields: header_fields(headers),
        path: path@,
        body: body_bytes(body),
        parsed: parsed_json(bytes_or_none(body_bytes(body))),
        now,
        reachable,
        answer: by_content(answer),
    };
    let config = filter.config();
    let floors = filter.floors();
    let ttl = filter.ttl();
    records_tell_what_is_routed(true, config, floors, ttl, exchange);
    sessions_are_those_that_are_named(exchange.fields, config.session_header, id);
    let record = record_of(true, config, floors, ttl, exchange);
    assert(by_content(r) is Ok == r is Ok);
    if r is Ok {
        assert(by_content(r)->Ok_0.tier == r->Ok_0.tier);
    }
    if record.session != Some(id) {
        sessions_are_isolated(floors, ttl, record, id, at);
    } else if r is Err {
        failures_never_move_a_floor(floors, ttl, record, id, at);
    } else if !record.last {
        a_routed_turn_restarts_the_window(floors, ttl, record, id, at);
    }
}

/// Two passes of one filter, one after the other, that name one session: after
/// a strong one, not marked as final, the next within the window is strong,
/// whatever the judge said. Past the window, after a final one, or after a weak
/// one of a session without a floor, the judge is followed.
pub proof fn a_strong_pass_holds_the_next_one(
    filter: &mut SwitchyardRouteFilter,
    again: &mut SwitchyardRouteFilter,
    headers: http::HeaderMap<http::HeaderValue>,
    path: &str,
    body: Option<&[u8]>,
    now: u64,
    reachable: bool,
    answer: Result<String, RouteError>,
    r: Result<Routed, RouteError>,
    next_headers: http::HeaderMap<http::HeaderValue>,
    next_path: &str,
    next_body: Option<&[u8]>,
    next_now: u64,
    next_reachable: bool,
    tag: String,
    next: Result<Routed, RouteError>,
    id: Seq<char>,
)
    requires
        call_ensures(
            SwitchyardRouteFilter::route,
            (filter, &headers, path, body, now, reachable, answer),
            r,
        ),
        call_ensures(
            SwitchyardRouteFilter::route,
            (again, &next_headers, next_path, next_body, next_now, next_reachable, Ok(tag)),
            next,
        ),
        old(filter).kept(),
        *old(again) == *final(filter),
        names_session(header_fields(headers), old(filter).config().session_header, id),
        names_session(header_fields(next_headers), old(filter).config().session_header, id),
        now <= next_now,
        r is Ok,
        next is Ok,
    ensures
        r->Ok_0.tier == Tier::Strong && !is_final(header_fields(headers)) && next_now - now
            < old(filter).ttl() ==> next->Ok_0.tier == Tier::Strong && next->Ok_0.cluster@
            == old(filter).config().strong.cluster && next->Ok_0.model@
            == old(filter).config().strong.model,
        tag@ == "weak"@ && (is_final(header_fields(headers)) || next_now - now
            >= old(filter).ttl() || r->Ok_0.tier == Tier::Weak) ==> next->Ok_0.tier == Tier::Weak
            && next->Ok_0.cluster@ == old(filter).config().weak.cluster && next->Ok_0.model@
            == old(filter).config().weak.model,
        tag@ == "strong"@ ==> next->Ok_0.tier == Tier::Strong,
{
    a_pass_moves_the_floor_of_its_own_session(
        filter,
        headers,
        path,
        body,
        now,
        reachable,
        answer,
        r,
        id,
        next_now,
    );
    let exchange = Exchange {
        fields: header_fields(next_headers),
        path: next_path@,
        body: body_bytes(next_body),
        parsed: parsed_json(bytes_or_none(body_bytes(next_body))),
        now: next_now,
        reachable: next_reachable,
        answer: Ok(tag@),
    };
    let config = again.config();
    let floors = again.floors();
    let ttl = again.ttl();
    sessions_are_those_that_are_named(exchange.fields, config.session_header, id);
    records_tell_what_is_routed(true, config, floors, ttl, exchange);
    assert(by_content(Ok::<String, RouteError>(tag)) == Ok::<Seq<char>, RouteFault>(tag@));
    assert(by_content(next) is Ok);
    assert(by_content(next)->Ok_0 == next->Ok_0@);
    reveal_strlit("weak");
    reveal_strlit("strong");
    assert("weak"@.len() != "strong"@.len());
}

/// A filter is made exactly where its settings are accepted and its judge can
/// be dialled. It starts without floors, keeps them where they are enabled, and
/// for as many seconds as are configured.
pub proof fn filters_are_made_of_sound_settings(
    settings: RouteSettings,
    secret: Option<String>,
    r: Result<SwitchyardRouteFilter, ConfigError>,
    config: Result<RouteConfig, ConfigError>,
    endpoint: Result<JudgeEndpoint, ConfigError>,
    id: Seq<char>,
)
    requires
        call_ensures(SwitchyardRouteFilter::from_settings, (settings, secret), r),
        call_ensures(parse_config, (settings,), config),
        config is Ok ==> call_ensures(
            JudgeEndpoint::from_config,
            (&config->Ok_0.judge, secret),
            endpoint,
        ),
    ensures
        config is Err ==> r is Err && r->Err_0.message@ == config->Err_0.message@,
        config is Ok && endpoint is Err ==> r is Err && r->Err_0.message@
            == endpoint->Err_0.message@,
        config is Ok && endpoint is Ok ==> {
            &&& r is Ok
            &&& r->Ok_0.config() == config->Ok_0@
            &&& r->Ok_0.endpoint() == endpoint->Ok_0@
            &&& !r->Ok_0.floors().contains_key(id)
            &&& r->Ok_0.kept() == config->Ok_0.session_floor.enabled
            &&& r->Ok_0.kept() ==> r->Ok_0.ttl() == config->Ok_0.session_floor.ttl_secs
                * 1_000_000_000
            &&& r->Ok_0.wf()
        },
{
    assert(refusal(config) is Some == config is Err);
    if config is Ok {
        assert(settled_as(endpoint) is Ok == endpoint is Ok);
        assert(config->Ok_0@.judge == config->Ok_0.judge@);
    }
}

/// The first half of a pass reads the request as it came: its body, the format
/// of its path, its session, and the floor that the session holds. The judge is
/// asked unless the session is held at the strong floor under the escalation
/// ratchet, and the weak tier is barred exactly where a strong session is asked
/// about and the configuration says so.
pub proof fn a_pass_begins_with_the_request_as_it_came(
    filter: &mut SwitchyardRouteFilter,
    headers: http::HeaderMap<http::HeaderValue>,
    path: &str,
    body: Option<&[u8]>,
    now: u64,
    reachable: bool,
    r: Result<Turn, RouteError>,
    tree: JsonTree,
    id: Seq<char>,
    at: u64,
)
    requires
        call_ensures(
            SwitchyardRouteFilter::begin,
            (filter, &headers, path, body, now, reachable),
            r,
        ),
        body is Some,
        body->Some_0@.len() > 0,
        tree is Object,
        wire_format(path@, tree) is Ok,
        at >= now,
    ensures
        parsed_json(body->Some_0@) == Ok::<JsonTree, Seq<char>>(tree) ==> {
            let fields = header_fields(headers);
            let named = names_session(fields, old(filter).config().session_header, id);
            let strong = named && old(filter).kept() && floor_at(
                old(filter).floors(),
                id,
                now,
                old(filter).ttl(),
            ) == Some(Tier::Strong);
            &&& r matches Ok(turn) ==> {
                &&& json_tree(turn.value) == tree
                &&& turn.now == now
                &&& turn.format == wire_format(path@, tree)->Ok_0
                &&& named ==> turn.session is Some && turn.session->Some_0@ == id
                &&& turn.session is Some && turn.session->Some_0@ == id ==> named
                &&& named && old(filter).kept() ==> turn.floor == floor_at(
                    old(filter).floors(),
                    id,
                    now,
                    old(filter).ttl(),
                )
                &&& !old(filter).kept() || turn.session is None ==> turn.floor is None
                &&& turn.judged == !(turn.floor == Some(Tier::Strong) && old(
                    filter,
                ).config().session_floor.escalation_ratchet)
                &&& turn.excludes_weak == (turn.floor == Some(Tier::Strong) && turn.judged && old(
                    filter,
                ).config().session_floor.exclude_below)
            }
            &&& reachable ==> r is Ok
            &&& strong && old(filter).config().session_floor.escalation_ratchet ==> r is Ok
            &&& named && !reachable && !(strong && old(
                filter,
            ).config().session_floor.escalation_ratchet) ==> (r matches Err(
                RouteError::MissingSubrequestClient,
            ))
        },
        floor_at(final(filter).floors(), id, at, old(filter).ttl()) == floor_at(
            old(filter).floors(),
            id,
            at,
            old(filter).ttl(),
        ),
        final(filter).configured_as(old(filter)),
{
    let fields = header_fields(headers);
    sessions_are_those_that_are_named(fields, filter.config().session_header, id);
    assert(by_content(r) is Ok == r is Ok);
    if r is Ok {
        let turn = r->Ok_0;
        assert(by_content(r)->Ok_0 == turn@);
        assert(turn@.session == opt_text(turn.session));
        assert(turn@.judged == turn.judged && turn@.floor == turn.floor && turn@.excludes_weak
            == turn.excludes_weak && turn@.format == turn.format && turn@.now == turn.now);
        assert(turn@.body == json_tree(turn.value));
    } else {
        let fault = r->Err_0@;
    }
}

/// The second half of a pass routes to the tier that the tag names, or to the
/// strong one where the floor that was found is strong, and where the judge was
/// skipped; a tag that names no tier is refused and changes nothing.
pub proof fn a_pass_ends_at_the_tag_or_the_floor(
    filter: &mut SwitchyardRouteFilter,
    headers: http::HeaderMap<http::HeaderValue>,
    turn: Turn,
    tag: String,
    r: Result<Routed, RouteError>,
)
    requires
        call_ensures(SwitchyardRouteFilter::settle, (filter, &headers, turn, tag), r),
        json_tree(turn.value) is Object,
    ensures
        tag@ == "strong"@ || (tag@ == "weak"@ && turn.floor == Some(Tier::Strong)) ==> {
            &&& r is Ok
            &&& r->Ok_0.tier == Tier::Strong
            &&& r->Ok_0.cluster@ == old(filter).config().strong.cluster
            &&& r->Ok_0.model@ == old(filter).config().strong.model
            &&& r->Ok_0.body@ == json_bytes(
                with_text(json_tree(turn.value), "model"@, old(filter).config().strong.model),
            )
        },
        tag@ == "weak"@ && turn.floor != Some(Tier::Strong) ==> {
            &&& r is Ok
            &&& r->Ok_0.tier == Tier::Weak
            &&& r->Ok_0.cluster@ == old(filter).config().weak.cluster
            &&& r->Ok_0.model@ == old(filter).config().weak.model
            &&& r->Ok_0.body@ == json_bytes(
                with_text(json_tree(turn.value), "model"@, old(filter).config().weak.model),
            )
        },
        tag@ != "weak"@ && tag@ != "strong"@ ==> (r matches Err(RouteError::UnknownTier(told))
            && told@ == tag@) && final(filter).floors() == old(filter).floors(),
        r is Ok && old(filter).kept() && turn.session is Some && !is_final(
            header_fields(headers),
        ) && old(filter).ttl() > 0 ==> floor_at(
            final(filter).floors(),
            turn.session->Some_0@,
            turn.now,
            old(filter).ttl(),
        ) == Some(
            raised(
                floor_at(
                    old(filter).floors(),
                    turn.session->Some_0@,
                    turn.now,
                    old(filter).ttl(),
                ),
                r->Ok_0.tier,
            ),
        ),
        r is Ok && old(filter).kept() && turn.session is Some && is_final(header_fields(headers))
            ==> !final(filter).floors().contains_key(turn.session->Some_0@),
{
    reveal_strlit("weak");
    reveal_strlit("strong");
    assert("weak"@.len() != "strong"@.len());
    assert(by_content(r) is Ok == r is Ok);
    if r is Ok {
        assert(by_content(r)->Ok_0 == r->Ok_0@);
    } else {
        let fault = r->Err_0@;
    }
}

/// A pass whose judge is skipped ends at the strong target.
pub proof fn a_held_pass_ends_at_the_strong_target(
    filter: &mut SwitchyardRouteFilter,
    headers: http::HeaderMap<http::HeaderValue>,
    turn: Turn,
    r: Result<Routed, RouteError>,
)
    requires
        call_ensures(SwitchyardRouteFilter::hold, (filter, &headers, turn), r),
        json_tree(turn.value) is Object,
    ensures
        r is Ok,
        r->Ok_0.tier == Tier::Strong,
        r->Ok_0.cluster@ == old(filter).config().strong.cluster,
        r->Ok_0.model@ == old(filter).config().strong.model,
        r->Ok_0.body@ == json_bytes(
            with_text(json_tree(turn.value), "model"@, old(filter).config().strong.model),
        ),
        old(filter).kept() && turn.session is Some && !is_final(header_fields(headers)) && old(
            filter,
        ).ttl() > 0 ==> floor_at(
            final(filter).floors(),
            turn.session->Some_0@,
            turn.now,
            old(filter).ttl(),
        ) == Some(Tier::Strong),
{
    assert(by_content(r) is Ok == r is Ok);
    assert(by_content(r)->Ok_0 == r->Ok_0@);
}

/// A failed pass leaves the request as it came, with as much of the failure's
/// own words as fit 256 bytes, where the filter fails open; it is answered with
/// 503 where the filter fails closed.
pub proof fn failures_pass_through_or_are_rejected(
    filter: SwitchyardRouteFilter,
    error: RouteError,
    message: String,
    r: Unrouted,
)
    requires
        call_ensures(SwitchyardRouteFilter::fail, (&filter, &error), r),
        call_ensures(RouteError::message, (&error,), message),
    ensures
        filter.config().on_failure == FailureMode::Open ==> {
            &&& r is PassThrough
            &&& r->PassThrough_error@.is_prefix_of(message@)
            &&& encode_utf8(r->PassThrough_error@).len() <= 256
            &&& encode_utf8(message@).len() <= 256 ==> r->PassThrough_error@ == message@
            &&& r->PassThrough_error@.len() < message@.len() ==> encode_utf8(
                message@.take(r->PassThrough_error@.len() as int + 1),
            ).len() > 256
        },
        filter.config().on_failure == FailureMode::Closed ==> {
            &&& r is Reject
            &&& r->Reject_status == 503
            &&& r->Reject_body@ == "switchyard_route: routing unavailable"@
        },
{
    if filter.config().on_failure == FailureMode::Open {
        truncation_keeps_the_longest_prefix_that_fits(
            message@,
            256,
            r->PassThrough_error@.len() as int + 1,
        );
    }
}

/// A routed request tells its cluster, its tier's tag and its model, under the
/// names that the request phase and the log know them by.
pub proof fn routed_requests_tell_cluster_tier_and_model(
    routed: Routed,
    r: Vec<(&'static str, String)>,
)
    requires
        call_ensures(Routed::metadata, (&routed,), r),
    ensures
        r@.len() == 3,
        r@[0].0@ == "switchyard_route.cluster"@,
        r@[0].1@ == routed.cluster@,
        r@[1].0@ == "switchyard_route.tier"@,
        routed.tier == Tier::Weak ==> r@[1].1@ == "weak"@,
        routed.tier == Tier::Strong ==> r@[1].1@ == "strong"@,
        r@[2].0@ == "switchyard_route.model"@,
        r@[2].1@ == routed.model@,
{
}

/// A pass can choose the two configured clusters and no other, each named once;
/// bodies are buffered up to the configured size.
pub proof fn selectable_clusters_are_the_configured_ones(
    filter: SwitchyardRouteFilter,
    r: Vec<String>,
    cap: usize,
    config: RouteConfig,
    i: int,
    j: int,
)
    requires
        call_ensures(SwitchyardRouteFilter::selected_clusters, (&filter,), r),
        call_ensures(SwitchyardRouteFilter::max_body_bytes, (&filter,), cap),
        call_ensures(SwitchyardRouteFilter::settings, (&filter,), &config),
    ensures
        0 <= i < r@.len() ==> r@[i]@ == filter.config().weak.cluster || r@[i]@
            == filter.config().strong.cluster,
        0 <= i < j < r@.len() ==> r@[i]@ != r@[j]@,
        exists|k: int| 0 <= k < r@.len() && #[trigger] r@[k]@ == filter.config().weak.cluster,
        exists|k: int| 0 <= k < r@.len() && #[trigger] r@[k]@ == filter.config().strong.cluster,
        cap == config.max_body_bytes,
        config@ == filter.config(),
{
    let names = r@.map_values(|name: String| name@);
    assert(names.len() == r@.len());
    if 0 <= i < r@.len() {
        assert(names[i] == r@[i]@);
    }
    if 0 <= j < r@.len() {
        assert(names[j] == r@[j]@);
    }
    assert(names[0] == r@[0]@);
    assert(r@[0]@ == filter.config().weak.cluster);
    if filter.config().weak.cluster != filter.config().strong.cluster {
        assert(names[1] == r@[1]@);
        assert(r@[1]@ == filter.config().strong.cluster);
    }
}

/// A cluster that is already chosen stays; otherwise the stashed one is used.
pub proof fn an_earlier_cluster_choice_stays(
    chosen: Option<String>,
    stashed: Option<String>,
    r: Option<String>,
)
    requires
        call_ensures(request_cluster, (&chosen, &stashed), r),
    ensures
        chosen matches Some(cluster) ==> r is Some && r->Some_0@ == cluster@,
        chosen is None && stashed is Some ==> r is Some && r->Some_0@ == stashed->Some_0@,
        chosen is None && stashed is None ==> r is None,
{
}

/// A commit into a memory of 8192 floors or more leaves no floor in it that has
/// outlived the window.
pub proof fn a_full_memory_is_swept(
    floors: Floors,
    session: Seq<char>,
    tier: Tier,
    now: u64,
    ttl: u64,
    other: Seq<char>,
)
    requires
        floors.len() >= 8_192,
        ttl > 0,
    ensures
        after_commit(floors, session, tier, now, ttl).contains_key(other) ==> elapsed(
            after_commit(floors, session, tier, now, ttl)[other].touched,
            now,
        ) < ttl,
{
}

/// Below that, a commit drops nothing, and sets the floor of its own session
/// alone.
pub proof fn a_commit_sets_its_own_floor(
    floors: Floors,
    session: Seq<char>,
    tier: Tier,
    now: u64,
    ttl: u64,
    other: Seq<char>,
)
    requires
        other != session,
    ensures
        ({
            let after = after_commit(floors, session, tier, now, ttl);
            &&& after.contains_key(session)
            &&& after[session].touched == now
            &&& after[session].tier == Tier::Strong <==> tier == Tier::Strong || (
            floors.contains_key(session) && elapsed(floors[session].touched, now) < ttl
                && floors[session].tier == Tier::Strong)
            &&& after.contains_key(other) ==> floors.contains_key(other) && after[other]
                == floors[other]
            &&& floors.len() < 8_192 && floors.contains_key(other) ==> after.contains_key(other)
            &&& floors.contains_key(other) && elapsed(floors[other].touched, now) < ttl
                ==> after.contains_key(other)
        }),
{
}

/// A session holds the floor of its entry until the window is over, and none
/// after it; asking for it drops it then, and nothing else.
pub proof fn floors_live_for_the_window(
    floors: Floors,
    session: Seq<char>,
    now: u64,
    ttl: u64,
    other: Seq<char>,
)
    ensures
        !floors.contains_key(session) ==> floor_at(floors, session, now, ttl) is None,
        floors.contains_key(session) && floors[session].touched + ttl > now ==> floor_at(
            floors,
            session,
            now,
            ttl,
        ) == (if ttl > 0 {
            Some(floors[session].tier)
        } else {
            None
        }),
        floors.contains_key(session) && floors[session].touched + ttl <= now ==> floor_at(
            floors,
            session,
            now,
            ttl,
        ) is None && !after_lookup(floors, session, now, ttl).contains_key(session),
        other != session ==> after_lookup(floors, session, now, ttl).contains_key(other)
            == floors.contains_key(other) && after_lookup(floors, session, now, ttl)[other]
            == floors[other],
        floors.contains_key(session) && floor_at(floors, session, now, ttl) is Some
            ==> after_lookup(floors, session, now, ttl) == floors,
{
}

/// A failed pass tells why, as a failure of its own kind: the body, the format,
/// that nobody can ask the judge, the judge's own failure as it came, or a tag
/// that names no tier. Where no floors are kept none are written.
pub proof fn failed_passes_tell_why(
    filter: &mut SwitchyardRouteFilter,
    headers: http::HeaderMap<http::HeaderValue>,
    path: &str,
    body: Option<&[u8]>,
    now: u64,
    reachable: bool,
    answer: Result<String, RouteError>,
    r: Result<Routed, RouteError>,
    tree: JsonTree,
)
    requires
        call_ensures(
            SwitchyardRouteFilter::route,
            (filter, &headers, path, body, now, reachable, answer),
            r,
        ),
    ensures
        !old(filter).kept() ==> final(filter).floors() == old(filter).floors(),
        body is None || body->Some_0@.len() == 0 ==> (r matches Err(RouteError::Body(what))
            && what@ == "is missing or empty"@),
        body is Some && body->Some_0@.len() > 0 ==> {
            &&& parsed_json(body->Some_0@) matches Err(why) ==> (r matches Err(
                RouteError::Json(told),
            ) && told@ == why)
            &&& parsed_json(body->Some_0@) is Ok && !(parsed_json(body->Some_0@)->Ok_0 is Object)
                ==> (r matches Err(RouteError::Body(what)) && what@ == "is not a JSON object"@)
            &&& parsed_json(body->Some_0@) == Ok::<JsonTree, Seq<char>>(tree) && tree is Object
                ==> {
                &&& wire_format(path@, tree) is Err ==> r is Err && r->Err_0@ == wire_format(
                    path@,
                    tree,
                )->Err_0
                &&& wire_format(path@, tree) is Ok && !old(
                    filter,
                ).config().session_floor.escalation_ratchet ==> {
                    &&& !reachable ==> (r matches Err(RouteError::MissingSubrequestClient))
                    &&& reachable && answer is Err ==> r is Err && r->Err_0@ == answer->Err_0@
                    &&& reachable && answer is Ok && answer->Ok_0@ != "weak"@ && answer->Ok_0@
                        != "strong"@ ==> (r matches Err(RouteError::UnknownTier(told)) && told@
                        == answer->Ok_0@)
                    &&& reachable && answer is Ok && (answer->Ok_0@ == "weak"@ || answer->Ok_0@
                        == "strong"@) ==> r is Ok
                }
            }
        },
{
    assert(by_content(r) is Ok == r is Ok);
    assert(by_content(answer) is Ok == answer is Ok);
    if answer is Ok {
        assert(by_content(answer)->Ok_0 == answer->Ok_0@);
    }
    if r is Err {
        let fault = r->Err_0@;
        assert(by_content(r)->Err_0 == fault);
    }
}

/// The filter hands out the judge endpoint that it was made with, and tells
/// failures under the name that is documented for them.
pub proof fn the_judge_endpoint_is_handed_out(
    filter: SwitchyardRouteFilter,
    endpoint: JudgeEndpoint,
)
    requires
        call_ensures(SwitchyardRouteFilter::judge_endpoint, (&filter,), &endpoint),
    ensures
        endpoint@ == filter.endpoint(),
        METADATA_ERROR@ == "switchyard_route.error"@,
{
}

} // verus!
