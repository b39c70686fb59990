//! What holds of the session memory and of the turns that it serves.
//!
//! Turns are taken one after the other here. A turn does to the memory what
//! [`SwitchyardRouteFilter::route`](super::filter::SwitchyardRouteFilter::route)
//! does to it.

use vstd::prelude::*;

use super::config::{config_outcome, parse, RouteConfig, RouteSettings, RouteView};
use super::error::{RouteError, RouteFault};
use super::failure::{
    FailureApply, FailureApplyKind, DECISION_DEFAULT_STRONG, DECISION_REJECTED, DECISION_REUSE,
};
use super::filter::{
    answered, begun, body_bytes, body_of, decode_for_judge, document, entries_after, looked_up,
    parse_body, record_error_metadata, recovered, remembered_for, request_cluster, request_key,
    rewrite_model, sent, Fallback, FallbackView, Fields, Outcome, Routed, RoutedView,
    SwitchyardRouteFilter, Turn, TurnEnd, TurnRecord, METADATA_CLUSTER, METADATA_DECISION,
    METADATA_ERROR,
};
use super::session::{first_of, key_view, session_key, KeyView, SESSION_HEADER};
use super::store::{
    after_recall, after_remember, distinct, entry_at, entry_is_unique, filter_drops_one,
    filter_keeps_all, in_order, known, push_keeps_distinct, recalled, removal_keeps_distinct,
    with_room, without, without_is_clean, EntryView, SessionStore,
};
use crate::clock::elapsed;
use crate::config::{ConfigError, FailureMode};
use crate::json::{json_bytes, json_tree, member_of, parsed_json, with_text, JsonTree};
use crate::tier::Tier;
use crate::wire::{header_fields, header_text};

verus! {

proof fn last_entry_is_found(entries: Seq<EntryView>, entry: EntryView)
    requires
        !known(entries, entry.key),
    ensures
        known(entries.push(entry), entry.key),
        entry_at(entries.push(entry), entry.key) == entry,
{
    let all = entries.push(entry);
    assert(all[entries.len() as int].key == entry.key);
    let at = choose|i: int| 0 <= i < all.len() && (#[trigger] all[i]).key == entry.key;
    if at < entries.len() {
        assert(entries[at].key == entry.key);
    }
}

proof fn dropping_first_keeps_absence(entries: Seq<EntryView>, key: KeyView)
    requires
        entries.len() > 0,
        !known(entries, key),
    ensures
        !known(entries.drop_first(), key),
{
    assert forall|i: int| 0 <= i < entries.drop_first().len() implies (
    #[trigger] entries.drop_first()[i]).key != key by {
        assert(entries[i + 1].key != key);
    }
}

/// A remembered success is recalled for the whole idle window, and not longer.
pub proof fn a_success_is_recalled(
    entries: Seq<EntryView>,
    key: KeyView,
    tier: Tier,
    now: u64,
    capacity: nat,
    later: u64,
    ttl: u64,
)
    requires
        distinct(entries),
        entries.len() <= capacity,
        capacity > 0,
    ensures
        recalled(after_remember(entries, key, tier, now, capacity), key, later, ttl) == (if elapsed(
            now,
            later,
        ) < ttl {
            Some(tier)
        } else {
            None
        }),
{
    without_is_clean(entries, key);
    let rest = without(entries, key);
    if rest.len() >= capacity {
        dropping_first_keeps_absence(rest, key);
    }
    last_entry_is_found(with_room(rest, capacity), EntryView { key, tier, used: now });
}

/// Asking for a session counts as a use: it is recalled for another whole
/// window from then on.
pub proof fn a_recall_restarts_the_window(
    entries: Seq<EntryView>,
    key: KeyView,
    now: u64,
    later: u64,
    ttl: u64,
)
    requires
        distinct(entries),
        recalled(entries, key, now, ttl) is Some,
    ensures
        recalled(after_recall(entries, key, now, ttl), key, later, ttl) == (if elapsed(now, later)
            < ttl {
            recalled(entries, key, now, ttl)
        } else {
            None
        }),
{
    without_is_clean(entries, key);
    let tier = recalled(entries, key, now, ttl)->Some_0;
    last_entry_is_found(without(entries, key), EntryView { key, tier, used: now });
}

proof fn other_entries_stay(entries: Seq<EntryView>, key: KeyView, other: KeyView)
    requires
        distinct(entries),
        other != key,
    ensures
        known(without(entries, key), other) == known(entries, other),
        known(entries, other) ==> entry_at(without(entries, key), other) == entry_at(entries, other),
{
    without_is_clean(entries, key);
    let rest = without(entries, key);
    if known(entries, other) {
        let at = choose|i: int| 0 <= i < entries.len() && (#[trigger] entries[i]).key == other;
        entry_is_unique(entries, other, at);
        entries.filter_lemma(|entry: EntryView| entry.key != key);
        assert((|entry: EntryView| entry.key != key)(entries[at]));
        assert(rest.contains(entries[at]));
        let there = choose|i: int| 0 <= i < rest.len() && rest[i] == entries[at];
        entry_is_unique(rest, other, there);
    }
    if known(rest, other) {
        let there = choose|i: int| 0 <= i < rest.len() && (#[trigger] rest[i]).key == other;
        assert(entries.contains(rest[there]));
        let at = choose|i: int| 0 <= i < entries.len() && entries[i] == rest[there];
        assert(entries[at].key == other);
    }
}

proof fn pushing_another_keeps(entries: Seq<EntryView>, entry: EntryView, other: KeyView)
    requires
        distinct(entries),
        !known(entries, entry.key),
        entry.key != other,
    ensures
        known(entries.push(entry), other) == known(entries, other),
        known(entries, other) ==> entry_at(entries.push(entry), other) == entry_at(entries, other),
{
    let all = entries.push(entry);
    push_keeps_distinct(entries, entry);
    if known(entries, other) {
        let at = choose|i: int| 0 <= i < entries.len() && (#[trigger] entries[i]).key == other;
        entry_is_unique(entries, other, at);
        assert(all[at] == entries[at]);
        entry_is_unique(all, other, at);
    }
    if known(all, other) {
        let at = choose|i: int| 0 <= i < all.len() && (#[trigger] all[i]).key == other;
        assert(entries[at].key == other);
    }
}

proof fn dropping_another_keeps(entries: Seq<EntryView>, other: KeyView)
    requires
        distinct(entries),
        entries.len() > 0,
        entries[0].key != other,
    ensures
        distinct(entries.drop_first()),
        known(entries.drop_first(), other) == known(entries, other),
        known(entries, other) ==> entry_at(entries.drop_first(), other) == entry_at(entries, other),
{
    let rest = entries.drop_first();
    removal_keeps_distinct(entries, 0);
    assert(entries.remove(0) =~= rest);
    if known(entries, other) {
        let at = choose|i: int| 0 <= i < entries.len() && (#[trigger] entries[i]).key == other;
        entry_is_unique(entries, other, at);
        assert(rest[at - 1] == entries[at]);
        entry_is_unique(rest, other, at - 1);
    }
    if known(rest, other) {
        let there = choose|i: int| 0 <= i < rest.len() && (#[trigger] rest[i]).key == other;
        assert(entries[there + 1].key == other);
    }
}

/// Whether remembering `key` makes room by dropping the entry of `other`.
pub open spec fn pushes_out(
    entries: Seq<EntryView>,
    key: KeyView,
    capacity: nat,
    other: KeyView,
) -> bool {
    without(entries, key).len() >= capacity && without(entries, key)[0].key == other
}

proof fn another_entry_survives(
    entries: Seq<EntryView>,
    key: KeyView,
    tier: Tier,
    now: u64,
    capacity: nat,
    other: KeyView,
    ttl: u64,
)
    requires
        distinct(entries),
        entries.len() <= capacity,
        capacity > 0,
        other != key,
    ensures
        ({
            let after = after_recall(entries, key, now, ttl);
            &&& known(after, other) == known(entries, other)
            &&& known(entries, other) ==> entry_at(after, other) == entry_at(entries, other)
        }),
        !pushes_out(entries, key, capacity, other) ==> {
            let after = after_remember(entries, key, tier, now, capacity);
            &&& known(after, other) == known(entries, other)
            &&& known(entries, other) ==> entry_at(after, other) == entry_at(entries, other)
        },
{
    without_is_clean(entries, key);
    other_entries_stay(entries, key, other);
    let rest = without(entries, key);
    if let Some(held) = recalled(entries, key, now, ttl) {
        pushing_another_keeps(rest, EntryView { key, tier: held, used: now }, other);
    }
    if !pushes_out(entries, key, capacity, other) {
        if rest.len() >= capacity {
            dropping_another_keeps(rest, other);
            dropping_first_keeps_absence(rest, key);
        }
        pushing_another_keeps(
            with_room(rest, capacity),
            EntryView { key, tier, used: now },
            other,
        );
    }
}

/// Remembering or asking for one session leaves what is recalled for another
/// as it is, unless that other one is the entry that has to make room.
pub proof fn sessions_are_isolated(
    entries: Seq<EntryView>,
    key: KeyView,
    tier: Tier,
    now: u64,
    capacity: nat,
    other: KeyView,
    later: u64,
    ttl: u64,
)
    requires
        distinct(entries),
        entries.len() <= capacity,
        capacity > 0,
        other != key,
    ensures
        !pushes_out(entries, key, capacity, other) ==> recalled(
            after_remember(entries, key, tier, now, capacity),
            other,
            later,
            ttl,
        ) == recalled(entries, other, later, ttl),
        recalled(after_recall(entries, key, now, ttl), other, later, ttl) == recalled(
            entries,
            other,
            later,
            ttl,
        ),
{
    another_entry_survives(entries, key, tier, now, capacity, other, ttl);
}

/// The memory never outgrows its capacity, its keys stay distinct, and, with a
/// clock that does not run backwards, its entries stay in the order of their
/// last use, so that the entry which makes room is the least recently used one.
pub proof fn the_memory_is_a_bounded_lru(
    entries: Seq<EntryView>,
    key: KeyView,
    tier: Tier,
    now: u64,
    capacity: nat,
    ttl: u64,
)
    requires
        distinct(entries),
        in_order(entries),
        entries.len() <= capacity,
        capacity > 0,
        forall|i: int| 0 <= i < entries.len() ==> (#[trigger] entries[i]).used <= now,
    ensures
        after_remember(entries, key, tier, now, capacity).len() <= capacity,
        in_order(after_remember(entries, key, tier, now, capacity)),
        after_recall(entries, key, now, ttl).len() <= capacity,
        in_order(after_recall(entries, key, now, ttl)),
        !known(entries, key) && entries.len() == capacity ==> after_remember(
            entries,
            key,
            tier,
            now,
            capacity,
        ) == entries.drop_first().push(EntryView { key, tier, used: now }),
{
    without_is_clean(entries, key);
    let rest = without(entries, key);
    assert forall|i: int| 0 <= i < rest.len() implies (#[trigger] rest[i]).used <= now by {
        assert(entries.contains(rest[i]));
        let at = choose|j: int| 0 <= j < entries.len() && entries[j] == rest[i];
        assert(entries[at].used <= now);
    }
    if !known(entries, key) {
        filter_keeps_all(entries, key);
    } else {
        let at = choose|i: int| 0 <= i < entries.len() && (#[trigger] entries[i]).key == key;
        filter_drops_one(entries, key, at);
    }
}

/// A failed turn writes nothing into the memory: whatever stands there after
/// it stood there before, under the same key and with the same tier.
pub proof fn failures_are_never_remembered(
    entries: Seq<EntryView>,
    ttl: u64,
    key: Option<KeyView>,
    now: u64,
    at: int,
)
    requires
        distinct(entries),
        0 <= at < looked_up(entries, ttl, key, now).len(),
    ensures
        exists|i: int|
            0 <= i < entries.len() && (#[trigger] entries[i]).key == looked_up(
                entries,
                ttl,
                key,
                now,
            )[at].key && entries[i].tier == looked_up(entries, ttl, key, now)[at].tier,
{
    let after = looked_up(entries, ttl, key, now);
    if let Some(asked) = key {
        without_is_clean(entries, asked);
        let rest = without(entries, asked);
        if at < rest.len() {
            assert(after[at] == rest[at]);
            assert(entries.contains(rest[at]));
            let source = choose|i: int| 0 <= i < entries.len() && entries[i] == rest[at];
            assert(entries[source].key == after[at].key);
        } else {
            let source = choose|i: int|
                0 <= i < entries.len() && (#[trigger] entries[i]).key == asked;
            assert(entries[source].key == after[at].key);
        }
    } else {
        assert(entries[at].key == after[at].key);
    }
}

/// A filter that fails closed answers every request without a decision with
/// 503, whatever is remembered.
pub proof fn closed_failures_are_rejected(
    config: RouteView,
    body: Option<Seq<u8>>,
    may_apply: bool,
    remembered: Option<Tier>,
)
    requires
        config.on_failure == FailureMode::Closed,
    ensures
        recovered(config, body, may_apply, remembered) == (FallbackView::Reject {
            status: 503,
            decision: DECISION_REJECTED@,
        }),
{
}

/// A filter that fails open never rejects a request, and passes one through
/// untouched that it may not rewrite.
pub proof fn open_failures_are_never_rejected(
    config: RouteView,
    body: Option<Seq<u8>>,
    may_apply: bool,
    remembered: Option<Tier>,
)
    requires
        config.on_failure == FailureMode::Open,
    ensures
        !(recovered(config, body, may_apply, remembered) is Reject),
        !may_apply ==> recovered(config, body, may_apply, remembered) is PassThrough,
{
}

/// A judge failure in a session that the judge has routed before is served
/// from the tier it chose last, as long as that is within the idle window; in a
/// session without memory, by the strong tier.
pub proof fn a_judge_failure_reuses_the_last_success(
    config: RouteView,
    entries: Seq<EntryView>,
    key: KeyView,
    tier: Tier,
    now: u64,
    capacity: nat,
    later: u64,
    ttl: u64,
    body: Option<Seq<u8>>,
    tree: JsonTree,
)
    requires
        config.on_failure == FailureMode::Open,
        distinct(entries),
        entries.len() <= capacity,
        capacity > 0,
        body_of(body) == Ok::<JsonTree, RouteFault>(tree),
        tree is Object,
    ensures
        elapsed(now, later) < ttl ==> recovered(
            config,
            body,
            true,
            remembered_for(
                after_remember(entries, key, tier, now, capacity),
                ttl,
                Some(key),
                later,
            ),
        ) == (FallbackView::Serve {
            routed: RoutedView {
                body: json_bytes(with_text(tree, "model"@, config.target(tier).model)),
                cluster: config.target(tier).cluster,
                decision: DECISION_REUSE@,
            },
            apply: FailureApply { tier, kind: FailureApplyKind::Reuse },
        }),
        recovered(config, body, true, None) == (FallbackView::Serve {
            routed: RoutedView {
                body: json_bytes(with_text(tree, "model"@, config.strong.model)),
                cluster: config.strong.cluster,
                decision: DECISION_DEFAULT_STRONG@,
            },
            apply: FailureApply { tier: Tier::Strong, kind: FailureApplyKind::DefaultStrong },
        }),
{
    a_success_is_recalled(entries, key, tier, now, capacity, later, ttl);
}

/// The memory once the first `count` of `turns` are done.
pub open spec fn entries_at(
    entries: Seq<EntryView>,
    ttl: u64,
    capacity: nat,
    turns: Seq<TurnRecord>,
    count: nat,
) -> Seq<EntryView>
    decreases count,
{
    if count == 0 {
        entries
    } else {
        entries_after(
            entries_at(entries, ttl, capacity, turns, (count - 1) as nat),
            ttl,
            capacity,
            turns[count - 1],
        )
    }
}

/// When the first `count` of `turns` last used the session `key`, which the
/// turn `first` did.
pub open spec fn last_use(turns: Seq<TurnRecord>, key: KeyView, first: nat, count: nat) -> u64
    decreases count,
{
    if count <= first + 1 {
        turns[first as int].now
    } else if turns[count - 1].uses(key) {
        turns[count - 1].now
    } else {
        last_use(turns, key, first, (count - 1) as nat)
    }
}

/// Whether the turn after the first `count` drops the entry of `key` to make
/// room for another session.
pub open spec fn drops(
    entries: Seq<EntryView>,
    ttl: u64,
    capacity: nat,
    turns: Seq<TurnRecord>,
    count: nat,
    key: KeyView,
) -> bool {
    let turn = turns[count as int];
    turn.end is Routed && turn.session is Some && turn.session != Some(key) && pushes_out(
        entries_at(entries, ttl, capacity, turns, count),
        turn.session->Some_0,
        capacity,
        key,
    )
}

/// Whether every failed turn of the session `key` after its routed turn `first`
/// and before `until` comes within the idle window of the session's last use,
/// and none of its turns in between is routed anew.
pub open spec fn kept_warm(
    turns: Seq<TurnRecord>,
    key: KeyView,
    first: nat,
    until: nat,
    ttl: u64,
) -> bool {
    forall|k: int|
        first < k < until && (#[trigger] turns[k]).uses(key) ==> turns[k].end is JudgeFailed
            && elapsed(last_use(turns, key, first, k as nat), turns[k].now) < ttl
}

proof fn turns_keep_the_memory_sound(
    entries: Seq<EntryView>,
    ttl: u64,
    capacity: nat,
    turns: Seq<TurnRecord>,
    count: nat,
)
    requires
        distinct(entries),
        entries.len() <= capacity,
        capacity > 0,
        count <= turns.len(),
    ensures
        distinct(entries_at(entries, ttl, capacity, turns, count)),
        entries_at(entries, ttl, capacity, turns, count).len() <= capacity,
    decreases count,
{
    if count > 0 {
        turns_keep_the_memory_sound(entries, ttl, capacity, turns, (count - 1) as nat);
        let before = entries_at(entries, ttl, capacity, turns, (count - 1) as nat);
        let turn = turns[count - 1];
        if let Some(key) = turn.session {
            without_is_clean(before, key);
            let rest = without(before, key);
            if let Some(held) = recalled(before, key, turn.now, ttl) {
                push_keeps_distinct(rest, EntryView { key, tier: held, used: turn.now });
                let at = choose|i: int|
                    0 <= i < before.len() && (#[trigger] before[i]).key == key;
                filter_drops_one(before, key, at);
            }
            if rest.len() >= capacity {
                removal_keeps_distinct(rest, 0);
                assert(rest.remove(0) =~= rest.drop_first());
                dropping_first_keeps_absence(rest, key);
            }
            if let TurnEnd::Routed(tier) = turn.end {
                push_keeps_distinct(
                    with_room(rest, capacity),
                    EntryView { key, tier, used: turn.now },
                );
            }
        }
    }
}

proof fn entry_outlives_turns(
    entries: Seq<EntryView>,
    ttl: u64,
    capacity: nat,
    turns: Seq<TurnRecord>,
    key: KeyView,
    tier: Tier,
    first: nat,
    count: nat,
)
    requires
        distinct(entries),
        entries.len() <= capacity,
        capacity > 0,
        first < count <= turns.len(),
        turns[first as int].session == Some(key),
        turns[first as int].end == TurnEnd::Routed(tier),
        kept_warm(turns, key, first, count, ttl),
        forall|k: int| first < k < count ==> !#[trigger] drops(
            entries,
            ttl,
            capacity,
            turns,
            k as nat,
            key,
        ),
    ensures
        known(entries_at(entries, ttl, capacity, turns, count), key),
        entry_at(entries_at(entries, ttl, capacity, turns, count), key) == (EntryView {
            key,
            tier,
            used: last_use(turns, key, first, count),
        }),
    decreases count,
{
    let before = entries_at(entries, ttl, capacity, turns, (count - 1) as nat);
    let turn = turns[count - 1];
    turns_keep_the_memory_sound(entries, ttl, capacity, turns, (count - 1) as nat);
    if count == first + 1 {
        without_is_clean(before, key);
        let rest = without(before, key);
        if rest.len() >= capacity {
            dropping_first_keeps_absence(rest, key);
        }
        last_entry_is_found(with_room(rest, capacity), EntryView { key, tier, used: turn.now });
    } else {
        entry_outlives_turns(
            entries,
            ttl,
            capacity,
            turns,
            key,
            tier,
            first,
            (count - 1) as nat,
        );
        assert(!drops(entries, ttl, capacity, turns, (count - 1) as nat, key));
        if turn.session == Some(key) {
            if turn.uses(key) {
                assert(turns[count - 1].uses(key));
                without_is_clean(before, key);
                last_entry_is_found(
                    without(before, key),
                    EntryView { key, tier, used: turn.now },
                );
            }
        } else if let Some(other) = turn.session {
            let written = match turn.end {
                TurnEnd::Routed(chosen) => chosen,
                _ => Tier::Weak,
            };
            another_entry_survives(before, other, written, turn.now, capacity, key, ttl);
        }
    }
}

/// The reuse guarantee: once the judge has routed a turn of a session, a later
/// turn of that session whose judge fails is served by the tier that the judge
/// chose, whatever other sessions do in between, as long as they do not push
/// the session out of the memory, the session is used again within each idle
/// window, and the judge does not route it anew.
pub proof fn a_session_is_reused_over_many_turns(
    config: RouteView,
    entries: Seq<EntryView>,
    ttl: u64,
    capacity: nat,
    turns: Seq<TurnRecord>,
    key: KeyView,
    tier: Tier,
    first: nat,
    later: nat,
    body: Option<Seq<u8>>,
    tree: JsonTree,
)
    requires
        config.on_failure == FailureMode::Open,
        distinct(entries),
        entries.len() <= capacity,
        capacity > 0,
        first < later < turns.len(),
        turns[first as int].session == Some(key),
        turns[first as int].end == TurnEnd::Routed(tier),
        turns[later as int].session == Some(key),
        turns[later as int].end is JudgeFailed,
        kept_warm(turns, key, first, later + 1, ttl),
        forall|k: int| first < k < later ==> !#[trigger] drops(
            entries,
            ttl,
            capacity,
            turns,
            k as nat,
            key,
        ),
        body_of(body) == Ok::<JsonTree, RouteFault>(tree),
        tree is Object,
    ensures
        recovered(
            config,
            body,
            true,
            remembered_for(
                entries_at(entries, ttl, capacity, turns, later),
                ttl,
                Some(key),
                turns[later as int].now,
            ),
        ) == (FallbackView::Serve {
            routed: RoutedView {
                body: json_bytes(with_text(tree, "model"@, config.target(tier).model)),
                cluster: config.target(tier).cluster,
                decision: DECISION_REUSE@,
            },
            apply: FailureApply { tier, kind: FailureApplyKind::Reuse },
        }),
{
    assert(turns[later as int].uses(key));
    assert(kept_warm(turns, key, first, later, ttl));
    entry_outlives_turns(entries, ttl, capacity, turns, key, tier, first, later);
}

/// Whether at most `behind` entries were used after that of `key`.
spec fn recent(entries: Seq<EntryView>, key: KeyView, behind: int) -> bool {
    exists|i: int|
        0 <= i < entries.len() && (#[trigger] entries[i]).key == key && entries.len() - 1 - i
            <= behind
}

proof fn another_turn_moves_it_back_by_one(
    entries: Seq<EntryView>,
    ttl: u64,
    capacity: nat,
    turn: TurnRecord,
    key: KeyView,
    behind: int,
)
    requires
        distinct(entries),
        entries.len() <= capacity,
        capacity > 0,
        recent(entries, key, behind),
        behind < capacity - 1,
        !turn.uses(key),
    ensures
        recent(entries_after(entries, ttl, capacity, turn), key, behind + 1),
        turn.session matches Some(other) ==> other != key ==> !pushes_out(
            entries,
            other,
            capacity,
            key,
        ),
{
    let at = choose|i: int|
        0 <= i < entries.len() && (#[trigger] entries[i]).key == key && entries.len() - 1 - i
            <= behind;
    let after = entries_after(entries, ttl, capacity, turn);
    if turn.session is Some && turn.session != Some(key) {
        let other = turn.session->Some_0;
        let rest = without(entries, other);
        let there = if known(entries, other) {
            let j = choose|i: int| 0 <= i < entries.len() && (#[trigger] entries[i]).key == other;
            filter_drops_one(entries, other, j);
            if j < at {
                at - 1
            } else {
                at
            }
        } else {
            filter_keeps_all(entries, other);
            at
        };
        assert(rest[there].key == key);
        assert(rest.len() - 1 - there <= behind);
        if rest.len() >= capacity {
            assert(there > 0);
            without_is_clean(entries, other);
            assert(rest[0].key != rest[there].key);
        }
        match turn.end {
            TurnEnd::Routed(_) => {
                if rest.len() >= capacity {
                    assert(after[there - 1].key == key);
                } else {
                    assert(after[there].key == key);
                }
            },
            TurnEnd::JudgeFailed => {
                assert(after[there].key == key);
            },
            TurnEnd::Refused => {
                assert(after[at].key == key);
            },
        }
    } else {
        assert(after == entries);
        assert(after[at].key == key);
    }
}

proof fn entry_stays_recent(
    entries: Seq<EntryView>,
    ttl: u64,
    capacity: nat,
    turns: Seq<TurnRecord>,
    key: KeyView,
    tier: Tier,
    first: nat,
    count: nat,
)
    requires
        distinct(entries),
        entries.len() <= capacity,
        capacity > 0,
        first < count < turns.len(),
        count - first <= capacity,
        turns[first as int].session == Some(key),
        turns[first as int].end == TurnEnd::Routed(tier),
        kept_warm(turns, key, first, count, ttl),
    ensures
        recent(entries_at(entries, ttl, capacity, turns, count), key, count - first - 1),
        forall|k: int| first < k < count ==> !#[trigger] drops(
            entries,
            ttl,
            capacity,
            turns,
            k as nat,
            key,
        ),
    decreases count,
{
    let before = entries_at(entries, ttl, capacity, turns, (count - 1) as nat);
    let after = entries_at(entries, ttl, capacity, turns, count);
    let turn = turns[count - 1];
    if count == first + 1 {
        assert(after.last().key == key);
        assert(after[after.len() - 1].key == key);
    } else {
        entry_stays_recent(entries, ttl, capacity, turns, key, tier, first, (count - 1) as nat);
        turns_keep_the_memory_sound(entries, ttl, capacity, turns, (count - 1) as nat);
        if turn.uses(key) {
            entry_outlives_turns(
                entries,
                ttl,
                capacity,
                turns,
                key,
                tier,
                first,
                (count - 1) as nat,
            );
            assert(turns[count - 1].uses(key));
            assert(after.last().key == key);
            assert(after[after.len() - 1].key == key);
        } else {
            another_turn_moves_it_back_by_one(
                before,
                ttl,
                capacity,
                turn,
                key,
                count - first - 2,
            );
        }
        assert(!drops(entries, ttl, capacity, turns, (count - 1) as nat, key));
    }
}

/// No session is pushed out of the memory by fewer turns than the memory has
/// room for.
pub proof fn a_recent_session_is_not_pushed_out(
    entries: Seq<EntryView>,
    ttl: u64,
    capacity: nat,
    turns: Seq<TurnRecord>,
    key: KeyView,
    tier: Tier,
    first: nat,
    later: nat,
)
    requires
        distinct(entries),
        entries.len() <= capacity,
        capacity > 0,
        first < later < turns.len(),
        later - first <= capacity,
        turns[first as int].session == Some(key),
        turns[first as int].end == TurnEnd::Routed(tier),
        kept_warm(turns, key, first, later, ttl),
    ensures
        forall|k: int| first < k < later ==> !#[trigger] drops(
            entries,
            ttl,
            capacity,
            turns,
            k as nat,
            key,
        ),
{
    entry_stays_recent(entries, ttl, capacity, turns, key, tier, first, later);
}

proof fn first_stays_first(messages: Seq<JsonTree>, more: Seq<JsonTree>, role: Seq<char>)
    ensures
        first_of(messages, role) is Some ==> first_of(messages + more, role) == first_of(
            messages,
            role,
        ),
        first_of(messages, role) is None ==> first_of(messages + more, role) == first_of(
            more,
            role,
        ),
    decreases messages.len(),
{
    if messages.len() == 0 {
        assert(messages + more =~= more);
    } else {
        assert((messages + more)[0] == messages[0]);
        assert((messages + more).drop_first() =~= messages.drop_first() + more);
        first_stays_first(messages.drop_first(), more, role);
    }
}

/// A follow-up turn that keeps the opening of its conversation has the same
/// session key: messages that come after the first user message do not count,
/// unless they bring in the first system prompt.
pub proof fn follow_ups_keep_the_key(
    fields: Fields,
    body: JsonTree,
    messages: Seq<JsonTree>,
    follow_up: JsonTree,
    more: Seq<JsonTree>,
)
    requires
        member_of(body, "messages"@) == Some(JsonTree::List(messages)),
        member_of(follow_up, "messages"@) == Some(JsonTree::List(messages + more)),
        first_of(messages, "user"@) is Some,
        first_of(messages, "system"@) is Some || first_of(more, "system"@) is None,
    ensures
        session_key(fields, follow_up) == session_key(fields, body),
{
    first_stays_first(messages, more, "user"@);
    first_stays_first(messages, more, "system"@);
}

/// Under one session header every request has one key, whatever its body.
pub proof fn the_header_names_the_session(fields: Fields, one: JsonTree, other: JsonTree)
    requires
        header_text(fields, SESSION_HEADER@) matches Some(name)
            && name.len() > 0,
    ensures
        session_key(fields, one) == session_key(fields, other),
        session_key(fields, one) is Some,
{
}

/// A body is taken where it is there, holds something and parses; what is taken
/// is what it parses to.
pub proof fn bodies_are_taken_where_they_parse(
    body: Option<&[u8]>,
    r: Result<serde_json::Value, RouteError>,
)
    requires
        call_ensures(parse_body, (body,), r),
    ensures
        body is None ==> (r matches Err(RouteError::Body(what)) && what@ == "missing"@),
        body is Some && body->Some_0@.len() == 0 ==> (r matches Err(RouteError::Body(what))
            && what@ == "empty"@),
        body is Some && body->Some_0@.len() > 0 ==> {
            &&& parsed_json(body->Some_0@) matches Err(why) ==> (r matches Err(
                RouteError::Json(told),
            ) && told@ == why)
            &&& parsed_json(body->Some_0@) matches Ok(tree) ==> r is Ok && json_tree(r->Ok_0)
                == tree
        },
        body_of(body_bytes(body)) == document(r),
{
    assert(document(r) is Ok == r is Ok);
    if r is Err {
        let fault = r->Err_0@;
    }
}

/// A pass begins on a path that ends in `/chat/completions` and on no other,
/// with the body and the session key of the request.
pub proof fn a_pass_begins_on_chat_completions_alone(
    filter: SwitchyardRouteFilter,
    headers: http::HeaderMap<http::HeaderValue>,
    path: &str,
    body: Option<&[u8]>,
    r: Result<Turn, RouteError>,
    front: Seq<char>,
)
    requires
        call_ensures(SwitchyardRouteFilter::begin, (&filter, &headers, path, body), r),
    ensures
        body_of(body_bytes(body)) is Err ==> r is Err && r->Err_0@ == body_of(
            body_bytes(body),
        )->Err_0,
        body_of(body_bytes(body)) is Ok && path@ == front + "/chat/completions"@ ==> {
            &&& r is Ok
            &&& json_tree(r->Ok_0.value) == body_of(body_bytes(body))->Ok_0
            &&& key_view(r->Ok_0.session) == session_key(
                header_fields(headers),
                body_of(body_bytes(body))->Ok_0,
            )
        },
        body_of(body_bytes(body)) is Ok && !"/chat/completions"@.is_suffix_of(path@) ==> (
        r matches Err(RouteError::UnsupportedPath)),
{
    let chat = "/chat/completions"@;
    if path@ == front + chat {
        assert(path@.subrange(path@.len() - chat.len(), path@.len() as int) =~= chat);
    }
    if r is Ok {
        let view = r->Ok_0@;
        assert(view.session == key_view(r->Ok_0.session));
        assert(view.body == json_tree(r->Ok_0.value));
    } else {
        let fault = r->Err_0@;
    }
}

/// A request is sent to the target of its tier: that target's cluster, and the
/// body as it came but for that target's model. Only objects can be sent.
pub proof fn requests_are_sent_to_the_target_of_their_tier(
    config: RouteView,
    body: JsonTree,
    tier: Tier,
    why: Seq<char>,
)
    ensures
        body is Object && tier == Tier::Weak ==> sent(config, body, tier, why) == Ok::<
            RoutedView,
            RouteFault,
        >(
            RoutedView {
                body: json_bytes(with_text(body, "model"@, config.weak.model)),
                cluster: config.weak.cluster,
                decision: why,
            },
        ),
        body is Object && tier == Tier::Strong ==> sent(config, body, tier, why) == Ok::<
            RoutedView,
            RouteFault,
        >(
            RoutedView {
                body: json_bytes(with_text(body, "model"@, config.strong.model)),
                cluster: config.strong.cluster,
                decision: why,
            },
        ),
        !(body is Object) ==> sent(config, body, tier, why) == Err::<RoutedView, RouteFault>(
            RouteFault::Body("not an object"@),
        ),
{
}

/// Whether a chat request can be routed: its path is the chat path and its body
/// parses to the object `tree`.
pub open spec fn asks_with(
    path: Seq<char>,
    front: Seq<char>,
    body: Option<Seq<u8>>,
    tree: JsonTree,
) -> bool {
    &&& path == front + "/chat/completions"@
    &&& body_of(body) == Ok::<JsonTree, RouteFault>(tree)
    &&& tree is Object
}

proof fn asking_requests_begin(
    fields: Fields,
    path: Seq<char>,
    front: Seq<char>,
    body: Option<Seq<u8>>,
    tree: JsonTree,
)
    requires
        asks_with(path, front, body, tree),
    ensures
        begun(fields, path, body) is Ok,
        begun(fields, path, body)->Ok_0.body == tree,
        request_key(fields, body) == session_key(fields, tree),
{
    let chat = "/chat/completions"@;
    assert(path.subrange(path.len() - chat.len(), path.len() as int) =~= chat);
}

/// A chat request that the judge answers is routed as it says, whatever is
/// remembered: to the weak target or to the strong one, and recorded as routed.
pub proof fn answered_requests_follow_the_judge(
    filter: &mut SwitchyardRouteFilter,
    headers: http::HeaderMap<http::HeaderValue>,
    path: &str,
    front: Seq<char>,
    body: Option<&[u8]>,
    tree: JsonTree,
    tier: Tier,
    now: u64,
    r: Outcome,
)
    requires
        call_ensures(
            SwitchyardRouteFilter::route,
            (filter, &headers, path, body, Ok::<Tier, RouteError>(tier), now),
            r,
        ),
        asks_with(path@, front, body_bytes(body), tree),
    ensures
        r is Routed,
        r->Routed_0.decision@ == "routed"@,
        tier == Tier::Weak ==> r->Routed_0.cluster@ == old(filter).config().weak.cluster
            && r->Routed_0.body@ == json_bytes(
            with_text(tree, "model"@, old(filter).config().weak.model),
        ),
        tier == Tier::Strong ==> r->Routed_0.cluster@ == old(filter).config().strong.cluster
            && r->Routed_0.body@ == json_bytes(
            with_text(tree, "model"@, old(filter).config().strong.model),
        ),
{
    let fields = header_fields(headers);
    asking_requests_begin(fields, path@, front, body_bytes(body), tree);
    requests_are_sent_to_the_target_of_their_tier(filter.config(), tree, tier, "routed"@);
    assert(answered(Ok::<Tier, RouteError>(tier)) == Ok::<Tier, RouteFault>(tier));
    if r is Routed {
        let view = r->Routed_0@;
    }
}

/// A chat request whose judge fails in a filter that fails open is served from
/// what is remembered of its session, or from the strong target where nothing
/// is, and the failure is told. A filter that fails closed answers 503.
pub proof fn a_failed_judge_is_covered(
    filter: &mut SwitchyardRouteFilter,
    headers: http::HeaderMap<http::HeaderValue>,
    path: &str,
    front: Seq<char>,
    body: Option<&[u8]>,
    tree: JsonTree,
    error: RouteError,
    now: u64,
    r: Outcome,
)
    requires
        call_ensures(
            SwitchyardRouteFilter::route,
            (filter, &headers, path, body, Err::<Tier, RouteError>(error), now),
            r,
        ),
        asks_with(path@, front, body_bytes(body), tree),
        error is Judge || error is Run || error is NoDecision || error is UnknownTier
            || error is Translation || error is MissingSubrequestClient,
    ensures
        r is Failed,
        r->Failed_error@ == error@,
        old(filter).config().on_failure == FailureMode::Closed ==> (
        r->Failed_fallback matches Fallback::Reject { status, decision } && status == 503
            && decision@ == "rejected"@),
        old(filter).config().on_failure == FailureMode::Open ==> {
            let key = session_key(header_fields(headers), tree);
            let fallback = r->Failed_fallback;
            &&& fallback is Serve
            &&& key is None || recalled(
                old(filter).entries(),
                key->Some_0,
                now,
                old(filter).ttl(),
            ) is None ==> {
                &&& fallback->Serve_apply.tier == Tier::Strong
                &&& fallback->Serve_routed.decision@ == "default_strong"@
                &&& fallback->Serve_routed.cluster@ == old(filter).config().strong.cluster
                &&& fallback->Serve_routed.body@ == json_bytes(
                    with_text(tree, "model"@, old(filter).config().strong.model),
                )
            }
            &&& key is Some && recalled(
                old(filter).entries(),
                key->Some_0,
                now,
                old(filter).ttl(),
            ) == Some(Tier::Strong) ==> {
                &&& fallback->Serve_apply.tier == Tier::Strong
                &&& fallback->Serve_routed.decision@ == "reuse"@
                &&& fallback->Serve_routed.cluster@ == old(filter).config().strong.cluster
                &&& fallback->Serve_routed.body@ == json_bytes(
                    with_text(tree, "model"@, old(filter).config().strong.model),
                )
            }
            &&& key is Some && recalled(
                old(filter).entries(),
                key->Some_0,
                now,
                old(filter).ttl(),
            ) == Some(Tier::Weak) ==> {
                &&& fallback->Serve_apply.tier == Tier::Weak
                &&& fallback->Serve_routed.decision@ == "reuse"@
                &&& fallback->Serve_routed.cluster@ == old(filter).config().weak.cluster
                &&& fallback->Serve_routed.body@ == json_bytes(
                    with_text(tree, "model"@, old(filter).config().weak.model),
                )
            }
        },
{
    let fields = header_fields(headers);
    let config = filter.config();
    asking_requests_begin(fields, path@, front, body_bytes(body), tree);
    requests_are_sent_to_the_target_of_their_tier(config, tree, Tier::Weak, "reuse"@);
    requests_are_sent_to_the_target_of_their_tier(config, tree, Tier::Strong, "reuse"@);
    requests_are_sent_to_the_target_of_their_tier(config, tree, Tier::Strong, "default_strong"@);
    assert(answered(Err::<Tier, RouteError>(error)) == Err::<Tier, RouteFault>(error@));
    let fault = error@;
    if r is Failed {
        match r->Failed_fallback {
            Fallback::Serve { routed, apply } => {
                let view = routed@;
                assert(r->Failed_fallback@ == (FallbackView::Serve { routed: routed@, apply }));
            },
            Fallback::PassThrough { decision } => {
                assert(r->Failed_fallback@ is PassThrough);
            },
            Fallback::Reject { status, decision } => {
                assert(r->Failed_fallback@ is Reject);
            },
        }
    }
}

/// Two passes of one filter, one after the other: what the judge chose in the
/// first is what serves the second where the judge fails then, the two requests
/// have one session key, and the second comes within the idle window. Past the
/// window it is served by the strong target, and so is a request of another
/// session of which nothing was remembered before, where nothing had to make
/// room.
pub proof fn a_failed_pass_reuses_the_last_answer(
    filter: &mut SwitchyardRouteFilter,
    again: &mut SwitchyardRouteFilter,
    headers: http::HeaderMap<http::HeaderValue>,
    path: &str,
    front: Seq<char>,
    body: Option<&[u8]>,
    tree: JsonTree,
    tier: Tier,
    now: u64,
    r: Outcome,
    next_headers: http::HeaderMap<http::HeaderValue>,
    next_path: &str,
    next_front: Seq<char>,
    next_body: Option<&[u8]>,
    next_tree: JsonTree,
    error: RouteError,
    next_now: u64,
    next: Outcome,
)
    requires
        old(filter).wf(),
        old(filter).config().on_failure == FailureMode::Open,
        call_ensures(
            SwitchyardRouteFilter::route,
            (filter, &headers, path, body, Ok::<Tier, RouteError>(tier), now),
            r,
        ),
        call_ensures(
            SwitchyardRouteFilter::route,
            (again, &next_headers, next_path, next_body, Err::<Tier, RouteError>(error), next_now),
            next,
        ),
        *old(again) == *final(filter),
        asks_with(path@, front, body_bytes(body), tree),
        asks_with(next_path@, next_front, body_bytes(next_body), next_tree),
        error is Judge || error is Run || error is NoDecision || error is UnknownTier
            || error is Translation || error is MissingSubrequestClient,
        session_key(header_fields(headers), tree) is Some,
        session_key(header_fields(next_headers), next_tree) is Some,
    ensures
        next is Failed,
        next->Failed_fallback is Serve,
        ({
            let key = session_key(header_fields(headers), tree)->Some_0;
            let next_key = session_key(header_fields(next_headers), next_tree)->Some_0;
            let served = next->Failed_fallback;
            &&& key == next_key && now <= next_now && next_now - now < old(filter).ttl() ==> {
                &&& served->Serve_apply.tier == tier
                &&& served->Serve_routed.decision@ == "reuse"@
                &&& tier == Tier::Weak ==> served->Serve_routed.cluster@ == old(
                    filter,
                ).config().weak.cluster
                &&& tier == Tier::Strong ==> served->Serve_routed.cluster@ == old(
                    filter,
                ).config().strong.cluster
            }
            &&& key == next_key && now <= next_now && next_now - now >= old(filter).ttl() ==> {
                &&& served->Serve_apply.tier == Tier::Strong
                &&& served->Serve_routed.decision@ == "default_strong"@
                &&& served->Serve_routed.cluster@ == old(filter).config().strong.cluster
            }
            &&& key != next_key && old(filter).entries().len() == 0 ==> {
                &&& served->Serve_apply.tier == Tier::Strong
                &&& served->Serve_routed.decision@ == "default_strong"@
                &&& served->Serve_routed.cluster@ == old(filter).config().strong.cluster
            }
        }),
{
    let key = session_key(header_fields(headers), tree)->Some_0;
    let next_key = session_key(header_fields(next_headers), next_tree)->Some_0;
    let entries = filter.entries();
    let capacity = filter.capacity();
    let ttl = filter.ttl();
    asking_requests_begin(header_fields(headers), path@, front, body_bytes(body), tree);
    assert(answered(Ok::<Tier, RouteError>(tier)) == Ok::<Tier, RouteFault>(tier));
    assert(final(filter).entries() == after_remember(entries, key, tier, now, capacity));
    a_success_is_recalled(entries, key, tier, now, capacity, next_now, ttl);
    if key != next_key && entries.len() == 0 {
        without_is_clean(entries, key);
        let after = after_remember(entries, key, tier, now, capacity);
        assert(after.len() == 1);
        assert(!known(after, next_key));
    }
    a_failed_judge_is_covered(
        again,
        next_headers,
        next_path,
        next_front,
        next_body,
        next_tree,
        error,
        next_now,
        next,
    );
}

/// A request that is no chat request, or whose body is none, is not rewritten:
/// it passes through or is answered with 503, its failure is told, and the
/// memory stays as it is, whatever the judge says.
pub proof fn unsound_requests_are_not_rewritten(
    filter: &mut SwitchyardRouteFilter,
    headers: http::HeaderMap<http::HeaderValue>,
    path: &str,
    body: Option<&[u8]>,
    answer: Result<Tier, RouteError>,
    now: u64,
    r: Outcome,
)
    requires
        call_ensures(
            SwitchyardRouteFilter::route,
            (filter, &headers, path, body, answer, now),
            r,
        ),
        body_of(body_bytes(body)) is Err || !"/chat/completions"@.is_suffix_of(path@) || (!(body_of(
            body_bytes(body),
        )->Ok_0 is Object) && answer is Ok),
    ensures
        r is Failed,
        old(filter).config().on_failure == FailureMode::Open ==> (
        r->Failed_fallback matches Fallback::PassThrough { decision } && decision@ == "unrouted"@),
        old(filter).config().on_failure == FailureMode::Closed ==> (
        r->Failed_fallback matches Fallback::Reject { status, decision } && status == 503
            && decision@ == "rejected"@),
        body_of(body_bytes(body)) is Err ==> r->Failed_error@ == body_of(body_bytes(body))->Err_0,
        body_of(body_bytes(body)) is Ok && !"/chat/completions"@.is_suffix_of(path@)
            ==> r->Failed_error is UnsupportedPath,
        body_of(body_bytes(body)) is Ok && "/chat/completions"@.is_suffix_of(path@)
            ==> r->Failed_error@ == RouteFault::Body("not an object"@),
        final(filter).entries() == old(filter).entries(),
{
    if r is Failed {
        let fault = r->Failed_error@;
        match r->Failed_fallback {
            Fallback::Serve { routed, apply } => {
                assert(r->Failed_fallback@ is Serve);
            },
            Fallback::PassThrough { decision } => {
                assert(r->Failed_fallback@ is PassThrough);
            },
            Fallback::Reject { status, decision } => {
                assert(r->Failed_fallback@ is Reject);
            },
        }
    }
}

/// The halves of a pass do what the whole does: the second half sends the
/// request to the target of the tier and remembers the tier for its session.
pub proof fn a_pass_ends_at_the_tier_that_was_chosen(
    filter: &mut SwitchyardRouteFilter,
    turn: Turn,
    tier: Tier,
    now: u64,
    r: Result<Routed, RouteError>,
    later: u64,
)
    requires
        call_ensures(SwitchyardRouteFilter::settle, (filter, turn, tier, now), r),
        old(filter).wf(),
    ensures
        json_tree(turn.value) is Object <==> r is Ok,
        r is Ok ==> r->Ok_0.decision@ == "routed"@,
        r is Ok && tier == Tier::Weak ==> r->Ok_0.cluster@ == old(filter).config().weak.cluster
            && r->Ok_0.body@ == json_bytes(
            with_text(json_tree(turn.value), "model"@, old(filter).config().weak.model),
        ),
        r is Ok && tier == Tier::Strong ==> r->Ok_0.cluster@ == old(filter).config().strong.cluster
            && r->Ok_0.body@ == json_bytes(
            with_text(json_tree(turn.value), "model"@, old(filter).config().strong.model),
        ),
        r is Ok && turn.session is Some && now <= later && later - now < old(filter).ttl()
            ==> recalled(
            final(filter).entries(),
            turn.session->Some_0@,
            later,
            old(filter).ttl(),
        ) == Some(tier),
        r is Ok && turn.session is None ==> final(filter).entries() == old(filter).entries(),
        r is Err ==> r->Err_0@ == RouteFault::Body("not an object"@) && final(filter).entries()
            == old(filter).entries(),
{
    requests_are_sent_to_the_target_of_their_tier(
        filter.config(),
        json_tree(turn.value),
        tier,
        "routed"@,
    );
    assert(turn@.body == json_tree(turn.value));
    assert(turn@.session == key_view(turn.session));
    if r is Ok {
        let view = r->Ok_0@;
    }
    if turn.session is Some {
        a_success_is_recalled(
            filter.entries(),
            turn.session->Some_0@,
            tier,
            now,
            filter.capacity(),
            later,
            filter.ttl(),
        );
    }
}

/// The memory starts empty, forgets a session that was unused for 30 minutes,
/// and holds 10000 sessions.
pub proof fn the_memory_has_its_documented_limits(
    store: SessionStore,
    settings: RouteSettings,
    secret: Option<String>,
    r: Result<SwitchyardRouteFilter, ConfigError>,
)
    requires
        call_ensures(SessionStore::with_defaults, (), store),
        call_ensures(SwitchyardRouteFilter::from_config, (settings, secret), r),
    ensures
        store.entries().len() == 0,
        store.ttl() == 30 * 60 * 1_000_000_000,
        store.capacity() == 10_000,
        r is Ok ==> r->Ok_0.entries().len() == 0 && r->Ok_0.ttl() == 30 * 60 * 1_000_000_000
            && r->Ok_0.capacity() == 10_000 && r->Ok_0.wf(),
{
}

/// A filter is made exactly of settings that are accepted, and goes by them.
pub proof fn filters_go_by_their_settings(
    settings: RouteSettings,
    secret: Option<String>,
    r: Result<SwitchyardRouteFilter, ConfigError>,
    config: Result<RouteConfig, ConfigError>,
)
    requires
        call_ensures(SwitchyardRouteFilter::from_config, (settings, secret), r),
        call_ensures(parse, (settings, secret), config),
    ensures
        r is Ok == config is Ok,
        r is Ok ==> r->Ok_0.config() == config->Ok_0@,
        r is Err ==> r->Err_0.message@ == config->Err_0.message@,
{
    assert(config_outcome(config) is Ok == config is Ok);
}

/// A body that is decoded is asked about where there is someone to ask; a
/// rewrite changes the model alone; the recorded error is what the failure's
/// own words start with, up to 250 characters.
pub proof fn small_steps_do_what_they_say<T>(
    decoded: Result<T, String>,
    reachable: bool,
    ready: Result<T, RouteError>,
    value: serde_json::Value,
    model: &str,
    printed: Result<Vec<u8>, RouteError>,
    error: RouteError,
    message: String,
    note: String,
)
    requires
        call_ensures(decode_for_judge::<T>, (decoded, reachable), ready),
        call_ensures(rewrite_model, (value, model), printed),
        call_ensures(RouteError::message, (&error,), message),
        call_ensures(record_error_metadata, (&error,), note),
    ensures
        decoded matches Err(why) ==> (ready matches Err(RouteError::Translation(told)) && told@
            == why@),
        decoded is Ok && !reachable ==> (ready matches Err(RouteError::MissingSubrequestClient)),
        decoded is Ok && reachable ==> ready is Ok && ready->Ok_0 == decoded->Ok_0,
        printed is Ok <==> json_tree(value) is Object,
        json_tree(value) matches JsonTree::Object(members) ==> printed->Ok_0@ == json_bytes(
            JsonTree::Object(members.insert("model"@, JsonTree::Text(model@))),
        ),
        printed is Err ==> printed->Err_0@ == RouteFault::Body("not an object"@),
        note@.is_prefix_of(message@),
        message@.len() <= 250 ==> note@ == message@,
        message@.len() > 250 ==> note@.len() == 250,
{
    if ready is Err {
        let fault = ready->Err_0@;
    }
}

/// A pass can choose the weak cluster and the strong one, and the stashed
/// cluster comes before one that is already chosen.
pub proof fn clusters_are_the_configured_ones(
    filter: SwitchyardRouteFilter,
    names: Vec<String>,
    chosen: Option<String>,
    stashed: Option<String>,
    r: Option<String>,
    config: RouteConfig,
)
    requires
        call_ensures(SwitchyardRouteFilter::selected_clusters, (&filter,), names),
        call_ensures(request_cluster, (&chosen, &stashed), r),
        call_ensures(SwitchyardRouteFilter::settings, (&filter,), &config),
    ensures
        names@.len() == 2,
        names@[0]@ == filter.config().weak.cluster,
        names@[1]@ == filter.config().strong.cluster,
        stashed matches Some(cluster) ==> r is Some && r->Some_0@ == cluster@,
        stashed is None && chosen is Some ==> r is Some && r->Some_0@ == chosen->Some_0@,
        stashed is None && chosen is None ==> r is None,
        config@ == filter.config(),
{
    let texts = names@.map_values(|name: String| name@);
    assert(texts.len() == names@.len());
    assert(texts[0] == names@[0]@);
    assert(texts[1] == names@[1]@);
}

/// What is recalled of a session is the tier of its entry while the entry has
/// been used within the window, and nothing after it or without one.
pub proof fn entries_are_recalled_for_the_window(
    entries: Seq<EntryView>,
    at: int,
    now: u64,
    ttl: u64,
    stranger: KeyView,
)
    requires
        distinct(entries),
        0 <= at < entries.len(),
        forall|i: int| 0 <= i < entries.len() ==> (#[trigger] entries[i]).key != stranger,
    ensures
        entries[at].used <= now && now - entries[at].used < ttl ==> recalled(
            entries,
            entries[at].key,
            now,
            ttl,
        ) == Some(entries[at].tier),
        entries[at].used <= now && now - entries[at].used >= ttl ==> recalled(
            entries,
            entries[at].key,
            now,
            ttl,
        ) is None,
        recalled(entries, stranger, now, ttl) is None,
{
    entry_is_unique(entries, entries[at].key, at);
}

/// A failure that leaves no sound request, and one of a request whose body is no
/// object, is not covered by a tier: the request passes through, or is answered
/// with 503.
pub proof fn what_cannot_be_rewritten_passes_through(
    filter: &mut SwitchyardRouteFilter,
    headers: http::HeaderMap<http::HeaderValue>,
    path: &str,
    body: Option<&[u8]>,
    error: RouteError,
    now: u64,
    r: Outcome,
)
    requires
        call_ensures(
            SwitchyardRouteFilter::route,
            (filter, &headers, path, body, Err::<Tier, RouteError>(error), now),
            r,
        ),
        "/chat/completions"@.is_suffix_of(path@),
        body_of(body_bytes(body)) is Ok,
        !(body_of(body_bytes(body))->Ok_0 is Object) || error is Body || error is Json
            || error is UnsupportedPath || error is Serialize,
    ensures
        r is Failed,
        r->Failed_error@ == error@,
        old(filter).config().on_failure == FailureMode::Open ==> (
        r->Failed_fallback matches Fallback::PassThrough { decision } && decision@ == "unrouted"@),
        old(filter).config().on_failure == FailureMode::Closed ==> (
        r->Failed_fallback matches Fallback::Reject { status, decision } && status == 503
            && decision@ == "rejected"@),
{
    assert(answered(Err::<Tier, RouteError>(error)) == Err::<Tier, RouteFault>(error@));
    let fault = error@;
    if r is Failed {
        match r->Failed_fallback {
            Fallback::Serve { routed, apply } => {
                assert(r->Failed_fallback@ is Serve);
            },
            Fallback::PassThrough { decision } => {
                assert(r->Failed_fallback@ is PassThrough);
            },
            Fallback::Reject { status, decision } => {
                assert(r->Failed_fallback@ is Reject);
            },
        }
    }
}

/// The metadata of this filter goes by its documented names.
pub proof fn metadata_has_its_documented_names()
    ensures
        METADATA_CLUSTER@ == "switchyard_route.cluster"@,
        METADATA_DECISION@ == "switchyard_route.decision"@,
        METADATA_ERROR@ == "switchyard_route.error"@,
{
}

/// The failure path on its own: where the failure leaves a chat request, it is
/// served from what is remembered or from the strong target in a filter that
/// fails open; where it does not, the request passes through untouched and the
/// memory stays; a filter that fails closed answers 503 to all.
pub proof fn the_failure_path_covers_sound_requests_alone(
    filter: &mut SwitchyardRouteFilter,
    headers: http::HeaderMap<http::HeaderValue>,
    body: Option<&[u8]>,
    error: RouteError,
    now: u64,
    r: Fallback,
    tree: JsonTree,
)
    requires
        call_ensures(
            SwitchyardRouteFilter::on_route_error,
            (filter, &headers, body, &error, now),
            r,
        ),
    ensures
        old(filter).config().on_failure == FailureMode::Closed ==> (r matches Fallback::Reject {
            status,
            decision,
        } && status == 503 && decision@ == "rejected"@),
        old(filter).config().on_failure == FailureMode::Open && (error is Body || error is Json
            || error is UnsupportedPath || error is Serialize) ==> (
        r matches Fallback::PassThrough { decision } && decision@ == "unrouted"@)
            && final(filter).entries() == old(filter).entries(),
        old(filter).config().on_failure == FailureMode::Open && !(error is Body || error is Json
            || error is UnsupportedPath || error is Serialize) && body_of(body_bytes(body)) == Ok::<
            JsonTree,
            RouteFault,
        >(tree) && tree is Object ==> {
            let key = session_key(header_fields(headers), tree);
            let held = if key is Some {
                recalled(old(filter).entries(), key->Some_0, now, old(filter).ttl())
            } else {
                None
            };
            &&& r is Serve
            &&& held is None ==> r->Serve_routed.decision@ == "default_strong"@
                && r->Serve_apply.tier == Tier::Strong
            &&& held is Some ==> r->Serve_routed.decision@ == "reuse"@
            &&& held == Some(Tier::Weak) ==> r->Serve_routed.cluster@ == old(
                filter,
            ).config().weak.cluster && r->Serve_routed.body@ == json_bytes(
                with_text(tree, "model"@, old(filter).config().weak.model),
            )
            &&& held != Some(Tier::Weak) ==> r->Serve_routed.cluster@ == old(
                filter,
            ).config().strong.cluster && r->Serve_routed.body@ == json_bytes(
                with_text(tree, "model"@, old(filter).config().strong.model),
            )
        },
{
    let config = filter.config();
    requests_are_sent_to_the_target_of_their_tier(config, tree, Tier::Weak, "reuse"@);
    requests_are_sent_to_the_target_of_their_tier(config, tree, Tier::Strong, "reuse"@);
    requests_are_sent_to_the_target_of_their_tier(config, tree, Tier::Strong, "default_strong"@);
    let fault = error@;
    match r {
        Fallback::Serve { routed, apply } => {
            let view = routed@;
            assert(r@ == (FallbackView::Serve { routed: routed@, apply }));
        },
        Fallback::PassThrough { decision } => {
            assert(r@ is PassThrough);
        },
        Fallback::Reject { status, decision } => {
            assert(r@ is Reject);
        },
    }
}

/// While there is room, or the session is known already, remembering one
/// session drops no other.
pub proof fn nothing_is_dropped_while_there_is_room(
    entries: Seq<EntryView>,
    key: KeyView,
    tier: Tier,
    now: u64,
    capacity: nat,
    other: KeyView,
    later: u64,
    ttl: u64,
)
    requires
        distinct(entries),
        entries.len() <= capacity,
        capacity > 0,
        other != key,
        entries.len() < capacity || known(entries, key),
    ensures
        recalled(after_remember(entries, key, tier, now, capacity), other, later, ttl) == recalled(
            entries,
            other,
            later,
            ttl,
        ),
{
    without_is_clean(entries, key);
    if known(entries, key) {
        let at = choose|i: int| 0 <= i < entries.len() && (#[trigger] entries[i]).key == key;
        filter_drops_one(entries, key, at);
    } else {
        filter_keeps_all(entries, key);
    }
    sessions_are_isolated(entries, key, tier, now, capacity, other, later, ttl);
}

/// A pass whose judge fails counts as a use of what it recalls: the tier stays
/// recalled for another whole window. It leaves what is recalled of every other
/// session, and it brings in nothing that was not there.
pub proof fn a_failed_pass_counts_as_a_use(
    filter: &mut SwitchyardRouteFilter,
    headers: http::HeaderMap<http::HeaderValue>,
    path: &str,
    front: Seq<char>,
    body: Option<&[u8]>,
    tree: JsonTree,
    error: RouteError,
    now: u64,
    r: Outcome,
    other: KeyView,
    later: u64,
)
    requires
        call_ensures(
            SwitchyardRouteFilter::route,
            (filter, &headers, path, body, Err::<Tier, RouteError>(error), now),
            r,
        ),
        old(filter).wf(),
        asks_with(path@, front, body_bytes(body), tree),
        error is Judge || error is Run || error is NoDecision || error is UnknownTier
            || error is Translation || error is MissingSubrequestClient,
        session_key(header_fields(headers), tree) is Some,
        now <= later,
    ensures
        ({
            let key = session_key(header_fields(headers), tree)->Some_0;
            let held = recalled(old(filter).entries(), key, now, old(filter).ttl());
            &&& held is Some ==> recalled(
                final(filter).entries(),
                key,
                later,
                old(filter).ttl(),
            ) == (if later - now < old(filter).ttl() {
                held
            } else {
                None
            })
            &&& held is None ==> recalled(
                final(filter).entries(),
                key,
                later,
                old(filter).ttl(),
            ) is None
            &&& other != key ==> recalled(
                final(filter).entries(),
                other,
                later,
                old(filter).ttl(),
            ) == recalled(old(filter).entries(), other, later, old(filter).ttl())
        }),
{
    let key = session_key(header_fields(headers), tree)->Some_0;
    let entries = filter.entries();
    let ttl = filter.ttl();
    let capacity = filter.capacity();
    asking_requests_begin(header_fields(headers), path@, front, body_bytes(body), tree);
    assert(answered(Err::<Tier, RouteError>(error)) == Err::<Tier, RouteFault>(error@));
    let fault = error@;
    assert(final(filter).entries() == after_recall(entries, key, now, ttl));
    without_is_clean(entries, key);
    if recalled(entries, key, now, ttl) is Some {
        a_recall_restarts_the_window(entries, key, now, later, ttl);
    }
    if other != key {
        sessions_are_isolated(entries, key, Tier::Weak, now, capacity, other, later, ttl);
    }
}

/// A pass that the judge answers is remembered for its own session, and leaves
/// what is recalled of every other one while there is room; without a session
/// nothing is written.
pub proof fn an_answered_pass_is_remembered(
    filter: &mut SwitchyardRouteFilter,
    headers: http::HeaderMap<http::HeaderValue>,
    path: &str,
    front: Seq<char>,
    body: Option<&[u8]>,
    tree: JsonTree,
    tier: Tier,
    now: u64,
    r: Outcome,
    other: KeyView,
    later: u64,
)
    requires
        call_ensures(
            SwitchyardRouteFilter::route,
            (filter, &headers, path, body, Ok::<Tier, RouteError>(tier), now),
            r,
        ),
        old(filter).wf(),
        asks_with(path@, front, body_bytes(body), tree),
        now <= later,
    ensures
        session_key(header_fields(headers), tree) is None ==> final(filter).entries() == old(
            filter,
        ).entries(),
        session_key(header_fields(headers), tree) matches Some(key) ==> {
            &&& recalled(final(filter).entries(), key, later, old(filter).ttl()) == (if later - now
                < old(filter).ttl() {
                Some(tier)
            } else {
                None
            })
            &&& other != key && old(filter).entries().len() < old(filter).capacity() ==> recalled(
                final(filter).entries(),
                other,
                later,
                old(filter).ttl(),
            ) == recalled(old(filter).entries(), other, later, old(filter).ttl())
        },
        final(filter).wf(),
        final(filter).config() == old(filter).config(),
        final(filter).ttl() == old(filter).ttl(),
        final(filter).capacity() == old(filter).capacity(),
{
    let entries = filter.entries();
    let ttl = filter.ttl();
    let capacity = filter.capacity();
    asking_requests_begin(header_fields(headers), path@, front, body_bytes(body), tree);
    assert(answered(Ok::<Tier, RouteError>(tier)) == Ok::<Tier, RouteFault>(tier));
    if let Some(key) = session_key(header_fields(headers), tree) {
        a_success_is_recalled(entries, key, tier, now, capacity, later, ttl);
        if other != key && entries.len() < capacity {
            nothing_is_dropped_while_there_is_room(
                entries,
                key,
                tier,
                now,
                capacity,
                other,
                later,
                ttl,
            );
        }
    }
}

} // verus!
