//! The bounded store behind the session memory.
//!
//! Entries are held in the order of their last use, least recent first.

use vstd::prelude::*;

use super::session::{KeyView, SessionKey, IDLE_TTL, MAX_SESSIONS};
use crate::clock::{elapsed, since};
use crate::text::text_eq;
use crate::tier::Tier;

verus! {

/// One remembered session.
#[derive(Debug, Clone)]
pub struct SessionEntry {
    /// What the session is known by.
    pub key: SessionKey,
    /// The tier that the judge last chose.
    pub tier: Tier,
    /// When the entry was last written or read.
    pub used: u64,
}

/// The content of a [`SessionEntry`].
pub struct EntryView {
    pub key: KeyView,
    pub tier: Tier,
    pub used: u64,
}

impl View for SessionEntry {
    type V = EntryView;

    open spec fn view(&self) -> EntryView {
        EntryView { key: self.key@, tier: self.tier, used: self.used }
    }
}

/// Whether an entry has been unused for the whole window at `now`.
pub open spec fn idle(entry: EntryView, now: u64, ttl: u64) -> bool {
    elapsed(entry.used, now) >= ttl
}

/// Whether no two entries have one key.
pub open spec fn distinct(entries: Seq<EntryView>) -> bool {
    forall|i: int, j: int|
        0 <= i < j < entries.len() ==> (#[trigger] entries[i]).key != (#[trigger] entries[j]).key
}

/// Whether an entry stands under `key`.
pub open spec fn known(entries: Seq<EntryView>, key: KeyView) -> bool {
    exists|i: int| 0 <= i < entries.len() && (#[trigger] entries[i]).key == key
}

/// The entries under other keys than `key`, in order.
pub open spec fn without(entries: Seq<EntryView>, key: KeyView) -> Seq<EntryView> {
    entries.filter(|entry: EntryView| entry.key != key)
}

/// The entry under `key`.
pub open spec fn entry_at(entries: Seq<EntryView>, key: KeyView) -> EntryView {
    entries[choose|i: int| 0 <= i < entries.len() && (#[trigger] entries[i]).key == key]
}

/// The tier that is remembered for `key` at `now`.
pub open spec fn recalled(entries: Seq<EntryView>, key: KeyView, now: u64, ttl: u64) -> Option<
    Tier,
> {
    if known(entries, key) && !idle(entry_at(entries, key), now, ttl) {
        Some(entry_at(entries, key).tier)
    } else {
        None
    }
}

/// The entries after `key` was asked for: one that is recalled counts as used
/// now, one that is past its window is dropped.
pub open spec fn after_recall(entries: Seq<EntryView>, key: KeyView, now: u64, ttl: u64) -> Seq<
    EntryView,
> {
    match recalled(entries, key, now, ttl) {
        Some(tier) => without(entries, key).push(EntryView { key, tier, used: now }),
        None => without(entries, key),
    }
}

/// The entries with room for one more among `capacity`: the least recently
/// used one makes it where there is none.
pub open spec fn with_room(entries: Seq<EntryView>, capacity: nat) -> Seq<EntryView> {
    if entries.len() >= capacity {
        entries.drop_first()
    } else {
        entries
    }
}

/// The entries after `tier` was remembered for `key`.
pub open spec fn after_remember(
    entries: Seq<EntryView>,
    key: KeyView,
    tier: Tier,
    now: u64,
    capacity: nat,
) -> Seq<EntryView> {
    with_room(without(entries, key), capacity).push(EntryView { key, tier, used: now })
}

/// Whether the entries stand in the order of their last use.
pub open spec fn in_order(entries: Seq<EntryView>) -> bool {
    forall|i: int, j: int|
        0 <= i <= j < entries.len() ==> (#[trigger] entries[i]).used <= (#[trigger] entries[j]).used
}

pub(crate) proof fn filter_drops_one(entries: Seq<EntryView>, key: KeyView, at: int)
    requires
        distinct(entries),
        0 <= at < entries.len(),
        entries[at].key == key,
    ensures
        without(entries, key) == entries.remove(at),
    decreases entries.len(),
{
    reveal(Seq::filter);
    let rest = entries.drop_last();
    let last = entries.last();
    if at == entries.len() - 1 {
        filter_keeps_all(rest, key);
        assert(entries.remove(at) =~= rest);
    } else {
        assert(rest[at] == entries[at]);
        assert forall|i: int, j: int| 0 <= i < j < rest.len() implies (#[trigger] rest[i]).key != (
        #[trigger] rest[j]).key by {
            assert(entries[i].key != entries[j].key);
        }
        filter_drops_one(rest, key, at);
        assert(entries[at].key != entries[entries.len() - 1].key);
        assert(entries.remove(at) =~= rest.remove(at).push(last));
    }
}

pub(crate) proof fn filter_keeps_all(entries: Seq<EntryView>, key: KeyView)
    requires
        forall|i: int| 0 <= i < entries.len() ==> (#[trigger] entries[i]).key != key,
    ensures
        without(entries, key) == entries,
    decreases entries.len(),
{
    reveal(Seq::filter);
    if entries.len() > 0 {
        let rest = entries.drop_last();
        assert forall|i: int| 0 <= i < rest.len() implies (#[trigger] rest[i]).key != key by {
            assert(entries[i].key != key);
        }
        filter_keeps_all(rest, key);
        assert(entries[entries.len() - 1].key != key);
        assert(rest.push(entries.last()) =~= entries);
    }
}

pub(crate) proof fn removal_keeps_distinct(entries: Seq<EntryView>, at: int)
    requires
        distinct(entries),
        0 <= at < entries.len(),
    ensures
        distinct(entries.remove(at)),
        !known(entries.remove(at), entries[at].key),
        forall|i: int|
            0 <= i < entries.len() - 1 ==> #[trigger] entries.remove(at)[i] == (if i < at {
                entries[i]
            } else {
                entries[i + 1]
            }),
{
    let rest = entries.remove(at);
    assert forall|i: int| 0 <= i < rest.len() implies (#[trigger] rest[i]).key != entries[at].key by {
        if i < at {
            assert(entries[i].key != entries[at].key);
        } else {
            assert(entries[at].key != entries[i + 1].key);
        }
    }
    assert forall|i: int, j: int| 0 <= i < j < rest.len() implies (#[trigger] rest[i]).key != (
    #[trigger] rest[j]).key by {
        let a = if i < at { i } else { i + 1 };
        let b = if j < at { j } else { j + 1 };
        assert(entries[a].key != entries[b].key);
    }
}

pub(crate) proof fn push_keeps_distinct(entries: Seq<EntryView>, entry: EntryView)
    requires
        distinct(entries),
        !known(entries, entry.key),
    ensures
        distinct(entries.push(entry)),
{
    let all = entries.push(entry);
    assert forall|i: int, j: int| 0 <= i < j < all.len() implies (#[trigger] all[i]).key != (
    #[trigger] all[j]).key by {
        if j == entries.len() {
            assert(entries[i].key != entry.key);
        } else {
            assert(entries[i].key != entries[j].key);
        }
    }
}

pub(crate) proof fn entry_is_unique(entries: Seq<EntryView>, key: KeyView, at: int)
    requires
        distinct(entries),
        0 <= at < entries.len(),
        entries[at].key == key,
    ensures
        known(entries, key),
        entry_at(entries, key) == entries[at],
{
    let other = choose|i: int| 0 <= i < entries.len() && (#[trigger] entries[i]).key == key;
    if other < at {
        assert(entries[other].key != entries[at].key);
    } else if at < other {
        assert(entries[at].key != entries[other].key);
    }
}

/// Dropping a key keeps the rest distinct, of at most the old length, and
/// without that key.
pub proof fn without_is_clean(entries: Seq<EntryView>, key: KeyView)
    requires
        distinct(entries),
    ensures
        distinct(without(entries, key)),
        !known(without(entries, key), key),
        without(entries, key).len() <= entries.len(),
        in_order(entries) ==> in_order(without(entries, key)),
        forall|i: int|
            0 <= i < without(entries, key).len() ==> entries.contains(
                #[trigger] without(entries, key)[i],
            ),
{
    if known(entries, key) {
        let at = choose|i: int| 0 <= i < entries.len() && (#[trigger] entries[i]).key == key;
        filter_drops_one(entries, key, at);
        removal_keeps_distinct(entries, at);
        assert forall|i: int| 0 <= i < without(entries, key).len() implies entries.contains(
            #[trigger] without(entries, key)[i],
        ) by {
            let source = if i < at { i } else { i + 1 };
            assert(entries[source] == without(entries, key)[i]);
        }
    } else {
        filter_keeps_all(entries, key);
    }
}

/// In-process memory of the last real judge success per session.
pub struct SessionStore {
    /// The remembered sessions, least recently used first.
    entries: Vec<SessionEntry>,
    /// How long an unused entry is remembered, in nanoseconds.
    ttl: u64,
    /// How many sessions are remembered.
    capacity: usize,
}

/// The contents of a vector of entries.
pub open spec fn entry_views(entries: Seq<SessionEntry>) -> Seq<EntryView> {
    entries.map_values(|entry: SessionEntry| entry@)
}

fn same_key(a: &SessionKey, b: &SessionKey) -> (r: bool)
    ensures
        r == (a@ == b@),
{
    match a {
        SessionKey::Named(left) => match b {
            SessionKey::Named(right) => text_eq(left.as_str(), right.as_str()),
            SessionKey::Opening(_) => false,
        },
        SessionKey::Opening(left) => match b {
            SessionKey::Named(_) => false,
            SessionKey::Opening(right) => *left == *right,
        },
    }
}

fn copy_key(key: &SessionKey) -> (r: SessionKey)
    ensures
        r@ == key@,
{
    match key {
        SessionKey::Named(name) => SessionKey::Named(name.clone()),
        SessionKey::Opening(fingerprint) => SessionKey::Opening(*fingerprint),
    }
}

impl SessionStore {
    /// The remembered sessions, least recently used first.
    pub closed spec fn entries(&self) -> Seq<EntryView> {
        entry_views(self.entries@)
    }

    /// How long an unused entry is remembered.
    pub closed spec fn ttl(&self) -> u64 {
        self.ttl
    }

    /// How many sessions are remembered.
    pub closed spec fn capacity(&self) -> nat {
        self.capacity as nat
    }

    /// Whether the store keeps its bound and its keys distinct.
    pub open spec fn wf(&self) -> bool {
        &&& distinct(self.entries())
        &&& self.entries().len() <= self.capacity()
        &&& self.capacity() > 0
    }

    /// Creates an empty store with the given idle window, in nanoseconds, and
    /// capacity.
    pub fn with_limits(ttl: u64, capacity: usize) -> (store: SessionStore)
        requires
            capacity > 0,
        ensures
            store.wf(),
            store.entries() == Seq::<EntryView>::empty(),
            store.ttl() == ttl,
            store.capacity() == capacity,
    {
        let store = SessionStore { entries: Vec::new(), ttl, capacity };
        assert(store.entries() =~= Seq::<EntryView>::empty());
        store
    }

    /// Creates an empty store with the default window and capacity.
    pub fn with_defaults() -> (store: SessionStore)
        ensures
            store.wf(),
            store.entries() == Seq::<EntryView>::empty(),
            store.ttl() == IDLE_TTL,
            store.capacity() == MAX_SESSIONS,
    {
        SessionStore::with_limits(IDLE_TTL, MAX_SESSIONS)
    }

    fn position(&self, key: &SessionKey) -> (r: Option<usize>)
        ensures
            match r {
                Some(at) => at < self.entries@.len() && self.entries()[at as int].key == key@,
                None => !known(self.entries(), key@),
            },
    {
        let mut i: usize = 0;
        while i < self.entries.len()
            invariant
                i <= self.entries@.len(),
                forall|j: int| 0 <= j < i ==> (#[trigger] self.entries()[j]).key != key@,
            decreases self.entries@.len() - i,
        {
            assert(self.entries()[i as int] == self.entries@[i as int]@);
            if same_key(&self.entries[i].key, key) {
                return Some(i);
            }
            i = i + 1;
        }
        None
    }

    /// Drops the entry under `key`, if there is one.
    fn forget(&mut self, key: &SessionKey) -> (r: Option<SessionEntry>)
        requires
            distinct(old(self).entries()),
        ensures
            final(self).entries() == without(old(self).entries(), key@),
            final(self).ttl() == old(self).ttl(),
            final(self).capacity() == old(self).capacity(),
            match r {
                Some(entry) => known(old(self).entries(), key@) && entry@ == entry_at(
                    old(self).entries(),
                    key@,
                ),
                None => !known(old(self).entries(), key@),
            },
    {
        match self.position(key) {
            Some(at) => {
                proof {
                    filter_drops_one(self.entries(), key@, at as int);
                    entry_is_unique(self.entries(), key@, at as int);
                }
                let ghost before = self.entries@;
                let entry = self.entries.remove(at);
                assert(entry_views(before.remove(at as int)) =~= entry_views(before).remove(
                    at as int,
                ));
                Some(entry)
            },
            None => {
                proof {
                    filter_keeps_all(self.entries(), key@);
                }
                None
            },
        }
    }

    fn append(&mut self, key: &SessionKey, tier: Tier, now: u64)
        ensures
            final(self).entries() == old(self).entries().push(
                EntryView { key: key@, tier, used: now },
            ),
            final(self).ttl() == old(self).ttl(),
            final(self).capacity() == old(self).capacity(),
    {
        let ghost before = self.entries@;
        let entry = SessionEntry { key: copy_key(key), tier, used: now };
        self.entries.push(entry);
        assert(entry_views(before.push(entry)) =~= entry_views(before).push(entry@));
    }

    /// Remembers a real judge success for `key`.
    pub fn remember(&mut self, key: &SessionKey, tier: Tier, now: u64)
        requires
            old(self).wf(),
        ensures
            final(self).wf(),
            final(self).entries() == after_remember(
                old(self).entries(),
                key@,
                tier,
                now,
                old(self).capacity(),
            ),
            final(self).ttl() == old(self).ttl(),
            final(self).capacity() == old(self).capacity(),
    {
        let _earlier = self.forget(key);
        proof {
            without_is_clean(old(self).entries(), key@);
        }
        if self.entries.len() >= self.capacity {
            let ghost before = self.entries@;
            proof {
                removal_keeps_distinct(self.entries(), 0);
                assert(!known(self.entries().remove(0), key@)) by {
                    assert forall|i: int| 0 <= i < self.entries().len() - 1 implies (
                    #[trigger] self.entries().remove(0)[i]).key != key@ by {
                        assert(self.entries()[i + 1].key != key@);
                    }
                }
                assert(self.entries().remove(0) =~= self.entries().drop_first());
            }
            let _oldest = self.entries.remove(0);
            assert(entry_views(before.remove(0)) =~= entry_views(before).remove(0));
        }
        proof {
            push_keeps_distinct(self.entries(), EntryView { key: key@, tier, used: now });
        }
        self.append(key, tier, now);
    }

    /// The tier of the last real judge success for `key`, unless it has been
    /// unused for the idle window. Asking for it counts as a use.
    pub fn last_success(&mut self, key: &SessionKey, now: u64) -> (r: Option<Tier>)
        requires
            old(self).wf(),
        ensures
            r == recalled(old(self).entries(), key@, now, old(self).ttl()),
            final(self).wf(),
            final(self).entries() == after_recall(
                old(self).entries(),
                key@,
                now,
                old(self).ttl(),
            ),
            final(self).ttl() == old(self).ttl(),
            final(self).capacity() == old(self).capacity(),
    {
        proof {
            without_is_clean(old(self).entries(), key@);
        }
        match self.forget(key) {
            Some(entry) => {
                if since(entry.used, now) >= self.ttl {
                    return None;
                }
                proof {
                    let all = old(self).entries();
                    let at = choose|i: int| 0 <= i < all.len() && (#[trigger] all[i]).key == key@;
                    filter_drops_one(all, key@, at);
                    push_keeps_distinct(
                        self.entries(),
                        EntryView { key: key@, tier: entry.tier, used: now },
                    );
                }
                self.append(key, entry.tier, now);
                Some(entry.tier)
            },
            None => None,
        }
    }

    /// How many sessions are remembered at the moment.
    pub fn len(&self) -> (r: usize)
        ensures
            r == self.entries().len(),
    {
        self.entries.len()
    }
}

/// A store holds what it is told: after a session is remembered, it is recalled
/// with that tier for the window, and stays one entry however often that
/// happens; a store starts empty, with the limits that it is given.
pub proof fn stores_hold_what_they_are_told(
    ttl: u64,
    capacity: usize,
    fresh: SessionStore,
    store: &mut SessionStore,
    key: SessionKey,
    tier: Tier,
    now: u64,
    later: u64,
    count: usize,
)
    requires
        call_ensures(SessionStore::with_limits, (ttl, capacity), fresh),
        call_ensures(SessionStore::remember, (store, &key, tier, now), ()),
        call_ensures(SessionStore::len, (&fresh,), count),
        old(store).wf(),
    ensures
        fresh.entries().len() == 0,
        count == 0,
        fresh.ttl() == ttl,
        fresh.capacity() == capacity,
        final(store).entries().len() > 0,
        final(store).entries().last().key == key@,
        final(store).entries().last().tier == tier,
        final(store).entries().last().used == now,
        now <= later && later - now < old(store).ttl() ==> recalled(
            final(store).entries(),
            key@,
            later,
            old(store).ttl(),
        ) == Some(tier),
        now <= later && later - now >= old(store).ttl() ==> recalled(
            final(store).entries(),
            key@,
            later,
            old(store).ttl(),
        ) is None,
        known(old(store).entries(), key@) ==> final(store).entries().len() == old(
            store,
        ).entries().len(),
        !known(old(store).entries(), key@) && old(store).entries().len() < old(store).capacity()
            ==> final(store).entries().len() == old(store).entries().len() + 1,
        final(store).entries().len() <= old(store).capacity(),
{
    let before = store.entries();
    without_is_clean(before, key@);
    let rest = without(before, key@);
    if known(before, key@) {
        let at = choose|i: int| 0 <= i < before.len() && (#[trigger] before[i]).key == key@;
        filter_drops_one(before, key@, at);
    } else {
        filter_keeps_all(before, key@);
    }
    let after = after_remember(before, key@, tier, now, store.capacity());
    assert(final(store).entries() == after);
    assert(after.last() == (EntryView { key: key@, tier, used: now }));
    assert(distinct(after));
    entry_is_unique(after, key@, after.len() - 1);
}

/// Asking a store gives the tier of the session's entry within the window, and
/// from then on the window counts anew.
pub proof fn stores_give_back_what_they_hold(
    store: &mut SessionStore,
    key: SessionKey,
    now: u64,
    r: Option<Tier>,
    at: int,
)
    requires
        call_ensures(SessionStore::last_success, (store, &key, now), r),
        old(store).wf(),
    ensures
        !known(old(store).entries(), key@) ==> r is None && final(store).entries() == old(
            store,
        ).entries(),
        0 <= at < old(store).entries().len() && old(store).entries()[at].key == key@ && old(
            store,
        ).entries()[at].used <= now ==> {
            &&& now - old(store).entries()[at].used < old(store).ttl() ==> r == Some(
                old(store).entries()[at].tier,
            ) && final(store).entries().last() == (EntryView {
                key: key@,
                tier: old(store).entries()[at].tier,
                used: now,
            }) && final(store).entries().len() == old(store).entries().len()
            &&& now - old(store).entries()[at].used >= old(store).ttl() ==> r is None
        },
{
    let before = store.entries();
    if 0 <= at < before.len() && before[at].key == key@ {
        entry_is_unique(before, key@, at);
        filter_drops_one(before, key@, at);
    }
    if !known(before, key@) {
        filter_keeps_all(before, key@);
    }
}

} // verus!
