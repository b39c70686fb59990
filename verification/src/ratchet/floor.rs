//! The session floor: a one-way tier ratchet per session.
//!
//! The classifier is stateless per request, so the guarantee that a session
//! which reached the strong tier never silently drops back has to be kept
//! here: every decision is clamped to the floor, and the floor only moves up.
//! A floor is forgotten once its session has been inactive for the window.

use vstd::prelude::*;

use crate::clock::{elapsed, since};
use crate::tier::{stronger, Tier};

verus! {

/// Entry count that triggers an expired-entry sweep during a commit.
pub const SWEEP_LEN: usize = 8_192;

/// `dashmap::DashMap`: a concurrent map.
#[verifier::external_type_specification]
#[verifier::external_body]
#[verifier::reject_recursive_types(K)]
#[verifier::reject_recursive_types(V)]
#[verifier::reject_recursive_types(S)]
pub struct ExDashMap<K, V, S>(dashmap::DashMap<K, V, S>);

/// A committed floor and its last-activity instant.
#[derive(Debug, Clone, Copy)]
pub struct FloorEntry {
    /// The committed tier floor.
    pub tier: Tier,
    /// Last commit instant; the inactivity window counts from here.
    pub touched: u64,
}

/// Whether `entry` has been inactive for the whole window at `now`.
pub open spec fn dead(entry: FloorEntry, now: u64, ttl: u64) -> bool {
    elapsed(entry.touched, now) >= ttl
}

impl FloorEntry {
    /// Whether this entry's inactivity window has elapsed at `now`.
    pub fn expired(&self, now: u64, ttl: u64) -> (r: bool)
        ensures
            r == dead(*self, now, ttl),
    {
        since(self.touched, now) >= ttl
    }

    /// Whether this entry still counts at `now`.
    pub fn alive(&self, now: u64, ttl: u64) -> (r: bool)
        ensures
            r == !dead(*self, now, ttl),
    {
        !self.expired(now, ttl)
    }
}

/// What a concurrent map of session floors holds.
pub uninterp spec fn floor_entries(
    map: dashmap::DashMap<String, FloorEntry>,
) -> Map<Seq<char>, FloorEntry>;

/// The content of an empty floor map.
pub open spec fn no_floors() -> Map<Seq<char>, FloorEntry> {
    Map::empty()
}

/// The entry under `session`, if there is one.
pub open spec fn entry_of(entries: Map<Seq<char>, FloorEntry>, session: Seq<char>) -> Option<
    FloorEntry,
> {
    if entries.contains_key(session) {
        Some(entries[session])
    } else {
        None
    }
}

/// The entries that still count at `now`.
pub open spec fn surviving(
    entries: Map<Seq<char>, FloorEntry>,
    now: u64,
    ttl: u64,
) -> Map<Seq<char>, FloorEntry> {
    entries.restrict(
        Set::new(|session: Seq<char>| entries.contains_key(session) && !dead(entries[session], now, ttl)),
    )
}

/// The floor that `session` holds at `now`.
pub open spec fn floor_at(
    entries: Map<Seq<char>, FloorEntry>,
    session: Seq<char>,
    now: u64,
    ttl: u64,
) -> Option<Tier> {
    if entries.contains_key(session) && !dead(entries[session], now, ttl) {
        Some(entries[session].tier)
    } else {
        None
    }
}

/// `tier` raised to the floor that is held, if one is.
pub open spec fn raised(held: Option<Tier>, tier: Tier) -> Tier {
    match held {
        Some(floor) => stronger(floor, tier),
        None => tier,
    }
}

/// The entries after a lookup: an entry that no longer counts is dropped.
pub open spec fn after_lookup(
    entries: Map<Seq<char>, FloorEntry>,
    session: Seq<char>,
    now: u64,
    ttl: u64,
) -> Map<Seq<char>, FloorEntry> {
    if entries.contains_key(session) && dead(entries[session], now, ttl) {
        entries.remove(session)
    } else {
        entries
    }
}

/// The entries that a sweep leaves: below [`SWEEP_LEN`] entries, all of them.
pub open spec fn after_sweep(entries: Map<Seq<char>, FloorEntry>, now: u64, ttl: u64) -> Map<
    Seq<char>,
    FloorEntry,
> {
    if entries.len() >= SWEEP_LEN {
        surviving(entries, now, ttl)
    } else {
        entries
    }
}

/// The entries after a commit: the session's floor is raised to at least
/// `tier`, or starts from `tier` when none is held, and counts from `now`.
pub open spec fn after_commit(
    entries: Map<Seq<char>, FloorEntry>,
    session: Seq<char>,
    tier: Tier,
    now: u64,
    ttl: u64,
) -> Map<Seq<char>, FloorEntry> {
    after_sweep(entries, now, ttl).insert(
        session,
        FloorEntry { tier: raised(floor_at(entries, session, now, ttl), tier), touched: now },
    )
}

/// `dashmap::DashMap::new`: an empty map.
#[verifier::external_body]
fn new_floors() -> (r: dashmap::DashMap<String, FloorEntry>)
    ensures
        floor_entries(r) == no_floors(),
{
    dashmap::DashMap::new()
}

/// `dashmap::DashMap::len`: how many entries the map holds.
#[verifier::external_body]
fn count_floors(map: &dashmap::DashMap<String, FloorEntry>) -> (r: usize)
    ensures
        r == floor_entries(*map).len(),
{
    map.len()
}

/// `dashmap::DashMap::get`: a copy of the entry under the key.
#[verifier::external_body]
fn get_floor(map: &dashmap::DashMap<String, FloorEntry>, session: &str) -> (r: Option<FloorEntry>)
    ensures
        r == entry_of(floor_entries(*map), session@),
{
    map.get(session).map(|entry| *entry)
}

/// `dashmap::DashMap::insert`: sets the entry under the key. Nothing else
/// touches the map meanwhile, as the caller has it exclusively.
#[verifier::external_body]
fn put_floor(map: &mut dashmap::DashMap<String, FloorEntry>, session: &str, entry: FloorEntry)
    ensures
        floor_entries(*final(map)) == floor_entries(*old(map)).insert(session@, entry),
{
    map.insert(session.to_owned(), entry);
}

/// `dashmap::DashMap::remove`: drops the entry under the key. Nothing else
/// touches the map meanwhile, as the caller has it exclusively.
#[verifier::external_body]
fn drop_floor(map: &mut dashmap::DashMap<String, FloorEntry>, session: &str)
    ensures
        floor_entries(*final(map)) == floor_entries(*old(map)).remove(session@),
{
    map.remove(session);
}

/// `dashmap::DashMap::retain` with [`FloorEntry::alive`]: keeps the entries
/// that still count. Nothing else touches the map meanwhile, as the caller has
/// it exclusively.
#[verifier::external_body]
fn keep_live(map: &mut dashmap::DashMap<String, FloorEntry>, now: u64, ttl: u64)
    ensures
        floor_entries(*final(map)) == surviving(floor_entries(*old(map)), now, ttl),
{
    map.retain(|_session, entry| entry.alive(now, ttl));
}

/// Storage seam for the session floor, so that an out-of-process store can
/// stand behind the same contract.
pub trait SessionFloorStore {
    /// The floor that `session` holds at `now`.
    spec fn held(&self, session: Seq<char>, now: u64) -> Option<Tier>;

    /// How long a floor outlives the last commit.
    spec fn window(&self) -> u64;

    /// The live committed floor for `session`, if any.
    fn floor(&mut self, session: &str, now: u64) -> (floor: Option<Tier>)
        ensures
            floor == old(self).held(session@, now),
            final(self).window() == old(self).window(),
            forall|other: Seq<char>, at: u64|
                at >= now ==> #[trigger] final(self).held(other, at) == old(self).held(other, at),
    ;

    /// Ratchets the floor for `session` up to at least `tier` (never down) and
    /// restarts its inactivity window.
    fn commit(&mut self, session: &str, tier: Tier, now: u64)
        ensures
            final(self).window() == old(self).window(),
            forall|at: u64|
                at >= now ==> #[trigger] final(self).held(session@, at) == (if at - now
                    < old(self).window() {
                    Some(raised(old(self).held(session@, now), tier))
                } else {
                    None
                }),
            forall|other: Seq<char>, at: u64|
                other != session@ && at >= now ==> #[trigger] final(self).held(other, at) == old(
                    self,
                ).held(other, at),
    ;

    /// Drops the floor for `session` (end-of-session eviction).
    fn evict(&mut self, session: &str)
        ensures
            final(self).window() == old(self).window(),
            forall|at: u64| #[trigger] final(self).held(session@, at) is None,
            forall|other: Seq<char>, at: u64|
                other != session@ ==> #[trigger] final(self).held(other, at) == old(self).held(
                    other,
                    at,
                ),
    ;
}

/// In-process [`SessionFloorStore`] backed by a concurrent map.
///
/// Expired entries are dropped lazily on access, plus a bulk sweep whenever a
/// commit finds the map at [`SWEEP_LEN`] entries or more.
#[derive(Debug)]
pub struct InMemorySessionFloor {
    /// Committed floors keyed by session id.
    floors: dashmap::DashMap<String, FloorEntry>,
    /// Inactivity window after which a floor is dropped.
    ttl: u64,
}

impl InMemorySessionFloor {
    /// The committed floors by session id.
    pub closed spec fn entries(&self) -> Map<Seq<char>, FloorEntry> {
        floor_entries(self.floors)
    }

    /// The inactivity window.
    pub closed spec fn ttl(&self) -> u64 {
        self.ttl
    }

    /// Creates an empty floor store with the given inactivity window, in
    /// nanoseconds.
    pub fn new(ttl: u64) -> (store: InMemorySessionFloor)
        ensures
            store.entries() == no_floors(),
            store.ttl() == ttl,
    {
        InMemorySessionFloor { floors: new_floors(), ttl }
    }

    /// Bulk-drops expired entries once the map has grown to [`SWEEP_LEN`].
    pub fn sweep_if_full(&mut self, now: u64)
        ensures
            final(self).entries() == after_sweep(old(self).entries(), now, old(self).ttl()),
            final(self).ttl() == old(self).ttl(),
    {
        if count_floors(&self.floors) >= SWEEP_LEN {
            keep_live(&mut self.floors, now, self.ttl);
        }
    }
}

impl SessionFloorStore for InMemorySessionFloor {
    open spec fn held(&self, session: Seq<char>, now: u64) -> Option<Tier> {
        floor_at(self.entries(), session, now, self.ttl())
    }

    open spec fn window(&self) -> u64 {
        self.ttl()
    }

    fn floor(&mut self, session: &str, now: u64) -> (floor: Option<Tier>)
        ensures
            floor == floor_at(old(self).entries(), session@, now, old(self).ttl()),
            final(self).entries() == after_lookup(
                old(self).entries(),
                session@,
                now,
                old(self).ttl(),
            ),
            final(self).ttl() == old(self).ttl(),
    {
        match get_floor(&self.floors, session) {
            None => None,
            Some(entry) => {
                if entry.expired(now, self.ttl) {
                    drop_floor(&mut self.floors, session);
                    None
                } else {
                    Some(entry.tier)
                }
            },
        }
    }

    fn commit(&mut self, session: &str, tier: Tier, now: u64)
        ensures
            final(self).entries() == after_commit(
                old(self).entries(),
                session@,
                tier,
                now,
                old(self).ttl(),
            ),
            final(self).ttl() == old(self).ttl(),
    {
        self.sweep_if_full(now);
        let entry = match get_floor(&self.floors, session) {
            None => FloorEntry { tier, touched: now },
            Some(held) => {
                if held.expired(now, self.ttl) {
                    // A dead floor must not resurrect: restart from this turn's tier.
                    FloorEntry { tier, touched: now }
                } else {
                    FloorEntry { tier: held.tier.at_least(tier), touched: now }
                }
            },
        };
        put_floor(&mut self.floors, session, entry);
    }

    fn evict(&mut self, session: &str)
        ensures
            final(self).entries() == old(self).entries().remove(session@),
            final(self).ttl() == old(self).ttl(),
    {
        drop_floor(&mut self.floors, session);
    }
}

/// A floor counts until as much time has gone by since its last commit as the
/// window is long, and no longer.
pub proof fn floors_count_for_the_window(
    entry: FloorEntry,
    now: u64,
    ttl: u64,
    alive: bool,
    expired: bool,
)
    requires
        call_ensures(FloorEntry::alive, (&entry, now, ttl), alive),
        call_ensures(FloorEntry::expired, (&entry, now, ttl), expired),
    ensures
        expired == !alive,
        entry.touched <= now ==> (alive <==> now - entry.touched < ttl),
        entry.touched > now ==> (alive <==> ttl > 0),
        dead(entry, now, ttl) == expired,
{
}

/// A store starts empty with the window that it is given; a sweep of 8192 floors
/// or more drops those that no longer count and keeps the others as they are,
/// and a sweep of fewer drops none.
pub proof fn sweeps_drop_what_no_longer_counts(
    ttl: u64,
    fresh: InMemorySessionFloor,
    store: &mut InMemorySessionFloor,
    now: u64,
    session: Seq<char>,
)
    requires
        call_ensures(InMemorySessionFloor::new, (ttl,), fresh),
        call_ensures(InMemorySessionFloor::sweep_if_full, (store, now), ()),
    ensures
        fresh.ttl() == ttl,
        !fresh.entries().contains_key(session),
        final(store).ttl() == old(store).ttl(),
        old(store).entries().len() < 8_192 ==> final(store).entries() == old(store).entries(),
        old(store).entries().len() >= 8_192 ==> (final(store).entries().contains_key(session)
            <==> old(store).entries().contains_key(session) && elapsed(
            old(store).entries()[session].touched,
            now,
        ) < old(store).ttl()),
        final(store).entries().contains_key(session) ==> final(store).entries()[session] == old(
            store,
        ).entries()[session],
{
}

} // verus!
