//! The session floor store.

use switchyard_route::ratchet::floor::{FloorEntry, InMemorySessionFloor, SessionFloorStore};
use switchyard_route::tier::Tier;

/// One-hour window used across the tests, in nanoseconds.
const TTL: u64 = 3_600_000_000_000;

/// Some instant.
const NOW: u64 = 5_000_000_000;

#[test]
fn ratchet_moves_up_and_never_down() {
    let mut store = InMemorySessionFloor::new(TTL);
    store.commit("session-a", Tier::Weak, NOW);
    assert_eq!(store.floor("session-a", NOW), Some(Tier::Weak), "weak floor committed");
    store.commit("session-a", Tier::Strong, NOW);
    assert_eq!(store.floor("session-a", NOW), Some(Tier::Strong), "upgrade committed");
    store.commit("session-a", Tier::Weak, NOW);
    assert_eq!(
        store.floor("session-a", NOW),
        Some(Tier::Strong),
        "a weak commit must not lower a strong floor"
    );
}

#[test]
fn sessions_are_isolated() {
    let mut store = InMemorySessionFloor::new(TTL);
    store.commit("session-a", Tier::Strong, NOW);
    assert_eq!(store.floor("session-b", NOW), None, "other sessions hold no floor");
}

#[test]
fn eviction_drops_the_floor() {
    let mut store = InMemorySessionFloor::new(TTL);
    store.commit("session-a", Tier::Strong, NOW);
    store.commit("session-b", Tier::Strong, NOW);
    store.evict("session-a");
    assert_eq!(store.floor("session-a", NOW), None, "evicted session starts fresh");
    assert_eq!(store.floor("session-b", NOW), Some(Tier::Strong), "the other one stays");
}

#[test]
fn ttl_expires_the_floor() {
    let mut store = InMemorySessionFloor::new(TTL);
    store.commit("session-a", Tier::Strong, NOW);
    assert_eq!(store.floor("session-a", NOW + TTL - 1), Some(Tier::Strong), "not a moment early");
    let later = NOW + TTL;
    assert_eq!(store.floor("session-a", later), None, "expired floor is gone");
    assert_eq!(
        store.floor("session-a", NOW),
        None,
        "the expired entry is removed, not merely hidden"
    );
}

#[test]
fn commit_after_expiry_restarts_from_new_tier() {
    let mut store = InMemorySessionFloor::new(TTL);
    store.commit("session-a", Tier::Strong, NOW);
    let later = NOW + TTL;
    store.commit("session-a", Tier::Weak, later);
    assert_eq!(
        store.floor("session-a", later),
        Some(Tier::Weak),
        "a dead strong floor must not resurrect past its TTL"
    );
}

#[test]
fn commit_refreshes_the_ttl() {
    let mut store = InMemorySessionFloor::new(TTL);
    store.commit("session-a", Tier::Strong, NOW);
    let midway = NOW + TTL / 2;
    store.commit("session-a", Tier::Strong, midway);
    let past_first_deadline = NOW + TTL;
    assert_eq!(
        store.floor("session-a", past_first_deadline),
        Some(Tier::Strong),
        "activity extends the floor's life"
    );
}

#[test]
fn an_entry_from_the_future_is_alive() {
    let entry = FloorEntry { tier: Tier::Weak, touched: 10 };
    assert!(!entry.expired(3, 5), "no time has passed");
    assert!(!entry.expired(14, 5));
    assert!(entry.expired(15, 5));
    assert!(entry.alive(14, 5));
}

#[test]
fn a_full_map_is_swept_of_dead_entries() {
    let mut store = InMemorySessionFloor::new(100);
    for index in 0..8_191_u32 {
        store.commit(&format!("old-{index}"), Tier::Strong, 0);
    }
    store.commit("young", Tier::Strong, 90);
    // The map is at the sweep length now, and all but one entry are dead.
    store.commit("new", Tier::Weak, 100);
    assert_eq!(store.floor("young", 100), Some(Tier::Strong), "a live floor survives the sweep");
    assert_eq!(store.floor("new", 100), Some(Tier::Weak));
    // A swept entry is gone even for an instant at which it would have counted.
    assert_eq!(store.floor("old-17", 50), None, "a dead floor was swept");
}

#[test]
fn below_the_sweep_length_nothing_is_swept() {
    let mut store = InMemorySessionFloor::new(100);
    store.commit("old", Tier::Strong, 0);
    store.commit("new", Tier::Weak, 100);
    assert_eq!(store.floor("old", 50), Some(Tier::Strong));
    store.sweep_if_full(1_000);
    assert_eq!(store.floor("new", 150), Some(Tier::Weak));
}
