//! Session keys and the session memory.

use http::{HeaderMap, HeaderValue};
use serde_json::Value;
use switchyard_route::sticky::session::{
    fingerprint, opening, session_key_from_request, SessionKey,
};
use switchyard_route::sticky::store::SessionStore;
use switchyard_route::tier::Tier;

fn json(text: &str) -> Value {
    serde_json::from_str(text).unwrap()
}

fn named(session: &str) -> HeaderMap<HeaderValue> {
    let mut map = HeaderMap::new();
    map.insert("x-switchyard-session-id", HeaderValue::from_str(session).unwrap());
    map
}

/// The key of a request as text.
fn key(headers: &HeaderMap<HeaderValue>, body: &str) -> String {
    match session_key_from_request(headers, &json(body)) {
        Some(SessionKey::Named(name)) => format!("named {name}"),
        Some(SessionKey::Opening(number)) => format!("opening {number}"),
        None => "none".to_owned(),
    }
}

const HELLO: &str = r#"{"messages":[{"role":"user","content":"hello"}]}"#;

#[test]
fn the_header_names_the_session() {
    assert_eq!(key(&named("abc"), HELLO), "named abc");
    assert_eq!(key(&named("abc"), "[]"), "named abc", "whatever the body");
    let long = "x".repeat(300);
    assert_eq!(key(&named(&long), HELLO), format!("named {}", "x".repeat(256)));
    let empty = key(&named(""), HELLO);
    assert_eq!(empty, key(&HeaderMap::new(), HELLO), "an empty name is none");
}

#[test]
fn follow_ups_keep_the_key() {
    let none = HeaderMap::new();
    let first = key(&none, HELLO);
    assert!(first.starts_with("opening "));
    let follow_up = r#"{"messages":[{"role":"user","content":"hello"},
        {"role":"assistant","content":"hi"},{"role":"user","content":"more"}]}"#;
    assert_eq!(key(&none, follow_up), first);
    let prompted = r#"{"messages":[{"role":"system","content":"be terse"},
        {"role":"user","content":"hello"}]}"#;
    assert_ne!(key(&none, prompted), first, "the system prompt counts");
    let other = r#"{"messages":[{"role":"user","content":"other"}]}"#;
    assert_ne!(key(&none, other), first);
}

#[test]
fn requests_without_an_opening_have_no_session() {
    let none = HeaderMap::new();
    for body in [
        "{}",
        "[]",
        r#"{"messages":"nope"}"#,
        r#"{"messages":[]}"#,
        r#"{"messages":[{"role":"system","content":"be terse"}]}"#,
        r#"{"messages":[{"role":"user"}]}"#,
    ] {
        assert_eq!(key(&none, body), "none", "{body}");
    }
}

#[test]
fn openings_tell_text_from_documents() {
    let text = opening(&json(r#"{"messages":[{"role":"user","content":"[1]"}]}"#)).unwrap();
    assert_eq!(text, b"\xff\x01[1]".to_vec());
    let list = opening(&json(r#"{"messages":[{"role":"user","content":[1]}]}"#)).unwrap();
    assert_eq!(list, b"\xff\x02[1]".to_vec());
    let both = opening(&json(
        r#"{"messages":[{"role":"user","content":"u"},{"role":"system","content":"s"}]}"#,
    ))
    .unwrap();
    assert_eq!(both, b"\x01s\xff\x01u".to_vec());
}

#[test]
fn fingerprints_are_fnv1a() {
    assert_eq!(fingerprint(&Vec::new()), 0xcbf2_9ce4_8422_2325);
    assert_eq!(fingerprint(&b"a".to_vec()), 0xaf63_dc4c_8601_ec8c);
    assert_eq!(fingerprint(&b"foobar".to_vec()), 0x8594_4171_f739_67e8);
}

fn name(text: &str) -> SessionKey {
    SessionKey::Named(text.to_owned())
}

#[test]
fn a_success_is_recalled_for_the_window() {
    let mut store = SessionStore::with_limits(100, 10);
    store.remember(&name("a"), Tier::Weak, 0);
    assert_eq!(store.last_success(&name("a"), 99), Some(Tier::Weak));
    assert_eq!(store.last_success(&name("a"), 198), Some(Tier::Weak), "asking restarts the window");
    assert_eq!(store.last_success(&name("a"), 298), None, "unused for the whole window");
    assert_eq!(store.len(), 0, "and dropped");
    store.remember(&name("a"), Tier::Strong, 300);
    store.remember(&name("a"), Tier::Weak, 301);
    assert_eq!(store.last_success(&name("a"), 302), Some(Tier::Weak), "the last success counts");
    assert_eq!(store.len(), 1);
}

#[test]
fn keys_of_different_kinds_do_not_meet() {
    let mut store = SessionStore::with_defaults();
    store.remember(&name("7"), Tier::Weak, 0);
    store.remember(&SessionKey::Opening(7), Tier::Strong, 0);
    assert_eq!(store.last_success(&name("7"), 1), Some(Tier::Weak));
    assert_eq!(store.last_success(&SessionKey::Opening(7), 1), Some(Tier::Strong));
    assert_eq!(store.last_success(&SessionKey::Opening(8), 1), None);
    assert_eq!(store.len(), 2);
}

#[test]
fn the_least_recently_used_session_makes_room() {
    let mut store = SessionStore::with_limits(1_000, 2);
    store.remember(&name("a"), Tier::Weak, 0);
    store.remember(&name("b"), Tier::Weak, 1);
    assert_eq!(store.last_success(&name("a"), 2), Some(Tier::Weak), "a is used after b");
    store.remember(&name("c"), Tier::Strong, 3);
    assert_eq!(store.len(), 2);
    assert_eq!(store.last_success(&name("b"), 4), None, "b made room");
    assert_eq!(store.last_success(&name("a"), 4), Some(Tier::Weak));
    assert_eq!(store.last_success(&name("c"), 4), Some(Tier::Strong));
    store.remember(&name("a"), Tier::Strong, 5);
    assert_eq!(store.last_success(&name("c"), 6), Some(Tier::Strong), "a known key needs no room");
}

#[test]
fn the_default_memory_is_bounded() {
    let mut store = SessionStore::with_defaults();
    for index in 0..10_001_u64 {
        store.remember(&SessionKey::Opening(index), Tier::Weak, index);
    }
    assert_eq!(store.len(), 10_000);
    assert_eq!(store.last_success(&SessionKey::Opening(0), 10_001), None);
    assert_eq!(store.last_success(&SessionKey::Opening(1), 10_001), Some(Tier::Weak));
    assert_eq!(store.last_success(&SessionKey::Opening(10_000), 1_800_000_009_999), Some(Tier::Weak));
    assert_eq!(store.last_success(&SessionKey::Opening(9_000), 1_800_000_009_000), None);
}
