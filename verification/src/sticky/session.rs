//! The session memory: the tier that the judge last chose for a session.
//!
//! A session is named by a header, or recognised by how its conversation
//! opens. The memory holds real successes of the judge only. An entry that has
//! not been used for the idle window is forgotten, and when the memory is full
//! the least recently used entry makes room.

use vstd::prelude::*;
use vstd::string::*;
use vstd::utf8::*;

use crate::json::{
    elements, json_bytes, json_tree, member, member_of, print_json, text, text_of, JsonTree,
};
use crate::text::{leading, lowered, take_chars, text_eq};
use crate::wire::{
    a_header_is_read_whole, carries_header, header_fields, header_text, header_value_text, HeaderField,
};

verus! {

/// Header that names a session.
pub const SESSION_HEADER: &'static str = "x-switchyard-session-id";

/// How many characters of a session name count.
pub const MAX_KEY_CHARS: usize = 256;

/// How long an unused entry is remembered (30 minutes), in nanoseconds.
pub const IDLE_TTL: u64 = 1_800_000_000_000;

/// How many sessions are remembered.
pub const MAX_SESSIONS: usize = 10_000;

/// What a session is known by.
#[derive(Debug, Clone)]
pub enum SessionKey {
    /// The name in the header.
    Named(String),
    /// A fingerprint of the system prompt and the first user message.
    Opening(u64),
}

/// The content of a [`SessionKey`].
pub enum KeyView {
    Named(Seq<char>),
    Opening(u64),
}

impl View for SessionKey {
    type V = KeyView;

    open spec fn view(&self) -> KeyView {
        match *self {
            SessionKey::Named(name) => KeyView::Named(name@),
            SessionKey::Opening(fingerprint) => KeyView::Opening(fingerprint),
        }
    }
}

/// The content of an optional key.
pub open spec fn key_view(key: Option<SessionKey>) -> Option<KeyView> {
    match key {
        Some(found) => Some(found@),
        None => None,
    }
}

/// The 64-bit FNV-1a fingerprint of a byte sequence.
pub open spec fn fnv1a(bytes: Seq<u8>) -> u64
    decreases bytes.len(),
{
    if bytes.len() == 0 {
        0xcbf2_9ce4_8422_2325
    } else {
        (fnv1a(bytes.drop_last()) ^ (bytes.last() as u64)).wrapping_mul(0x0000_0100_0000_01b3)
    }
}

/// Whether a message is of the role `role`.
pub open spec fn has_role(message: JsonTree, role: Seq<char>) -> bool {
    member_of(message, "role"@) == Some(JsonTree::Text(role))
}

/// The first message of the role `role`.
pub open spec fn first_of(messages: Seq<JsonTree>, role: Seq<char>) -> Option<JsonTree>
    decreases messages.len(),
{
    if messages.len() == 0 {
        None
    } else if has_role(messages[0], role) {
        Some(messages[0])
    } else {
        first_of(messages.drop_first(), role)
    }
}

/// The content of a message as bytes, marked as text or as a document.
pub open spec fn content_bytes(message: JsonTree) -> Option<Seq<u8>> {
    match member_of(message, "content"@) {
        None => None,
        Some(content) => Some(
            match text_of(content) {
                Some(text) => seq![1u8] + encode_utf8(text),
                None => seq![2u8] + json_bytes(content),
            },
        ),
    }
}

/// The content of the first message of the role `role`, where there is one.
pub open spec fn opening_part(messages: Seq<JsonTree>, role: Seq<char>) -> Option<Seq<u8>> {
    match first_of(messages, role) {
        Some(message) => content_bytes(message),
        None => None,
    }
}

/// The bytes that a conversation is recognised by: the system prompt, if there
/// is one, a separator that occurs in no text, and the first user message. The
/// later messages do not count.
pub open spec fn opening_bytes(body: JsonTree) -> Option<Seq<u8>> {
    match member_of(body, "messages"@) {
        Some(JsonTree::List(messages)) => match opening_part(messages, "user"@) {
            Some(user) => Some(
                match opening_part(messages, "system"@) {
                    Some(system) => system + seq![255u8] + user,
                    None => seq![255u8] + user,
                },
            ),
            None => None,
        },
        _ => None,
    }
}

/// The key that a session header and a body give.
pub open spec fn session_key(fields: Map<Seq<char>, Seq<HeaderField>>, body: JsonTree) -> Option<
    KeyView,
> {
    match header_text(fields, SESSION_HEADER@) {
        Some(name) if name.len() > 0 => Some(
            KeyView::Named(leading(name, MAX_KEY_CHARS as nat)),
        ),
        _ => match opening_bytes(body) {
            Some(bytes) => Some(KeyView::Opening(fnv1a(bytes))),
            None => None,
        },
    }
}

/// Fingerprints a byte sequence.
pub fn fingerprint(bytes: &Vec<u8>) -> (r: u64)
    ensures
        r == fnv1a(bytes@),
{
    let mut hash: u64 = 0xcbf2_9ce4_8422_2325;
    let mut i: usize = 0;
    assert(bytes@.take(0) =~= Seq::<u8>::empty());
    while i < bytes.len()
        invariant
            i <= bytes@.len(),
            hash == fnv1a(bytes@.take(i as int)),
        decreases bytes@.len() - i,
    {
        proof {
            let next = bytes@.take(i + 1);
            assert(next.drop_last() =~= bytes@.take(i as int));
            assert(next.last() == bytes@[i as int]);
        }
        hash = (hash ^ (bytes[i] as u64)).wrapping_mul(0x0000_0100_0000_01b3);
        i = i + 1;
    }
    assert(bytes@.take(i as int) =~= bytes@);
    hash
}

fn is_role(message: &serde_json::Value, role: &str) -> (r: bool)
    ensures
        r == has_role(json_tree(*message), role@),
{
    match member(message, "role") {
        Some(found) => match text(found) {
            Some(name) => text_eq(name, role),
            None => false,
        },
        None => false,
    }
}

fn append_bytes(out: &mut Vec<u8>, bytes: &[u8])
    ensures
        final(out)@ == old(out)@ + bytes@,
{
    let mut i: usize = 0;
    while i < bytes.len()
        invariant
            i <= bytes@.len(),
            out@ == old(out)@ + bytes@.take(i as int),
        decreases bytes@.len() - i,
    {
        out.push(bytes[i]);
        proof {
            assert(bytes@.take(i + 1) =~= bytes@.take(i as int).push(bytes@[i as int]));
        }
        i = i + 1;
    }
    assert(bytes@.take(i as int) =~= bytes@);
}

fn message_content(message: &serde_json::Value) -> (r: Option<Vec<u8>>)
    ensures
        match r {
            Some(bytes) => content_bytes(json_tree(*message)) == Some(bytes@),
            None => content_bytes(json_tree(*message)) is None,
        },
{
    let content = match member(message, "content") {
        Some(content) => content,
        None => return None,
    };
    let mut out: Vec<u8> = Vec::new();
    match text(content) {
        Some(found) => {
            out.push(1);
            append_bytes(&mut out, found.as_bytes());
            assert(out@ =~= seq![1u8] + encode_utf8(found@));
        },
        None => {
            out.push(2);
            match print_json(content) {
                Ok(printed) => append_bytes(&mut out, printed.as_slice()),
                Err(_) => return None,
            }
            assert(out@ =~= seq![2u8] + json_bytes(json_tree(*content)));
        },
    }
    Some(out)
}

/// The content of the first message of the role `role`, where there is one.
fn opening_message(messages: &Vec<serde_json::Value>, role: &str) -> (r: Option<Vec<u8>>)
    ensures
        match r {
            Some(bytes) => opening_part(
                messages@.map_values(|item: serde_json::Value| json_tree(item)),
                role@,
            ) == Some(bytes@),
            None => opening_part(
                messages@.map_values(|item: serde_json::Value| json_tree(item)),
                role@,
            ) is None,
        },
{
    let ghost trees = messages@.map_values(|item: serde_json::Value| json_tree(item));
    let mut i: usize = 0;
    assert(trees.skip(0) =~= trees);
    while i < messages.len()
        invariant
            i <= messages@.len(),
            trees == messages@.map_values(|item: serde_json::Value| json_tree(item)),
            first_of(trees, role@) == first_of(trees.skip(i as int), role@),
        decreases messages@.len() - i,
    {
        let ghost rest = trees.skip(i as int);
        assert(rest[0] == json_tree(messages@[i as int]));
        if is_role(&messages[i], role) {
            return message_content(&messages[i]);
        }
        assert(rest.drop_first() =~= trees.skip(i + 1));
        i = i + 1;
    }
    None
}

/// The bytes that a conversation is recognised by, where it has a user message.
pub fn opening(body: &serde_json::Value) -> (r: Option<Vec<u8>>)
    ensures
        match r {
            Some(bytes) => opening_bytes(json_tree(*body)) == Some(bytes@),
            None => opening_bytes(json_tree(*body)) is None,
        },
{
    let found = match member(body, "messages") {
        Some(found) => found,
        None => return None,
    };
    let messages = match elements(found) {
        Some(messages) => messages,
        None => return None,
    };
    let user = match opening_message(messages, "user") {
        Some(user) => user,
        None => return None,
    };
    let mut out = match opening_message(messages, "system") {
        Some(system) => system,
        None => Vec::new(),
    };
    let ghost system = out@;
    out.push(255);
    append_bytes(&mut out, user.as_slice());
    assert(out@ =~= system + seq![255u8] + user@);
    assert(Seq::<u8>::empty() + seq![255u8] + user@ =~= seq![255u8] + user@);
    Some(out)
}

/// The key of a request's session: the name in the header, or else how its
/// conversation opens.
pub fn session_key_from_request(
    headers: &http::HeaderMap<http::HeaderValue>,
    body: &serde_json::Value,
) -> (r: Option<SessionKey>)
    ensures
        key_view(r) == session_key(header_fields(*headers), json_tree(*body)),
{
    proof {
        reveal_strlit("x-switchyard-session-id");
    }
    if let Some(name) = header_value_text(headers, SESSION_HEADER) {
        if name.as_str().unicode_len() > 0 {
            return Some(SessionKey::Named(take_chars(name.as_str(), MAX_KEY_CHARS)));
        }
    }
    match opening(body) {
        Some(bytes) => Some(SessionKey::Opening(fingerprint(&bytes))),
        None => None,
    }
}

proof fn scalars_hold_no_separator(scalar: u32, i: int)
    requires
        0 <= i < encode_scalar(scalar).len(),
    ensures
        encode_scalar(scalar)[i] != 255,
{
    assert((scalar & 0x7F) as u8 != 255) by (bit_vector);
    assert((0xC0u8 | ((scalar >> 6) & 0x1F) as u8) != 255) by (bit_vector);
    assert((0xE0u8 | ((scalar >> 12) & 0x0F) as u8) != 255) by (bit_vector);
    assert((0xF0u8 | ((scalar >> 18) & 0x7) as u8) != 255) by (bit_vector);
    assert((0x80u8 | (scalar & 0x3F) as u8) != 255) by (bit_vector);
    assert((0x80u8 | ((scalar >> 6) & 0x3F) as u8) != 255) by (bit_vector);
    assert((0x80u8 | ((scalar >> 12) & 0x3F) as u8) != 255) by (bit_vector);
}

proof fn texts_hold_no_separator(text: Seq<char>, i: int)
    requires
        0 <= i < encode_utf8(text).len(),
    ensures
        encode_utf8(text)[i] != 255,
    decreases text.len(),
{
    let first = encode_scalar(text[0] as u32);
    if i < first.len() {
        scalars_hold_no_separator(text[0] as u32, i);
    } else {
        texts_hold_no_separator(text.drop_first(), i - first.len());
    }
}

/// Whether the message `at` is the first one of the role `role`.
pub open spec fn is_first(messages: Seq<JsonTree>, role: Seq<char>, at: int) -> bool {
    &&& 0 <= at < messages.len()
    &&& member_of(messages[at], "role"@) == Some(JsonTree::Text(role))
    &&& forall|i: int|
        0 <= i < at ==> member_of(#[trigger] messages[i], "role"@) != Some(JsonTree::Text(role))
}

/// Whether no message is of the role `role`.
pub open spec fn is_absent(messages: Seq<JsonTree>, role: Seq<char>) -> bool {
    forall|i: int|
        0 <= i < messages.len() ==> member_of(#[trigger] messages[i], "role"@) != Some(
            JsonTree::Text(role),
        )
}

/// Whether a conversation opens with the texts `system` and `user`: its first
/// user message says `user`, and its first system prompt says `system`, or
/// there is none.
pub open spec fn opens_with(
    messages: Seq<JsonTree>,
    system: Option<Seq<char>>,
    user: Seq<char>,
) -> bool {
    &&& exists|at: int| #[trigger]
        is_first(messages, "user"@, at) && member_of(messages[at], "content"@) == Some(
            JsonTree::Text(user),
        )
    &&& match system {
        Some(text) => exists|at: int| #[trigger]
            is_first(messages, "system"@, at) && member_of(messages[at], "content"@) == Some(
                JsonTree::Text(text),
            ),
        None => is_absent(messages, "system"@),
    }
}

proof fn first_of_is_the_first(messages: Seq<JsonTree>, role: Seq<char>, at: int)
    ensures
        is_first(messages, role, at) ==> first_of(messages, role) == Some(messages[at]),
        is_absent(messages, role) ==> first_of(messages, role) is None,
    decreases messages.len(),
{
    if messages.len() > 0 {
        let rest = messages.drop_first();
        if is_first(messages, role, at) && at > 0 {
            assert(member_of(messages[0], "role"@) != Some(JsonTree::Text(role)));
            assert forall|i: int| 0 <= i < at - 1 implies member_of(#[trigger] rest[i], "role"@)
                != Some(JsonTree::Text(role)) by {
                assert(member_of(messages[i + 1], "role"@) != Some(JsonTree::Text(role)));
            }
            assert(is_first(rest, role, at - 1));
            first_of_is_the_first(rest, role, at - 1);
        } else if is_absent(messages, role) {
            assert(member_of(messages[0], "role"@) != Some(JsonTree::Text(role)));
            assert forall|i: int| 0 <= i < rest.len() implies member_of(
                #[trigger] rest[i],
                "role"@,
            ) != Some(JsonTree::Text(role)) by {
                assert(member_of(messages[i + 1], "role"@) != Some(JsonTree::Text(role)));
            }
            first_of_is_the_first(rest, role, at);
        }
    }
}

spec fn system_part(system: Option<Seq<char>>) -> Seq<u8> {
    match system {
        Some(prompt) => seq![1u8] + encode_utf8(prompt),
        None => Seq::empty(),
    }
}

proof fn opening_is_made_of_both_texts(
    body: JsonTree,
    messages: Seq<JsonTree>,
    system: Option<Seq<char>>,
    user: Seq<char>,
)
    requires
        member_of(body, "messages"@) == Some(JsonTree::List(messages)),
        opens_with(messages, system, user),
    ensures
        opening_bytes(body) == Some(
            system_part(system) + seq![255u8] + (seq![1u8] + encode_utf8(user)),
        ),
{
    let at = choose|at: int| #[trigger]
        is_first(messages, "user"@, at) && member_of(messages[at], "content"@) == Some(
            JsonTree::Text(user),
        );
    first_of_is_the_first(messages, "user"@, at);
    match system {
        Some(text) => {
            let k = choose|k: int| #[trigger]
                is_first(messages, "system"@, k) && member_of(messages[k], "content"@) == Some(
                    JsonTree::Text(text),
                );
            first_of_is_the_first(messages, "system"@, k);
        },
        None => {
            first_of_is_the_first(messages, "system"@, 0);
            assert(Seq::<u8>::empty() + seq![255u8] + (seq![1u8] + encode_utf8(user)) =~= seq![255u8]
                + (seq![1u8] + encode_utf8(user)));
        },
    }
}

proof fn separated_parts_are_found_again(
    one: Seq<u8>,
    one_rest: Seq<u8>,
    other: Seq<u8>,
    other_rest: Seq<u8>,
)
    requires
        one + seq![255u8] + one_rest == other + seq![255u8] + other_rest,
        forall|i: int| 0 <= i < one.len() ==> #[trigger] one[i] != 255,
        forall|i: int| 0 <= i < other.len() ==> #[trigger] other[i] != 255,
    ensures
        one == other,
        one_rest == other_rest,
{
    let whole = one + seq![255u8] + one_rest;
    let same = other + seq![255u8] + other_rest;
    assert(whole[one.len() as int] == 255);
    assert(same[other.len() as int] == 255);
    if one.len() < other.len() {
        assert(same[one.len() as int] == other[one.len() as int]);
    }
    if other.len() < one.len() {
        assert(whole[other.len() as int] == one[other.len() as int]);
    }
    assert(one =~= whole.subrange(0, one.len() as int));
    assert(other =~= same.subrange(0, other.len() as int));
    assert(one_rest =~= whole.subrange(one.len() as int + 1, whole.len() as int));
    assert(other_rest =~= same.subrange(other.len() as int + 1, same.len() as int));
}

proof fn equal_encodings_are_of_one_text(one: Seq<char>, other: Seq<char>)
    requires
        seq![1u8] + encode_utf8(one) == seq![1u8] + encode_utf8(other),
    ensures
        one == other,
{
    let a = seq![1u8] + encode_utf8(one);
    let b = seq![1u8] + encode_utf8(other);
    assert(encode_utf8(one) =~= a.subrange(1, a.len() as int));
    assert(encode_utf8(other) =~= b.subrange(1, b.len() as int));
    encode_utf8_decode_utf8(one);
    encode_utf8_decode_utf8(other);
}

proof fn system_parts_hold_no_separator(system: Option<Seq<char>>, i: int)
    requires
        0 <= i < system_part(system).len(),
    ensures
        system_part(system)[i] != 255,
{
    if i > 0 {
        texts_hold_no_separator(system->Some_0, i - 1);
    }
}

/// The bytes that a conversation is recognised by determine how it opens, and
/// the other way round: two conversations that open with texts give the same
/// bytes exactly where their first user messages are the same text, from the
/// first character to the last, and their system prompts are too.
pub proof fn the_opening_is_recognised_whole(
    one: JsonTree,
    messages: Seq<JsonTree>,
    system: Option<Seq<char>>,
    user: Seq<char>,
    other: JsonTree,
    other_messages: Seq<JsonTree>,
    other_system: Option<Seq<char>>,
    other_user: Seq<char>,
)
    requires
        member_of(one, "messages"@) == Some(JsonTree::List(messages)),
        opens_with(messages, system, user),
        member_of(other, "messages"@) == Some(JsonTree::List(other_messages)),
        opens_with(other_messages, other_system, other_user),
    ensures
        opening_bytes(one) is Some,
        opening_bytes(other) is Some,
        opening_bytes(one) == opening_bytes(other) <==> user == other_user && system
            == other_system,
{
    opening_is_made_of_both_texts(one, messages, system, user);
    opening_is_made_of_both_texts(other, other_messages, other_system, other_user);
    if opening_bytes(one) == opening_bytes(other) {
        let a = system_part(system);
        let b = system_part(other_system);
        assert forall|i: int| 0 <= i < a.len() implies #[trigger] a[i] != 255 by {
            system_parts_hold_no_separator(system, i);
        }
        assert forall|i: int| 0 <= i < b.len() implies #[trigger] b[i] != 255 by {
            system_parts_hold_no_separator(other_system, i);
        }
        separated_parts_are_found_again(
            a,
            seq![1u8] + encode_utf8(user),
            b,
            seq![1u8] + encode_utf8(other_user),
        );
        equal_encodings_are_of_one_text(user, other_user);
        match system {
            Some(text) => {
                assert(a.len() > 0);
                assert(other_system is Some);
                equal_encodings_are_of_one_text(text, other_system->Some_0);
            },
            None => {
                assert(b.len() == 0);
                assert(other_system is None);
            },
        }
    }
}

/// Under one system prompt, of whatever shape, two conversations whose first
/// user messages are different texts give different bytes; and a text is told
/// from a message of another shape.
pub proof fn the_first_user_message_counts_whole(
    one: JsonTree,
    messages: Seq<JsonTree>,
    at: int,
    user: Seq<char>,
    other: JsonTree,
    other_messages: Seq<JsonTree>,
    other_at: int,
    other_content: JsonTree,
    system: JsonTree,
    k: int,
    other_k: int,
)
    requires
        member_of(one, "messages"@) == Some(JsonTree::List(messages)),
        member_of(other, "messages"@) == Some(JsonTree::List(other_messages)),
        is_first(messages, "user"@, at),
        is_first(other_messages, "user"@, other_at),
        member_of(messages[at], "content"@) == Some(JsonTree::Text(user)),
        member_of(other_messages[other_at], "content"@) == Some(other_content),
        is_first(messages, "system"@, k),
        is_first(other_messages, "system"@, other_k),
        member_of(messages[k], "content"@) == Some(system),
        member_of(other_messages[other_k], "content"@) == Some(system),
    ensures
        opening_bytes(one) == opening_bytes(other) ==> other_content == JsonTree::Text(user),
{
    first_of_is_the_first(messages, "user"@, at);
    first_of_is_the_first(other_messages, "user"@, other_at);
    first_of_is_the_first(messages, "system"@, k);
    first_of_is_the_first(other_messages, "system"@, other_k);
    if opening_bytes(one) == opening_bytes(other) {
        let prompt = opening_part(messages, "system"@)->Some_0;
        let a = prompt + seq![255u8] + opening_part(messages, "user"@)->Some_0;
        let b = prompt + seq![255u8] + opening_part(other_messages, "user"@)->Some_0;
        assert(opening_part(messages, "user"@)->Some_0 =~= a.subrange(
            prompt.len() as int + 1,
            a.len() as int,
        ));
        assert(opening_part(other_messages, "user"@)->Some_0 =~= b.subrange(
            prompt.len() as int + 1,
            b.len() as int,
        ));
        let left = opening_part(messages, "user"@)->Some_0;
        assert(left[0] == 1);
        match text_of(other_content) {
            Some(text) => {
                equal_encodings_are_of_one_text(user, text);
            },
            None => {
                assert((seq![2u8] + json_bytes(other_content))[0] == 2);
            },
        }
    }
}

/// A conversation is recognised exactly where a first user message is there and
/// has content: without messages, without one of the user's, or where that one
/// says nothing, there is nothing to recognise it by.
pub proof fn conversations_need_a_user_message(body: JsonTree, messages: Seq<JsonTree>, at: int)
    ensures
        !(member_of(body, "messages"@) matches Some(JsonTree::List(_))) ==> opening_bytes(
            body,
        ) is None,
        member_of(body, "messages"@) == Some(JsonTree::List(messages)) && is_absent(
            messages,
            "user"@,
        ) ==> opening_bytes(body) is None,
        member_of(body, "messages"@) == Some(JsonTree::List(messages)) && is_first(
            messages,
            "user"@,
            at,
        ) ==> (opening_bytes(body) is Some <==> member_of(messages[at], "content"@) is Some),
{
    first_of_is_the_first(messages, "user"@, at);
}

proof fn the_multiplier_can_be_undone(x: u64, y: u64)
    requires
        x.wrapping_mul(0x0000_0100_0000_01b3) == y.wrapping_mul(0x0000_0100_0000_01b3),
    ensures
        x == y,
{
    let p: int = 1_099_511_628_211;
    let m: int = 18_446_744_073_709_551_616;
    let inverse: int = 14_886_173_955_864_302_971;
    let k: int = 887_285_111_055;
    let a: int = x as int;
    let b: int = y as int;
    assert(p * inverse == 1 + k * m) by (nonlinear_arith)
        requires
            p == 1_099_511_628_211,
            m == 18_446_744_073_709_551_616,
            inverse == 14_886_173_955_864_302_971,
            k == 887_285_111_055,
    ;
    assert((a * p) % m == (b * p) % m);
    let qa = (a * p) / m;
    let qb = (b * p) / m;
    assert(a * p == m * qa + (a * p) % m) by (nonlinear_arith)
        requires
            m > 0,
            qa == (a * p) / m,
    ;
    assert(b * p == m * qb + (b * p) % m) by (nonlinear_arith)
        requires
            m > 0,
            qb == (b * p) / m,
    ;
    let t = (qa - qb) * inverse - k * (a - b);
    assert(a - b == m * t) by (nonlinear_arith)
        requires
            a * p - b * p == m * qa - m * qb,
            p * inverse == 1 + k * m,
            t == (qa - qb) * inverse - k * (a - b),
    {
        assert((a - b) * p == m * (qa - qb));
        assert(((a - b) * p) * inverse == (m * (qa - qb)) * inverse);
        assert(((a - b) * p) * inverse == (a - b) * (p * inverse));
        assert((a - b) * (1 + k * m) == (a - b) + m * (k * (a - b)));
        assert((m * (qa - qb)) * inverse == m * ((qa - qb) * inverse));
    }
    assert(t == 0) by (nonlinear_arith)
        requires
            -m < a - b < m,
            a - b == m * t,
            m > 0,
    ;
}

/// Fingerprints go by every byte: one more byte, the same one, keeps apart what
/// was apart, and two sequences that differ in one byte, wherever it stands,
/// have different fingerprints.
pub proof fn every_byte_counts_in_a_fingerprint(one: Seq<u8>, other: Seq<u8>, at: int)
    requires
        one.len() == other.len(),
        0 <= at < one.len(),
        one[at] != other[at],
        forall|i: int| 0 <= i < one.len() && i != at ==> one[i] == #[trigger] other[i],
    ensures
        fnv1a(one) != fnv1a(other),
    decreases one.len(),
{
    let a = fnv1a(one.drop_last());
    let b = fnv1a(other.drop_last());
    let x = one.last();
    let y = other.last();
    if at == one.len() - 1 {
        assert(one.drop_last() =~= other.drop_last());
        assert((a ^ (x as u64)) != (a ^ (y as u64))) by (bit_vector)
            requires
                x != y,
        ;
        if (a ^ (x as u64)).wrapping_mul(0x0000_0100_0000_01b3) == (a ^ (
        y as u64)).wrapping_mul(0x0000_0100_0000_01b3) {
            the_multiplier_can_be_undone(a ^ (x as u64), a ^ (y as u64));
        }
    } else {
        assert(x == y);
        every_byte_counts_in_a_fingerprint(one.drop_last(), other.drop_last(), at);
        assert((a ^ (x as u64)) != (b ^ (x as u64))) by (bit_vector)
            requires
                a != b,
        ;
        if (a ^ (x as u64)).wrapping_mul(0x0000_0100_0000_01b3) == (b ^ (
        x as u64)).wrapping_mul(0x0000_0100_0000_01b3) {
            the_multiplier_can_be_undone(a ^ (x as u64), b ^ (x as u64));
        }
    }
}

/// A header that is not empty names the session by its first 256 characters,
/// whatever the conversation: two such names of up to 256 characters are one
/// session exactly where they are the same.
pub proof fn named_sessions_go_by_the_header(
    fields: Map<Seq<char>, Seq<HeaderField>>,
    body: JsonTree,
    name: Seq<char>,
    other_fields: Map<Seq<char>, Seq<HeaderField>>,
    other_body: JsonTree,
    other_name: Seq<char>,
)
    requires
        carries_header(fields, "x-switchyard-session-id"@, name),
        carries_header(other_fields, "x-switchyard-session-id"@, other_name),
        name.len() > 0,
        other_name.len() > 0,
    ensures
        session_key(fields, body) is Some,
        session_key(fields, body)->Some_0 is Named,
        name.len() <= 256 ==> session_key(fields, body) == Some(KeyView::Named(name)),
        name.len() > 256 ==> session_key(fields, body) == Some(KeyView::Named(name.take(256))),
        name.len() <= 256 && other_name.len() <= 256 ==> (session_key(fields, body) == session_key(
            other_fields,
            other_body,
        ) <==> name == other_name),
        name == other_name ==> session_key(fields, body) == session_key(other_fields, other_body),
{
    a_header_is_read_whole(fields, "x-switchyard-session-id"@, name);
    a_header_is_read_whole(other_fields, "x-switchyard-session-id"@, other_name);
}

/// Whether no session is named by the header: it is not there, holds nothing, or
/// is not visible ASCII.
pub open spec fn is_unnamed(fields: Map<Seq<char>, Seq<HeaderField>>) -> bool {
    let key = lowered("x-switchyard-session-id"@);
    ||| !fields.contains_key(key)
    ||| fields[key][0].bytes.len() == 0
    ||| exists|i: int|
        0 <= i < fields[key][0].bytes.len() && !(32 <= (#[trigger] fields[key][0].bytes[i]) <= 126
            || fields[key][0].bytes[i] == 9)
}

/// Without the header the conversation names the session: equal openings are
/// one session, openings that differ in one byte are two, a conversation is
/// never taken for a header's name, and where there is nothing to recognise a
/// conversation by there is no session.
pub proof fn unnamed_sessions_go_by_the_opening(
    fields: Map<Seq<char>, Seq<HeaderField>>,
    body: JsonTree,
    other_fields: Map<Seq<char>, Seq<HeaderField>>,
    other_body: JsonTree,
    at: int,
)
    requires
        is_unnamed(fields),
        is_unnamed(other_fields),
    ensures
        session_key(fields, body) is Some <==> opening_bytes(body) is Some,
        session_key(fields, body) is Some ==> session_key(fields, body)->Some_0 is Opening,
        opening_bytes(body) == opening_bytes(other_body) ==> session_key(fields, body)
            == session_key(other_fields, other_body),
        opening_bytes(body) is Some && opening_bytes(other_body) is Some && ({
            let one = opening_bytes(body)->Some_0;
            let other = opening_bytes(other_body)->Some_0;
            &&& one.len() == other.len()
            &&& 0 <= at < one.len()
            &&& one[at] != other[at]
            &&& forall|i: int| 0 <= i < one.len() && i != at ==> one[i] == #[trigger] other[i]
        }) ==> session_key(fields, body) != session_key(other_fields, other_body),
{
    a_header_is_read_whole(fields, "x-switchyard-session-id"@, Seq::empty());
    a_header_is_read_whole(other_fields, "x-switchyard-session-id"@, Seq::empty());
    if opening_bytes(body) is Some && opening_bytes(other_body) is Some {
        let one = opening_bytes(body)->Some_0;
        let other = opening_bytes(other_body)->Some_0;
        if one.len() == other.len() && 0 <= at < one.len() && one[at] != other[at] && (forall|
            i: int,
        |
            0 <= i < one.len() && i != at ==> one[i] == #[trigger] other[i]) {
            every_byte_counts_in_a_fingerprint(one, other, at);
        }
    }
}

/// The keys that requests get, the openings that are read and the fingerprints
/// that are taken are those spoken of here.
pub proof fn keys_are_read_off_requests(
    headers: http::HeaderMap<http::HeaderValue>,
    body: serde_json::Value,
    r: Option<SessionKey>,
    opened: Option<Vec<u8>>,
    bytes: Vec<u8>,
    hash: u64,
)
    requires
        call_ensures(session_key_from_request, (&headers, &body), r),
        call_ensures(opening, (&body,), opened),
        call_ensures(fingerprint, (&bytes,), hash),
    ensures
        key_view(r) == session_key(header_fields(headers), json_tree(body)),
        r matches Some(SessionKey::Named(name)) ==> session_key(
            header_fields(headers),
            json_tree(body),
        ) == Some(KeyView::Named(name@)),
        r matches Some(SessionKey::Opening(key)) ==> session_key(
            header_fields(headers),
            json_tree(body),
        ) == Some(KeyView::Opening(key)),
        r is None ==> session_key(header_fields(headers), json_tree(body)) is None,
        opened is Some == opening_bytes(json_tree(body)) is Some,
        opened is Some ==> opening_bytes(json_tree(body))->Some_0 == opened->Some_0@,
        hash == fnv1a(bytes@),
{
}

/// Whether two contents count as one: the same text, or two documents that are
/// printed alike.
pub open spec fn counts_as(one: JsonTree, other: JsonTree) -> bool {
    (one is Text && one == other) || (!(one is Text) && !(other is Text) && json_bytes(one)
        == json_bytes(other))
}

proof fn contents_count_by_their_bytes(one: JsonTree, other: JsonTree)
    ensures
        ({
            let a = match text_of(one) {
                Some(said) => seq![1u8] + encode_utf8(said),
                None => seq![2u8] + json_bytes(one),
            };
            let b = match text_of(other) {
                Some(said) => seq![1u8] + encode_utf8(said),
                None => seq![2u8] + json_bytes(other),
            };
            a == b <==> counts_as(one, other)
        }),
{
    let a = match text_of(one) {
        Some(said) => seq![1u8] + encode_utf8(said),
        None => seq![2u8] + json_bytes(one),
    };
    let b = match text_of(other) {
        Some(said) => seq![1u8] + encode_utf8(said),
        None => seq![2u8] + json_bytes(other),
    };
    if a == b {
        assert(a[0] == b[0]);
        if one is Text {
            assert(other is Text);
            equal_encodings_are_of_one_text(one->Text_0, other->Text_0);
        } else {
            assert(!(other is Text));
            assert(json_bytes(one) =~= a.subrange(1, a.len() as int));
            assert(json_bytes(other) =~= b.subrange(1, b.len() as int));
        }
    }
}

/// Contents of any shape count whole: conversations with one first user message
/// give the same bytes exactly where their system prompts count as one, and
/// those with one system prompt, or with none, exactly where their first user
/// messages do.
pub proof fn contents_of_any_shape_count_whole(
    one: JsonTree,
    messages: Seq<JsonTree>,
    at: int,
    user: JsonTree,
    k: int,
    system: JsonTree,
    other: JsonTree,
    other_messages: Seq<JsonTree>,
    other_at: int,
    other_user: JsonTree,
    other_k: int,
    other_system: JsonTree,
)
    requires
        member_of(one, "messages"@) == Some(JsonTree::List(messages)),
        member_of(other, "messages"@) == Some(JsonTree::List(other_messages)),
        is_first(messages, "user"@, at),
        is_first(other_messages, "user"@, other_at),
        member_of(messages[at], "content"@) == Some(user),
        member_of(other_messages[other_at], "content"@) == Some(other_user),
    ensures
        is_absent(messages, "system"@) && is_absent(other_messages, "system"@) ==> (opening_bytes(
            one,
        ) == opening_bytes(other) <==> counts_as(user, other_user)),
        is_first(messages, "system"@, k) && is_first(other_messages, "system"@, other_k)
            && member_of(messages[k], "content"@) == Some(system) && member_of(
            other_messages[other_k],
            "content"@,
        ) == Some(other_system) ==> {
            &&& system == other_system ==> (opening_bytes(one) == opening_bytes(other)
                <==> counts_as(user, other_user))
            &&& user == other_user ==> (opening_bytes(one) == opening_bytes(other) <==> counts_as(
                system,
                other_system,
            ))
        },
{
    first_of_is_the_first(messages, "user"@, at);
    first_of_is_the_first(other_messages, "user"@, other_at);
    first_of_is_the_first(messages, "system"@, k);
    first_of_is_the_first(other_messages, "system"@, other_k);
    contents_count_by_their_bytes(user, other_user);
    contents_count_by_their_bytes(system, other_system);
    let u = opening_part(messages, "user"@)->Some_0;
    let v = opening_part(other_messages, "user"@)->Some_0;
    let none = seq![255u8] + u;
    let other_none = seq![255u8] + v;
    assert(u =~= none.subrange(1, none.len() as int));
    assert(v =~= other_none.subrange(1, other_none.len() as int));
    if is_first(messages, "system"@, k) && is_first(other_messages, "system"@, other_k)
        && member_of(messages[k], "content"@) == Some(system) && member_of(
        other_messages[other_k],
        "content"@,
    ) == Some(other_system) {
        let p = opening_part(messages, "system"@)->Some_0;
        let q = opening_part(other_messages, "system"@)->Some_0;
        let a = p + seq![255u8] + u;
        let b = q + seq![255u8] + v;
        assert(u =~= a.subrange(p.len() as int + 1, a.len() as int));
        assert(v =~= b.subrange(q.len() as int + 1, b.len() as int));
        assert(p =~= a.subrange(0, p.len() as int));
        assert(q =~= b.subrange(0, q.len() as int));
    }
}

} // verus!
