//! JSON documents as `serde_json` holds them, and what a routing pass reads
//! of and writes into one.

use vstd::prelude::*;
use vstd::utf8::*;

verus! {

/// `serde_json::Value`: a parsed JSON document.
#[verifier::external_type_specification]
#[verifier::external_body]
pub struct ExJsonValue(serde_json::Value);

/// The mathematical content of a JSON document. A number is held by the
/// decimal text that it is printed with.
pub enum JsonTree {
    Null,
    Bool(bool),
    Number(Seq<char>),
    Text(Seq<char>),
    List(Seq<JsonTree>),
    Object(Map<Seq<char>, JsonTree>),
}

/// What a `serde_json::Value` holds.
pub uninterp spec fn json_tree(value: serde_json::Value) -> JsonTree;

/// What `serde_json::from_slice` makes of these bytes: the document, or the
/// text of the error.
pub uninterp spec fn parsed_json(bytes: Seq<u8>) -> Result<JsonTree, Seq<char>>;

/// The bytes that `serde_json::to_vec` prints a document as.
pub uninterp spec fn json_bytes(tree: JsonTree) -> Seq<u8>;

/// How many containers deep a document may nest and still be parsed.
pub const MAX_DEPTH: u8 = 127;

/// A member name that `serde_json` keeps for itself: an object that starts with
/// it is not parsed as an object.
pub const RESERVED_KEY: &'static str = "$serde_json::private::RawValue";

/// Whether `a` comes before `b` in the order of member names: by the first
/// character in which they differ, and a prefix first.
pub open spec fn precedes(a: Seq<char>, b: Seq<char>) -> bool
    decreases a.len(),
{
    if b.len() == 0 {
        false
    } else if a.len() == 0 {
        true
    } else if a[0] == b[0] {
        precedes(a.drop_first(), b.drop_first())
    } else {
        a[0] < b[0]
    }
}

/// Whether an object, whose members are printed in the order of their names,
/// is printed with the reserved name first.
pub open spec fn starts_reserved(members: Map<Seq<char>, JsonTree>) -> bool {
    &&& members.contains_key(RESERVED_KEY@)
    &&& forall|key: Seq<char>| #[trigger]
        members.contains_key(key) ==> !precedes(key, RESERVED_KEY@)
}

/// Whether lists and objects nest at most `limit` deep in `tree`, and no object
/// is printed with the reserved name first.
pub open spec fn plain(tree: JsonTree, limit: nat) -> bool
    decreases limit,
{
    match tree {
        JsonTree::List(items) => limit > 0 && forall|i: int|
            0 <= i < items.len() ==> plain(#[trigger] items[i], (limit - 1) as nat),
        JsonTree::Object(members) => limit > 0 && !starts_reserved(members) && forall|
            key: Seq<char>,
        | #[trigger]
            members.contains_key(key) ==> plain(members[key], (limit - 1) as nat),
        _ => true,
    }
}

/// Whether a document that is printed can be parsed again.
pub open spec fn printable(tree: JsonTree) -> bool {
    plain(tree, MAX_DEPTH as nat)
}

/// `tree` with its member `key` set to the text `text`; `tree` itself when it
/// is not an object.
pub open spec fn with_text(tree: JsonTree, key: Seq<char>, text: Seq<char>) -> JsonTree {
    match tree {
        JsonTree::Object(members) => JsonTree::Object(members.insert(key, JsonTree::Text(text))),
        _ => tree,
    }
}

/// Whether parsing `bytes` gives the document `tree`.
pub open spec fn reads_back(bytes: Seq<u8>, tree: JsonTree) -> bool {
    parsed_json(bytes) == Ok::<JsonTree, Seq<char>>(tree)
}

/// Whether `part` stands somewhere in `bytes`.
pub open spec fn holds(bytes: Seq<u8>, part: Seq<u8>) -> bool {
    exists|at: int|
        0 <= at && at + part.len() <= bytes.len() && #[trigger] bytes.subrange(
            at,
            at + part.len(),
        ) == part
}

/// Whether the reserved name may be written somewhere in `bytes`: as it is, or
/// with one of its characters escaped, which starts with `\u00`.
pub open spec fn may_name_reserved(bytes: Seq<u8>) -> bool {
    ||| holds(bytes, encode_utf8(RESERVED_KEY@))
    ||| holds(bytes, seq![0x5cu8, 0x75u8, 0x30u8, 0x30u8])
}

/// Whether a parsed document, if it is one, can be printed and parsed again.
pub open spec fn gives_printable(r: Result<serde_json::Value, String>) -> bool {
    r matches Ok(value) ==> printable(json_tree(value))
}

/// Whether `bytes` give back `tree` with its member `key` set to `text`, as far
/// as that document, or the one that it was made of, can be parsed again.
pub open spec fn carries(
    bytes: Seq<u8>,
    tree: JsonTree,
    key: Seq<char>,
    text: Seq<char>,
) -> bool {
    printable(tree) || printable(with_text(tree, key, text)) ==> reads_back(
        bytes,
        with_text(tree, key, text),
    )
}

/// Whether `tree` is an object with a member `key`.
pub open spec fn has_member(tree: JsonTree, key: Seq<char>) -> bool {
    tree is Object && tree->Object_0.contains_key(key)
}

/// The member `key` of an object, if it has one.
pub open spec fn member_of(tree: JsonTree, key: Seq<char>) -> Option<JsonTree> {
    if has_member(tree, key) {
        Some(tree->Object_0[key])
    } else {
        None
    }
}

/// The text that a JSON string holds, if `tree` is one.
pub open spec fn text_of(tree: JsonTree) -> Option<Seq<char>> {
    match tree {
        JsonTree::Text(text) => Some(text),
        _ => None,
    }
}

/// `serde_json::from_slice::<serde_json::Value>`: parses one JSON document.
/// The outcome is named. A document in which the reserved name is not written,
/// neither as it is nor with a `\u00` escape, nests no deeper than the parser's
/// recursion limit lets it, and has no member of that name. (Where the name is
/// written, the parser may take a string for a document of its own, which starts
/// the limit afresh.)
#[verifier::external_body]
pub(crate) fn parse_json(bytes: &[u8]) -> (r: Result<serde_json::Value, String>)
    ensures
        match r {
            Ok(value) => parsed_json(bytes@) == Ok::<JsonTree, Seq<char>>(json_tree(value)),
            Err(message) => parsed_json(bytes@) == Err::<JsonTree, Seq<char>>(message@),
        },
        !may_name_reserved(bytes@) ==> gives_printable(r),
{
    serde_json::from_slice::<serde_json::Value>(bytes).map_err(|error| error.to_string())
}

/// `serde_json::to_vec` on a `serde_json::Value`: prints the document. This
/// cannot fail for a `Value`, whose keys are strings and whose numbers are
/// finite. Members are printed in key order, so the bytes are a function of
/// the content. Parsing them gives the document back, unless it nests deeper
/// than the parser's recursion limit or an object in it starts with the member
/// name that the parser keeps for itself. (`float_roundtrip` is switched on, so
/// that holds of fractional numbers too.)
#[verifier::external_body]
pub(crate) fn print_json(value: &serde_json::Value) -> (r: Result<Vec<u8>, String>)
    ensures
        r is Ok,
        r->Ok_0@ == json_bytes(json_tree(*value)),
        printable(json_tree(*value)) ==> reads_back(r->Ok_0@, json_tree(*value)),
{
    serde_json::to_vec(value).map_err(|error| error.to_string())
}

/// `serde_json::Value::is_object`: whether the document is an object.
#[verifier::external_body]
pub(crate) fn is_object(value: &serde_json::Value) -> (r: bool)
    ensures
        r == (json_tree(*value) is Object),
{
    value.is_object()
}

/// `serde_json::Value::get` with a string index: the object's member of that
/// name, and nothing for a missing member or a document that is no object.
#[verifier::external_body]
pub(crate) fn member<'a>(value: &'a serde_json::Value, key: &str) -> (r: Option<&'a serde_json::Value>)
    ensures
        match r {
            Some(found) => member_of(json_tree(*value), key@) == Some(json_tree(*found)),
            None => member_of(json_tree(*value), key@) is None,
        },
{
    value.get(key)
}

/// `serde_json::Value::as_array`: the elements of a JSON list.
#[verifier::external_body]
pub(crate) fn elements(value: &serde_json::Value) -> (r: Option<&Vec<serde_json::Value>>)
    ensures
        match r {
            Some(items) => json_tree(*value) == JsonTree::List(
                items@.map_values(|item: serde_json::Value| json_tree(item)),
            ),
            None => !(json_tree(*value) is List),
        },
{
    value.as_array()
}

/// `serde_json::Value::as_str`: the text of a JSON string.
#[verifier::external_body]
pub(crate) fn text(value: &serde_json::Value) -> (r: Option<&str>)
    ensures
        match r {
            Some(found) => json_tree(*value) == JsonTree::Text(found@),
            None => !(json_tree(*value) is Text),
        },
{
    value.as_str()
}

/// `serde_json::Map::insert` on an object, with a `serde_json::Value::String`:
/// the member is set, whether it was there or not, and the others stay.
#[verifier::external_body]
pub(crate) fn set_text(value: &mut serde_json::Value, key: &str, text: &str)
    requires
        json_tree(*old(value)) is Object,
    ensures
        json_tree(*final(value)) == with_text(json_tree(*old(value)), key@, text@),
{
    if let Some(object) = value.as_object_mut() {
        object.insert(key.to_owned(), serde_json::Value::String(text.to_owned()));
    }
}

/// `serde_json::Value::clone`: a document with the same content.
#[verifier::external_body]
pub(crate) fn copy_json(value: &serde_json::Value) -> (r: serde_json::Value)
    ensures
        json_tree(r) == json_tree(*value),
{
    value.clone()
}

/// Setting a text member of an object leaves the document one that can be
/// parsed again, as long as the member's name is not the reserved one.
pub proof fn with_text_stays_printable(tree: JsonTree, key: Seq<char>, text: Seq<char>)
    requires
        printable(tree),
        key != RESERVED_KEY@,
    ensures
        printable(with_text(tree, key, text)),
{
    if let JsonTree::Object(members) = tree {
        let changed = members.insert(key, JsonTree::Text(text));
        assert(!starts_reserved(changed)) by {
            if starts_reserved(changed) {
                assert forall|k: Seq<char>| #[trigger] members.contains_key(k) implies !precedes(
                    k,
                    RESERVED_KEY@,
                ) by {
                    assert(changed.contains_key(k));
                }
            }
        }
        assert forall|k: Seq<char>| #[trigger] changed.contains_key(k) implies plain(
            changed[k],
            (MAX_DEPTH - 1) as nat,
        ) by {
            reveal_with_fuel(plain, 2);
            if k != key {
                assert(members.contains_key(k));
            }
        }
    }
}

/// Setting a member sets that member to the text and leaves every other member
/// as it is; a document that is no object stays as it is and has no members.
pub proof fn setting_a_member_leaves_the_others(
    tree: JsonTree,
    key: Seq<char>,
    text: Seq<char>,
    other: Seq<char>,
)
    ensures
        tree is Object ==> with_text(tree, key, text) is Object && member_of(
            with_text(tree, key, text),
            key,
        ) == Some(JsonTree::Text(text)),
        other != key ==> member_of(with_text(tree, key, text), other) == member_of(tree, other),
        tree is Object && other != key ==> with_text(tree, key, text)->Object_0.contains_key(other)
            == tree->Object_0.contains_key(other),
        !(tree is Object) ==> with_text(tree, key, text) == tree && member_of(tree, key) is None,
        tree matches JsonTree::Object(members) ==> (members.contains_key(key) ==> member_of(
            tree,
            key,
        ) == Some(members[key])) && (!members.contains_key(key) ==> member_of(tree, key) is None),
        has_member(tree, key) <==> member_of(tree, key) is Some,
        text_of(JsonTree::Text(text)) == Some(text),
        !(tree is Text) ==> text_of(tree) is None,
{
}

/// A list of documents that each can be parsed again below one more level, and
/// an object of such members without the reserved name, can be parsed again;
/// so can everything that is neither.
pub proof fn shallow_documents_are_printable(
    items: Seq<JsonTree>,
    members: Map<Seq<char>, JsonTree>,
    leaf: JsonTree,
    limit: nat,
)
    requires
        limit < 127,
        forall|i: int| 0 <= i < items.len() ==> plain(#[trigger] items[i], limit),
        forall|key: Seq<char>| #[trigger] members.contains_key(key) ==> plain(members[key], limit),
        !members.contains_key("$serde_json::private::RawValue"@),
        !(leaf is List) && !(leaf is Object),
    ensures
        plain(JsonTree::List(items), limit + 1),
        plain(JsonTree::Object(members), limit + 1),
        plain(leaf, limit),
        printable(JsonTree::List(items)),
        printable(JsonTree::Object(members)),
        printable(leaf),
{
    reveal_with_fuel(plain, 2);
    plain_loosens(JsonTree::List(items), limit + 1, 127);
    plain_loosens(JsonTree::Object(members), limit + 1, 127);
}

proof fn plain_loosens(tree: JsonTree, limit: nat, more: nat)
    requires
        plain(tree, limit),
        limit <= more,
    ensures
        plain(tree, more),
    decreases limit,
{
    match tree {
        JsonTree::List(items) => {
            assert forall|i: int| 0 <= i < items.len() implies plain(
                #[trigger] items[i],
                (more - 1) as nat,
            ) by {
                plain_loosens(items[i], (limit - 1) as nat, (more - 1) as nat);
            }
        },
        JsonTree::Object(members) => {
            assert forall|key: Seq<char>| #[trigger] members.contains_key(key) implies plain(
                members[key],
                (more - 1) as nat,
            ) by {
                plain_loosens(members[key], (limit - 1) as nat, (more - 1) as nat);
            }
        },
        _ => {},
    }
}

/// What can be parsed again nests at most 127 deep: what stands in such a
/// document nests one less.
pub proof fn printable_documents_are_shallow(
    tree: JsonTree,
    i: int,
    key: Seq<char>,
    limit: nat,
)
    ensures
        printable(tree) ==> plain(tree, 127),
        plain(tree, limit) && tree is List ==> limit > 0 && (0 <= i < tree->List_0.len() ==> plain(
            tree->List_0[i],
            (limit - 1) as nat,
        )),
        plain(tree, limit) && tree is Object ==> limit > 0 && (tree->Object_0.contains_key(key)
            ==> plain(tree->Object_0[key], (limit - 1) as nat)),
{
    match tree {
        JsonTree::List(items) => {
            if plain(tree, limit) && 0 <= i < items.len() {
                assert(plain(items[i], (limit - 1) as nat));
            }
        },
        _ => {},
    }
}

/// Bytes without a dollar sign and without a backslash do not name the reserved
/// member.
pub proof fn ordinary_bytes_do_not_name_the_reserved_member(bytes: Seq<u8>)
    requires
        forall|i: int|
            0 <= i < bytes.len() ==> (#[trigger] bytes[i]) != 0x24 && bytes[i] != 0x5c,
    ensures
        !may_name_reserved(bytes),
{
    reveal_strlit("$serde_json::private::RawValue");
    let name = RESERVED_KEY@;
    assert(is_ascii_chars(name));
    is_ascii_chars_encode_utf8(name);
    let encoded = encode_utf8(name);
    assert(name[0] == '$');
    assert(encoded[0] == 0x24);
    if holds(bytes, encoded) {
        let at = choose|at: int|
            0 <= at && at + encoded.len() <= bytes.len() && #[trigger] bytes.subrange(
                at,
                at + encoded.len(),
            ) == encoded;
        assert(bytes.subrange(at, at + encoded.len())[0] == bytes[at]);
    }
    let escape = seq![0x5cu8, 0x75u8, 0x30u8, 0x30u8];
    if holds(bytes, escape) {
        let at = choose|at: int|
            0 <= at && at + escape.len() <= bytes.len() && #[trigger] bytes.subrange(
                at,
                at + escape.len(),
            ) == escape;
        assert(bytes.subrange(at, at + escape.len())[0] == bytes[at]);
    }
}

} // verus!
