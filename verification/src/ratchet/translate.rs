//! Wire-format detection and the model rewrite.
//!
//! Decoding serves the judge alone. The forwarded request is never rebuilt
//! from what the judge was shown: both supported formats carry `model` at the
//! top level, so the rewrite changes that member of the parsed body and
//! preserves every other field.

use vstd::prelude::*;

use super::error::{RouteError, RouteFault};
use crate::json::{
    carries, has_member, is_object, json_bytes, json_tree, member, print_json, printable, set_text,
    with_text, with_text_stays_printable, JsonTree, RESERVED_KEY,
};
use crate::text::ends_with;

verus! {

/// A supported request wire format.
#[derive(Debug, Clone, Copy, PartialEq, Eq, Structural)]
pub enum WireFormat {
    /// OpenAI chat completions.
    OpenAiChat,
    /// Anthropic messages.
    AnthropicMessages,
}

/// The wire format that a body's shape points to: Anthropic messages bodies
/// carry a top-level `max_tokens` (and often `system`), OpenAI chat bodies
/// usually carry neither.
pub open spec fn shape_format(body: JsonTree) -> Result<WireFormat, RouteFault> {
    if !(body is Object) {
        Err(RouteFault::Body("is not a JSON object"@))
    } else if !has_member(body, "messages"@) {
        Err(RouteFault::UnknownFormat)
    } else if has_member(body, "system"@) || has_member(body, "max_tokens"@) {
        Ok(WireFormat::AnthropicMessages)
    } else {
        Ok(WireFormat::OpenAiChat)
    }
}

/// The wire format of a request: the path decides where it ends in a known
/// suffix, otherwise the body's shape does.
pub open spec fn wire_format(path: Seq<char>, body: JsonTree) -> Result<WireFormat, RouteFault> {
    if "/chat/completions"@.is_suffix_of(path) {
        Ok(WireFormat::OpenAiChat)
    } else if "/messages"@.is_suffix_of(path) {
        Ok(WireFormat::AnthropicMessages)
    } else {
        shape_format(body)
    }
}

/// An outcome, with the failure by content.
pub open spec fn outcome<T>(r: Result<T, RouteError>) -> Result<T, RouteFault> {
    match r {
        Ok(value) => Ok(value),
        Err(error) => Err(error@),
    }
}

/// Detects the request's wire format, primarily from the request path.
pub fn detect_format(path: &str, body: &serde_json::Value) -> (r: Result<WireFormat, RouteError>)
    ensures
        outcome(r) == wire_format(path@, json_tree(*body)),
{
    if ends_with(path, "/chat/completions") {
        return Ok(WireFormat::OpenAiChat);
    }
    if ends_with(path, "/messages") {
        return Ok(WireFormat::AnthropicMessages);
    }
    detect_format_from_shape(body)
}

/// Body-shape fallback for non-canonical paths.
pub fn detect_format_from_shape(body: &serde_json::Value) -> (r: Result<WireFormat, RouteError>)
    ensures
        outcome(r) == shape_format(json_tree(*body)),
{
    if !is_object(body) {
        return Err(RouteError::Body("is not a JSON object"));
    }
    if member(body, "messages").is_none() {
        return Err(RouteError::UnknownFormat);
    }
    if member(body, "system").is_some() || member(body, "max_tokens").is_some() {
        return Ok(WireFormat::AnthropicMessages);
    }
    Ok(WireFormat::OpenAiChat)
}

/// Takes the outcome of decoding the inbound body for the judge.
pub fn decode_for_judge<T>(decoded: Result<T, String>) -> (r: Result<T, RouteError>)
    ensures
        outcome(r) == (match decoded {
            Ok(request) => Ok(request),
            Err(error) => Err(RouteFault::Translation(error@)),
        }),
{
    match decoded {
        Ok(request) => Ok(request),
        Err(error) => Err(RouteError::Translation(error)),
    }
}

/// Rewrites the top-level `model` field in place and re-serializes.
pub fn rewrite_model(body: &mut serde_json::Value, model: &str) -> (r: Result<Vec<u8>, RouteError>)
    ensures
        r is Ok <==> json_tree(*old(body)) is Object,
        r matches Err(error) ==> error@ == RouteFault::Body("is not a JSON object"@) && *final(body)
            == *old(body),
        r matches Ok(bytes) ==> {
            let rewritten = with_text(json_tree(*old(body)), "model"@, model@);
            &&& json_tree(*final(body)) == rewritten
            &&& bytes@ == json_bytes(rewritten)
            &&& carries(bytes@, json_tree(*old(body)), "model"@, model@)
        },
{
    if !is_object(body) {
        return Err(RouteError::Body("is not a JSON object"));
    }
    set_text(body, "model", model);
    proof {
        if printable(json_tree(*old(body))) {
            reveal_strlit("model");
            reveal_strlit("$serde_json::private::RawValue");
            assert("model"@.len() != RESERVED_KEY@.len());
            with_text_stays_printable(json_tree(*old(body)), "model"@, model@);
        }
    }
    match print_json(body) {
        Ok(bytes) => Ok(bytes),
        Err(error) => Err(RouteError::Serialize(error)),
    }
}

/// A rewrite changes the `model` member and no other.
pub proof fn rewrite_changes_only_the_model(body: JsonTree, model: Seq<char>, key: Seq<char>)
    requires
        body is Object,
    ensures
        ({
            let rewritten = with_text(body, "model"@, model);
            &&& rewritten is Object
            &&& has_member(rewritten, "model"@)
            &&& rewritten->Object_0["model"@] == JsonTree::Text(model)
            &&& key != "model"@ ==> has_member(rewritten, key) == has_member(body, key)
            &&& key != "model"@ && has_member(body, key) ==> rewritten->Object_0[key]
                == body->Object_0[key]
        }),
{
}

/// A rewrite does not change which wire format a request is taken for.
pub proof fn rewrite_keeps_the_format(path: Seq<char>, body: JsonTree, model: Seq<char>)
    requires
        body is Object,
    ensures
        wire_format(path, with_text(body, "model"@, model)) == wire_format(path, body),
{
    reveal_strlit("model");
    reveal_strlit("messages");
    reveal_strlit("system");
    reveal_strlit("max_tokens");
    assert("model"@.len() == 5 && "messages"@.len() == 8 && "system"@.len() == 6
        && "max_tokens"@.len() == 10);
}

/// On a canonical path the path alone decides, whatever the body is.
pub proof fn canonical_paths_are_authoritative(
    front: Seq<char>,
    path: &str,
    body: serde_json::Value,
    r: Result<WireFormat, RouteError>,
)
    requires
        call_ensures(detect_format, (path, &body), r),
    ensures
        path@ == front + "/chat/completions"@ ==> r == Ok::<WireFormat, RouteError>(
            WireFormat::OpenAiChat,
        ),
        path@ == front + "/messages"@ ==> r == Ok::<WireFormat, RouteError>(
            WireFormat::AnthropicMessages,
        ),
{
    reveal_strlit("/chat/completions");
    reveal_strlit("/messages");
    let chat = "/chat/completions"@;
    let messages = "/messages"@;
    if path@ == front + chat {
        assert(path@.subrange(path@.len() - chat.len(), path@.len() as int) =~= chat);
        assert(outcome(r) == Ok::<WireFormat, RouteFault>(WireFormat::OpenAiChat));
    }
    if path@ == front + messages {
        assert(path@.subrange(path@.len() - messages.len(), path@.len() as int) =~= messages);
        if chat.is_suffix_of(path@) {
            assert(path@[path@.len() - 2] == 'e');
            assert(path@.subrange(path@.len() - chat.len(), path@.len() as int)[chat.len() - 2]
                == chat[chat.len() - 2]);
        }
        assert(outcome(r) == Ok::<WireFormat, RouteFault>(WireFormat::AnthropicMessages));
    }
}

/// The same of the format that a pass goes by, for every body.
pub proof fn canonical_paths_decide_the_format(front: Seq<char>, body: JsonTree)
    ensures
        wire_format(front + "/chat/completions"@, body) == Ok::<WireFormat, RouteFault>(
            WireFormat::OpenAiChat,
        ),
        wire_format(front + "/messages"@, body) == Ok::<WireFormat, RouteFault>(
            WireFormat::AnthropicMessages,
        ),
{
    reveal_strlit("/chat/completions");
    reveal_strlit("/messages");
    let chat = "/chat/completions"@;
    let messages = "/messages"@;
    let one = front + chat;
    assert(one.subrange(one.len() - chat.len(), one.len() as int) =~= chat);
    let other = front + messages;
    assert(other.subrange(other.len() - messages.len(), other.len() as int) =~= messages);
    if chat.is_suffix_of(other) {
        assert(other[other.len() - 2] == 'e');
        assert(other.subrange(other.len() - chat.len(), other.len() as int)[chat.len() - 2]
            == chat[chat.len() - 2]);
    }
}

/// On any other path the members of the body decide: a conversation with a
/// system prompt or a token limit of its own is Anthropic's, one without either
/// is OpenAI's, and a body without messages is of no known format.
pub proof fn other_paths_go_by_the_body(
    path: Seq<char>,
    members: Map<Seq<char>, JsonTree>,
    body: JsonTree,
)
    requires
        !"/chat/completions"@.is_suffix_of(path),
        !"/messages"@.is_suffix_of(path),
    ensures
        !members.contains_key("messages"@) ==> wire_format(path, JsonTree::Object(members))
            == Err::<WireFormat, RouteFault>(RouteFault::UnknownFormat),
        members.contains_key("messages"@) && members.contains_key("system"@) ==> wire_format(
            path,
            JsonTree::Object(members),
        ) == Ok::<WireFormat, RouteFault>(WireFormat::AnthropicMessages),
        members.contains_key("messages"@) && members.contains_key("max_tokens"@) ==> wire_format(
            path,
            JsonTree::Object(members),
        ) == Ok::<WireFormat, RouteFault>(WireFormat::AnthropicMessages),
        members.contains_key("messages"@) && !members.contains_key("system"@)
            && !members.contains_key("max_tokens"@) ==> wire_format(
            path,
            JsonTree::Object(members),
        ) == Ok::<WireFormat, RouteFault>(WireFormat::OpenAiChat),
        !(body is Object) ==> wire_format(path, body) == Err::<WireFormat, RouteFault>(
            RouteFault::Body("is not a JSON object"@),
        ),
{
}

/// What is detected is the format of the path and the body, what the shape says
/// is what a path without meaning leaves, and what a decoder hands over is
/// passed on.
pub proof fn detection_and_decoding_agree<T>(
    path: &str,
    body: serde_json::Value,
    found: Result<WireFormat, RouteError>,
    shape: Result<WireFormat, RouteError>,
    decoded: Result<T, String>,
    r: Result<T, RouteError>,
)
    requires
        call_ensures(detect_format, (path, &body), found),
        call_ensures(detect_format_from_shape, (&body,), shape),
        call_ensures(decode_for_judge::<T>, (decoded,), r),
    ensures
        outcome(found) == wire_format(path@, json_tree(body)),
        !"/chat/completions"@.is_suffix_of(path@) && !"/messages"@.is_suffix_of(path@)
            ==> outcome(found) == outcome(shape),
        decoded matches Ok(request) ==> r == Ok::<T, RouteError>(request),
        decoded matches Err(error) ==> (r matches Err(RouteError::Translation(told)) && told@
            == error@),
{
    if decoded is Err {
        assert(r is Err);
        assert(r->Err_0@ == RouteFault::Translation(decoded->Err_0@));
    }
}

} // verus!
