//! Serving the judge (classifier) call.
//!
//! The classifier prepares the judge request: system prompt, trimmed messages,
//! response schema and output cap. The host encodes it onto the OpenAI chat
//! wire with the configured judge model, posts it, decodes the reply and
//! delivers it back into the run. Failures are told by their text.

use vstd::prelude::*;
use vstd::string::*;

use crate::json::{json_bytes, json_tree, print_json};
use crate::text::join;
use crate::wire::UriParts;

verus! {

/// The classifier's name for the judge target.
pub const JUDGE_TAG: &'static str = "judge";

/// What is overridden in a prepared judge request.
#[derive(Debug, Clone)]
pub struct JudgeOverrides {
    /// Model name; the prepared request inherits the inbound one.
    pub model: Option<String>,
    /// Whether the reply is streamed.
    pub stream: bool,
}

/// A judge callout, ready to be sent.
#[derive(Debug)]
pub struct JudgeRequest {
    /// Request method.
    pub method: &'static str,
    /// Path and query.
    pub uri: UriParts,
    /// Header fields.
    pub headers: http::HeaderMap<http::HeaderValue>,
    /// Encoded judge request.
    pub body: Vec<u8>,
}

/// The overrides for a judge model: its name, and a reply in one piece.
pub fn judge_overrides(judge_model: &str) -> (r: JudgeOverrides)
    ensures
        r.model matches Some(model) && model@ == judge_model@,
        !r.stream,
{
    JudgeOverrides { model: Some(judge_model.to_owned()), stream: false }
}

/// Prints an encoded judge request, or says why encoding it failed.
pub fn judge_body(wire: Result<serde_json::Value, String>) -> (r: Result<Vec<u8>, String>)
    ensures
        match wire {
            Ok(value) => r matches Ok(bytes) && bytes@ == json_bytes(json_tree(value)),
            Err(error) => r matches Err(message) && message@ == "request encoding failed: "@
                + error@,
        },
{
    match wire {
        Ok(value) => match print_json(&value) {
            Ok(bytes) => Ok(bytes),
            Err(error) => Err(join("request serialization failed: ", error.as_str())),
        },
        Err(error) => Err(join("request encoding failed: ", error.as_str())),
    }
}

/// Takes the outcome of translating a judge reply.
pub fn translated_reply<T>(translated: Result<T, String>) -> (r: Result<T, String>)
    ensures
        match translated {
            Ok(response) => r == Ok::<T, String>(response),
            Err(error) => r matches Err(message) && message@ == "response translation failed: "@
                + error@,
        },
{
    match translated {
        Ok(response) => Ok(response),
        Err(error) => Err(join("response translation failed: ", error.as_str())),
    }
}

/// Takes the outcome of delivering a judge reply into the run.
pub fn delivered(outcome: Result<(), String>) -> (r: Result<(), String>)
    ensures
        match outcome {
            Ok(_) => r is Ok,
            Err(error) => r matches Err(message) && message@
                == "failed to deliver judge response: "@ + error@,
        },
{
    match outcome {
        Ok(()) => Ok(()),
        Err(error) => Err(join("failed to deliver judge response: ", error.as_str())),
    }
}

/// Takes the outcome of resolving the judge host: the number of addresses
/// found, or the resolver's error.
pub fn resolved_addresses(host: &str, found: Result<usize, String>) -> (r: Result<(), String>)
    ensures
        r is Ok <==> (found matches Ok(count) && count > 0),
        r matches Err(message) ==> message@ == (match found {
            Ok(_) => "no addresses resolved for "@ + host@,
            Err(error) => "DNS resolution failed for "@ + host@ + ": "@ + error@,
        }),
{
    match found {
        Ok(count) => {
            if count == 0 {
                Err(join("no addresses resolved for ", host))
            } else {
                Ok(())
            }
        },
        Err(error) => {
            let mut message = join("DNS resolution failed for ", host);
            message.append(": ");
            message.append(error.as_str());
            Err(message)
        },
    }
}

/// A judge request carries the judge's model and asks for a reply in one piece,
/// whatever the model is called.
pub proof fn the_judge_is_asked_as_configured(judge_model: &str, r: JudgeOverrides)
    requires
        call_ensures(judge_overrides, (judge_model,), r),
    ensures
        r.model is Some,
        r.model->Some_0@ == judge_model@,
        r.stream == false,
{
}

/// A judge request that was encoded is printed as it is; one that was not fails
/// with the encoder's own words.
pub proof fn encoded_requests_are_printed(
    wire: Result<serde_json::Value, String>,
    r: Result<Vec<u8>, String>,
)
    requires
        call_ensures(judge_body, (wire,), r),
    ensures
        r is Ok == wire is Ok,
        wire is Ok ==> r->Ok_0@ == json_bytes(json_tree(wire->Ok_0)),
        wire is Err ==> r->Err_0@ == "request encoding failed: "@ + wire->Err_0@,
{
}

/// Translating a reply, delivering one and resolving a host succeed exactly
/// where the outside work did, and otherwise tell its own words.
pub proof fn outside_failures_are_told<T>(
    translated: Result<T, String>,
    reply: Result<T, String>,
    outcome: Result<(), String>,
    sent: Result<(), String>,
    host: &str,
    found: Result<usize, String>,
    resolved: Result<(), String>,
)
    requires
        call_ensures(translated_reply::<T>, (translated,), reply),
        call_ensures(delivered, (outcome,), sent),
        call_ensures(resolved_addresses, (host, found), resolved),
    ensures
        translated is Ok ==> reply == translated,
        translated is Err ==> reply is Err && reply->Err_0@ == "response translation failed: "@
            + translated->Err_0@,
        outcome is Ok ==> sent is Ok,
        outcome is Err ==> sent is Err && sent->Err_0@ == "failed to deliver judge response: "@
            + outcome->Err_0@,
        found is Ok && found->Ok_0 >= 1 ==> resolved is Ok,
        found is Ok && found->Ok_0 == 0 ==> resolved is Err && resolved->Err_0@
            == "no addresses resolved for "@ + host@,
        found is Err ==> resolved is Err && resolved->Err_0@ == "DNS resolution failed for "@
            + host@ + ": "@ + found->Err_0@,
{
}

} // verus!
