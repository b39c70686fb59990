//! The judge exchange of the floor-keeping filter.
//!
//! A failure here is the filter's failure: answering the run with an error
//! would let the classifier default a tier itself, and the host owns that
//! outcome.

use vstd::prelude::*;

use super::config::RouteConfig;
use super::error::{RouteError, RouteFault};
use super::translate::outcome;
use crate::classifier::{classifier_settings, ClassifierSettings};
use crate::config::ConfigError;
use crate::json::{json_bytes, json_tree, parse_json, parsed_json, JsonTree};
use crate::judge::{delivered, judge_body, translated_reply, JUDGE_TAG};
use crate::steps::{FailureView, StepFailure};
use crate::text::join;
use crate::tier::{tag_text, Tier};

verus! {

/// The settings to build the classifier from.
pub fn build_algorithm(config: &RouteConfig) -> (r: ClassifierSettings)
    ensures
        r.judge@ == JUDGE_TAG@,
        r.efficient@ == tag_text(Tier::Weak),
        r.capable@ == tag_text(Tier::Strong),
        r.threshold == config.threshold,
        !r.session_affinity,
{
    classifier_settings(config.threshold)
}

/// The refusal of a configuration that the classifier does not take.
pub fn classifier_rejected(error: &str) -> (r: ConfigError)
    ensures
        r.message@ == "switchyard_route: classifier config rejected: "@ + error@,
{
    ConfigError { message: join("switchyard_route: classifier config rejected: ", error) }
}

/// Prints the encoded judge request.
pub fn encode_judge_request(wire: Result<serde_json::Value, String>) -> (r: Result<
    Vec<u8>,
    RouteError,
>)
    ensures
        match wire {
            Ok(value) => r matches Ok(bytes) && bytes@ == json_bytes(json_tree(value)),
            Err(error) => r matches Err(fault) && fault@ == RouteFault::Judge(
                "request encoding failed: "@ + error@,
            ),
        },
{
    match judge_body(wire) {
        Ok(bytes) => Ok(bytes),
        Err(message) => Err(RouteError::Judge(message)),
    }
}

/// What a parse of the reply's body makes of it.
pub open spec fn reply_document(parsed: Result<JsonTree, Seq<char>>) -> Result<
    JsonTree,
    RouteFault,
> {
    match parsed {
        Ok(tree) => Ok(tree),
        Err(error) => Err(RouteFault::Judge("response is not JSON: "@ + error)),
    }
}

/// A document, or the failure, by content.
pub open spec fn document(r: Result<serde_json::Value, RouteError>) -> Result<JsonTree, RouteFault> {
    match r {
        Ok(value) => Ok(json_tree(value)),
        Err(error) => Err(error@),
    }
}

/// The outcome of a JSON parse, by content.
pub open spec fn parse_outcome(parsed: Result<serde_json::Value, String>) -> Result<
    JsonTree,
    Seq<char>,
> {
    match parsed {
        Ok(value) => Ok(json_tree(value)),
        Err(message) => Err(message@),
    }
}

/// Takes the outcome of parsing the reply's body.
pub fn accept_reply(parsed: Result<serde_json::Value, String>) -> (r: Result<
    serde_json::Value,
    RouteError,
>)
    ensures
        document(r) == reply_document(parse_outcome(parsed)),
{
    match parsed {
        Ok(value) => Ok(value),
        Err(error) => Err(
            RouteError::Judge(join("response is not JSON: ", error.as_str())),
        ),
    }
}

/// Parses the body of a judge reply.
pub fn parse_reply(body: &[u8]) -> (r: Result<serde_json::Value, RouteError>)
    ensures
        document(r) == reply_document(parsed_json(body@)),
{
    accept_reply(parse_json(body))
}

/// Takes the outcome of translating the reply.
pub fn decode_judge_response<T>(translated: Result<T, String>) -> (r: Result<T, RouteError>)
    ensures
        outcome(r) == (match translated {
            Ok(response) => Ok(response),
            Err(error) => Err(RouteFault::Judge("response translation failed: "@ + error@)),
        }),
{
    match translated_reply(translated) {
        Ok(response) => Ok(response),
        Err(message) => Err(RouteError::Judge(message)),
    }
}

/// Takes the outcome of delivering the reply into the run.
pub fn respond_judge(respond: Result<(), String>) -> (r: Result<(), RouteError>)
    ensures
        match respond {
            Ok(_) => r is Ok,
            Err(error) => r matches Err(fault) && fault@ == RouteFault::Judge(
                "failed to deliver judge response: "@ + error@,
            ),
        },
{
    match delivered(respond) {
        Ok(()) => Ok(()),
        Err(message) => Err(RouteError::Judge(message)),
    }
}

/// The failure that a run without a decision comes to.
pub open spec fn run_fault(failure: FailureView) -> RouteFault {
    match failure {
        FailureView::Run(error) => RouteFault::Run(error),
        FailureView::NoDecision => RouteFault::NoDecision,
    }
}

/// The failure that a run without a decision comes to.
pub fn run_error(failure: StepFailure) -> (error: RouteError)
    ensures
        error@ == run_fault(failure@),
{
    match failure {
        StepFailure::Run(error) => RouteError::Run(error),
        StepFailure::NoDecision => RouteError::NoDecision,
    }
}

/// The classifier is built with the configured threshold and with the tags that
/// its decisions are read by.
pub proof fn the_classifier_is_built_as_configured(config: RouteConfig, r: ClassifierSettings)
    requires
        call_ensures(build_algorithm, (&config,), r),
    ensures
        r.threshold.bits == config.threshold.bits,
        r.efficient@ == "weak"@,
        r.capable@ == "strong"@,
        r.judge@ == "judge"@,
        !r.session_affinity,
{
}

/// A judge reply is the document that its body parses to, and a body that does
/// not parse is the judge's failure; a run without a decision is a failure of
/// the kind that it ended in.
pub proof fn judge_outcomes_are_passed_on<T>(
    body: &[u8],
    parsed: Result<serde_json::Value, RouteError>,
    failure: StepFailure,
    error: RouteError,
    translated: Result<T, String>,
    response: Result<T, RouteError>,
    respond: Result<(), String>,
    responded: Result<(), RouteError>,
    wire: Result<serde_json::Value, String>,
    encoded: Result<Vec<u8>, RouteError>,
    words: &str,
    rejected: ConfigError,
)
    requires
        call_ensures(parse_reply, (body,), parsed),
        call_ensures(run_error, (failure,), error),
        call_ensures(decode_judge_response::<T>, (translated,), response),
        call_ensures(respond_judge, (respond,), responded),
        call_ensures(encode_judge_request, (wire,), encoded),
        call_ensures(classifier_rejected, (words,), rejected),
    ensures
        parsed_json(body@) matches Ok(tree) ==> parsed is Ok && json_tree(parsed->Ok_0) == tree,
        parsed_json(body@) matches Err(why) ==> (parsed matches Err(RouteError::Judge(told))
            && told@ == "response is not JSON: "@ + why),
        failure matches StepFailure::Run(why) ==> (error matches RouteError::Run(told) && told@
            == why@),
        failure is NoDecision ==> error is NoDecision,
        translated matches Ok(value) ==> response == Ok::<T, RouteError>(value),
        translated matches Err(why) ==> (response matches Err(RouteError::Judge(told)) && told@
            == "response translation failed: "@ + why@),
        respond is Ok ==> responded is Ok,
        respond matches Err(why) ==> (responded matches Err(RouteError::Judge(told)) && told@
            == "failed to deliver judge response: "@ + why@),
        wire matches Ok(value) ==> encoded is Ok && encoded->Ok_0@ == json_bytes(
            json_tree(value),
        ),
        wire matches Err(why) ==> (encoded matches Err(RouteError::Judge(told)) && told@
            == "request encoding failed: "@ + why@),
        rejected.message@ == "switchyard_route: classifier config rejected: "@ + words@,
{
    let a = error@;
    assert(document(parsed) is Ok == parsed is Ok);
    if parsed is Err {
        let b = parsed->Err_0@;
    }
    assert(outcome(response) is Ok == response is Ok);
    if response is Err {
        let b = response->Err_0@;
    }
    if responded is Err {
        let b = responded->Err_0@;
    }
    if encoded is Err {
        let b = encoded->Err_0@;
    }
}

} // verus!
