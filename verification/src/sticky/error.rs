//! Failure vocabulary of the session-remembering filter.

use vstd::prelude::*;

use crate::text::join;

verus! {

/// Everything that can prevent a routing decision.
#[derive(Debug)]
pub enum RouteError {
    /// Request body missing, empty, or not a JSON object.
    Body(&'static str),
    /// Body bytes were not valid JSON.
    Json(String),
    /// The path is not a chat-completions endpoint.
    UnsupportedPath,
    /// The body could not be decoded for the judge.
    Translation(String),
    /// The rewritten body could not be re-serialized.
    Serialize(String),
    /// The server did not provide a client for the judge callout.
    MissingSubrequestClient,
    /// The judge callout failed at every address.
    Judge(String),
    /// The classifier run surfaced an error.
    Run(String),
    /// The run ended without a routed decision.
    NoDecision,
    /// The decision's tag names no tier.
    UnknownTier(String),
}

/// The content of a [`RouteError`].
pub enum RouteFault {
    Body(Seq<char>),
    Json(Seq<char>),
    UnsupportedPath,
    Translation(Seq<char>),
    Serialize(Seq<char>),
    MissingSubrequestClient,
    Judge(Seq<char>),
    Run(Seq<char>),
    NoDecision,
    UnknownTier(Seq<char>),
}

impl View for RouteError {
    type V = RouteFault;

    open spec fn view(&self) -> RouteFault {
        match *self {
            RouteError::Body(what) => RouteFault::Body(what@),
            RouteError::Json(error) => RouteFault::Json(error@),
            RouteError::UnsupportedPath => RouteFault::UnsupportedPath,
            RouteError::Translation(error) => RouteFault::Translation(error@),
            RouteError::Serialize(error) => RouteFault::Serialize(error@),
            RouteError::MissingSubrequestClient => RouteFault::MissingSubrequestClient,
            RouteError::Judge(error) => RouteFault::Judge(error@),
            RouteError::Run(error) => RouteFault::Run(error@),
            RouteError::NoDecision => RouteFault::NoDecision,
            RouteError::UnknownTier(tag) => RouteFault::UnknownTier(tag@),
        }
    }
}

/// The failure for the log and the metadata.
pub open spec fn fault_text(fault: RouteFault) -> Seq<char> {
    match fault {
        RouteFault::Body(what) => "request body "@ + what,
        RouteFault::Json(error) => "invalid JSON: "@ + error,
        RouteFault::UnsupportedPath => "unsupported path (only /chat/completions)"@,
        RouteFault::Translation(error) => "translation failed: "@ + error,
        RouteFault::Serialize(error) => "serialize failed: "@ + error,
        RouteFault::MissingSubrequestClient => "subrequest client unavailable"@,
        RouteFault::Judge(error) => "judge callout failed: "@ + error,
        RouteFault::Run(error) => "switchyard run failed: "@ + error,
        RouteFault::NoDecision => "no routing decision"@,
        RouteFault::UnknownTier(tag) => "unknown tier '"@ + tag + "'"@,
    }
}

/// Whether a failure leaves a chat request that a fallback tier can serve: not
/// one whose body or path is wrong, nor one that cannot be printed.
pub open spec fn rewritable(fault: RouteFault) -> bool {
    !(fault is Body || fault is Json || fault is UnsupportedPath || fault is Serialize)
}

impl RouteError {
    /// The failure for the log and the metadata.
    pub fn message(&self) -> (text: String)
        ensures
            text@ == fault_text(self@),
    {
        match self {
            RouteError::Body(what) => join("request body ", what),
            RouteError::Json(error) => join("invalid JSON: ", error.as_str()),
            RouteError::UnsupportedPath => "unsupported path (only /chat/completions)".to_owned(),
            RouteError::Translation(error) => join("translation failed: ", error.as_str()),
            RouteError::Serialize(error) => join("serialize failed: ", error.as_str()),
            RouteError::MissingSubrequestClient => "subrequest client unavailable".to_owned(),
            RouteError::Judge(error) => join("judge callout failed: ", error.as_str()),
            RouteError::Run(error) => join("switchyard run failed: ", error.as_str()),
            RouteError::NoDecision => "no routing decision".to_owned(),
            RouteError::UnknownTier(tag) => join(
                join("unknown tier '", tag.as_str()).as_str(),
                "'",
            ),
        }
    }

    /// Whether this failure leaves a chat request that a fallback tier can
    /// serve.
    pub fn may_apply_failure_tier(&self) -> (r: bool)
        ensures
            r == rewritable(self@),
    {
        match self {
            RouteError::Body(_) | RouteError::Json(_) | RouteError::UnsupportedPath
            | RouteError::Serialize(_) => false,
            RouteError::Translation(_) | RouteError::MissingSubrequestClient | RouteError::Judge(_)
            | RouteError::Run(_) | RouteError::NoDecision | RouteError::UnknownTier(_) => true,
        }
    }
}

/// Each failure is told with what it is and, where there is more to say, with
/// the words that came with it; a fallback tier may serve the request exactly
/// where its body and its path are sound.
pub proof fn failures_are_told(error: RouteError, r: String, may_apply: bool)
    requires
        call_ensures(RouteError::message, (&error,), r),
        call_ensures(RouteError::may_apply_failure_tier, (&error,), may_apply),
    ensures
        error matches RouteError::Body(what) ==> r@ == "request body "@ + what@ && !may_apply,
        error matches RouteError::Json(why) ==> r@ == "invalid JSON: "@ + why@ && !may_apply,
        error matches RouteError::UnsupportedPath ==> r@
            == "unsupported path (only /chat/completions)"@ && !may_apply,
        error matches RouteError::Translation(why) ==> r@ == "translation failed: "@ + why@
            && may_apply,
        error matches RouteError::Serialize(why) ==> r@ == "serialize failed: "@ + why@
            && !may_apply,
        error matches RouteError::MissingSubrequestClient ==> r@
            == "subrequest client unavailable"@ && may_apply,
        error matches RouteError::Judge(why) ==> r@ == "judge callout failed: "@ + why@
            && may_apply,
        error matches RouteError::Run(why) ==> r@ == "switchyard run failed: "@ + why@ && may_apply,
        error matches RouteError::NoDecision ==> r@ == "no routing decision"@ && may_apply,
        error matches RouteError::UnknownTier(tag) ==> r@ == "unknown tier '"@ + tag@ + "'"@
            && may_apply,
        fault_text(error@) == r@,
        rewritable(error@) == may_apply,
{
}

} // verus!
