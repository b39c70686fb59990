//! Failure vocabulary of the floor-keeping filter.
//!
//! Every failure takes the filter's single failure path: the request passes
//! through unmodified, or is rejected with 503, as configured.

use vstd::prelude::*;

use crate::text::join;

verus! {

/// Everything that can prevent a routing decision.
#[derive(Debug)]
pub enum RouteError {
    /// The buffered request body was missing, empty, or the wrong shape.
    Body(&'static str),
    /// The request body was not valid JSON.
    Json(String),
    /// Neither the path nor the body shape identified a supported wire format.
    UnknownFormat,
    /// The body could not be decoded for the judge.
    Translation(String),
    /// The rewritten body could not be re-serialized.
    Serialize(String),
    /// The server did not provide a client for the judge callout.
    MissingSubrequestClient,
    /// The judge callout failed (encode, transport, decode, or respond).
    Judge(String),
    /// The classifier run surfaced an error step.
    Run(String),
    /// The step stream ended without a routed decision.
    NoDecision,
    /// The routed decision named a tag outside the tier table.
    UnknownTier(String),
}

/// The content of a [`RouteError`].
pub enum RouteFault {
    Body(Seq<char>),
    Json(Seq<char>),
    UnknownFormat,
    Translation(Seq<char>),
    Serialize(Seq<char>),
    MissingSubrequestClient,
    Judge(Seq<char>),
    Run(Seq<char>),
    NoDecision,
    UnknownTier(Seq<char>),
}

impl View for RouteError {
    type V = RouteFault;

    open spec fn view(&self) -> RouteFault {
        match *self {
            RouteError::Body(what) => RouteFault::Body(what@),
            RouteError::Json(error) => RouteFault::Json(error@),
            RouteError::UnknownFormat => RouteFault::UnknownFormat,
            RouteError::Translation(error) => RouteFault::Translation(error@),
            RouteError::Serialize(error) => RouteFault::Serialize(error@),
            RouteError::MissingSubrequestClient => RouteFault::MissingSubrequestClient,
            RouteError::Judge(error) => RouteFault::Judge(error@),
            RouteError::Run(error) => RouteFault::Run(error@),
            RouteError::NoDecision => RouteFault::NoDecision,
            RouteError::UnknownTier(tag) => RouteFault::UnknownTier(tag@),
        }
    }
}

/// The failure for the log and the metadata.
pub open spec fn fault_text(fault: RouteFault) -> Seq<char> {
    match fault {
        RouteFault::Body(what) => "request body "@ + what,
        RouteFault::Json(error) => "request body is not valid JSON: "@ + error,
        RouteFault::UnknownFormat => "unrecognized wire format"@,
        RouteFault::Translation(error) => "request translation failed: "@ + error,
        RouteFault::Serialize(error) => "body re-serialization failed: "@ + error,
        RouteFault::MissingSubrequestClient => "subrequest client unavailable"@,
        RouteFault::Judge(error) => "judge callout failed: "@ + error,
        RouteFault::Run(error) => "switchyard run failed: "@ + error,
        RouteFault::NoDecision => "switchyard produced no routing decision"@,
        RouteFault::UnknownTier(tag) => "switchyard selected unknown tier '"@ + tag + "'"@,
    }
}

impl RouteError {
    /// The failure for the log and the metadata.
    pub fn message(&self) -> (text: String)
        ensures
            text@ == fault_text(self@),
    {
        match self {
            RouteError::Body(what) => join("request body ", what),
            RouteError::Json(error) => join("request body is not valid JSON: ", error.as_str()),
            RouteError::UnknownFormat => "unrecognized wire format".to_owned(),
            RouteError::Translation(error) => join(
                "request translation failed: ",
                error.as_str(),
            ),
            RouteError::Serialize(error) => join("body re-serialization failed: ", error.as_str()),
            RouteError::MissingSubrequestClient => "subrequest client unavailable".to_owned(),
            RouteError::Judge(error) => join("judge callout failed: ", error.as_str()),
            RouteError::Run(error) => join("switchyard run failed: ", error.as_str()),
            RouteError::NoDecision => "switchyard produced no routing decision".to_owned(),
            RouteError::UnknownTier(tag) => join(
                join("switchyard selected unknown tier '", tag.as_str()).as_str(),
                "'",
            ),
        }
    }
}

/// Each failure is told with what it is and, where there is more to say, with
/// the words that came with it.
pub proof fn failures_are_told(error: RouteError, r: String)
    requires
        call_ensures(RouteError::message, (&error,), r),
    ensures
        error matches RouteError::Body(what) ==> r@ == "request body "@ + what@,
        error matches RouteError::Json(why) ==> r@ == "request body is not valid JSON: "@ + why@,
        error matches RouteError::UnknownFormat ==> r@ == "unrecognized wire format"@,
        error matches RouteError::Translation(why) ==> r@ == "request translation failed: "@
            + why@,
        error matches RouteError::Serialize(why) ==> r@ == "body re-serialization failed: "@
            + why@,
        error matches RouteError::MissingSubrequestClient ==> r@
            == "subrequest client unavailable"@,
        error matches RouteError::Judge(why) ==> r@ == "judge callout failed: "@ + why@,
        error matches RouteError::Run(why) ==> r@ == "switchyard run failed: "@ + why@,
        error matches RouteError::NoDecision ==> r@ == "switchyard produced no routing decision"@,
        error matches RouteError::UnknownTier(tag) ==> r@ == "switchyard selected unknown tier '"@
            + tag@ + "'"@,
        fault_text(error@) == r@,
{
}

} // verus!
