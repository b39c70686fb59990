//! What a request is served with when no decision came about.

use vstd::prelude::*;

use crate::config::FailureMode;
use crate::tier::Tier;

verus! {

/// Decision of a request that the judge routed.
pub const DECISION_ROUTED: &'static str = "routed";

/// Decision of a request that is served from the session's memory.
pub const DECISION_REUSE: &'static str = "reuse";

/// Decision of a request that is served by the strong tier for want of memory.
pub const DECISION_DEFAULT_STRONG: &'static str = "default_strong";

/// Decision of a request that is answered with 503.
pub const DECISION_REJECTED: &'static str = "rejected";

/// Decision of a request that passes through as it came.
pub const DECISION_UNROUTED: &'static str = "unrouted";

/// Why a fallback tier applies.
#[derive(Debug, Clone, Copy, PartialEq, Eq, Structural)]
pub enum FailureApplyKind {
    /// The session's last real success is reused.
    Reuse,
    /// Nothing is remembered: the strong tier serves.
    DefaultStrong,
}

/// A fallback tier.
#[derive(Debug, Clone, Copy, PartialEq, Eq, Structural)]
pub struct FailureApply {
    /// The tier that serves the request.
    pub tier: Tier,
    /// Why it does.
    pub kind: FailureApplyKind,
}

/// What becomes of a request without a decision.
#[derive(Debug, Clone, Copy, PartialEq, Eq, Structural)]
pub enum FailureAction {
    /// It is answered with 503.
    Reject,
    /// It passes through as it came.
    Unrouted,
    /// It is served by a fallback tier.
    Apply(FailureApply),
}

/// What becomes of a request without a decision.
pub open spec fn disposition(mode: FailureMode, may_apply: bool, remembered: Option<Tier>) -> FailureAction {
    match mode {
        FailureMode::Closed => FailureAction::Reject,
        FailureMode::Open => if !may_apply {
            FailureAction::Unrouted
        } else {
            FailureAction::Apply(
                match remembered {
                    Some(tier) => FailureApply { tier, kind: FailureApplyKind::Reuse },
                    None => FailureApply {
                        tier: Tier::Strong,
                        kind: FailureApplyKind::DefaultStrong,
                    },
                },
            )
        },
    }
}

/// The decision that a fallback is recorded as.
pub open spec fn fallback_text(kind: FailureApplyKind) -> Seq<char> {
    match kind {
        FailureApplyKind::Reuse => DECISION_REUSE@,
        FailureApplyKind::DefaultStrong => DECISION_DEFAULT_STRONG@,
    }
}

impl FailureApplyKind {
    /// The decision that this fallback is recorded as.
    pub fn metadata(self) -> (r: &'static str)
        ensures
            r@ == fallback_text(self),
    {
        match self {
            FailureApplyKind::Reuse => DECISION_REUSE,
            FailureApplyKind::DefaultStrong => DECISION_DEFAULT_STRONG,
        }
    }
}

/// Says what becomes of a request without a decision. `may_apply` says whether
/// the request can be rewritten; `remembered` is the session's last real
/// success.
pub fn failure_action(mode: FailureMode, may_apply: bool, remembered: Option<Tier>) -> (r:
    FailureAction)
    ensures
        r == disposition(mode, may_apply, remembered),
{
    match mode {
        FailureMode::Closed => FailureAction::Reject,
        FailureMode::Open => {
            if !may_apply {
                return FailureAction::Unrouted;
            }
            match remembered {
                Some(tier) => FailureAction::Apply(
                    FailureApply { tier, kind: FailureApplyKind::Reuse },
                ),
                None => FailureAction::Apply(
                    FailureApply { tier: Tier::Strong, kind: FailureApplyKind::DefaultStrong },
                ),
            }
        },
    }
}

/// The log line of a fallback: the message, and the tag of the tier.
pub fn log_failure_apply(apply: FailureApply) -> (r: (&'static str, &'static str))
    ensures
        r.0@ == "switchyard_route: "@ + fallback_text(apply.kind),
        r.1@ == crate::tier::tag_text(apply.tier),
{
    proof {
        reveal_strlit("switchyard_route: ");
        reveal_strlit("reuse");
        reveal_strlit("default_strong");
        reveal_strlit("switchyard_route: reuse");
        reveal_strlit("switchyard_route: default_strong");
        assert("switchyard_route: "@ + "reuse"@ =~= "switchyard_route: reuse"@);
        assert("switchyard_route: "@ + "default_strong"@ =~= "switchyard_route: default_strong"@);
    }
    match apply.kind {
        FailureApplyKind::Reuse => ("switchyard_route: reuse", apply.tier.tag()),
        FailureApplyKind::DefaultStrong => ("switchyard_route: default_strong", apply.tier.tag()),
    }
}

/// Without a decision a filter that fails closed rejects every request. One
/// that fails open passes through what it may not rewrite, serves from the
/// remembered tier, whichever it is, where there is one, and from the strong
/// tier where there is none; and it says which it did.
pub proof fn fallbacks_follow_the_table(
    mode: FailureMode,
    may_apply: bool,
    remembered: Option<Tier>,
    r: FailureAction,
)
    requires
        call_ensures(failure_action, (mode, may_apply, remembered), r),
    ensures
        mode == FailureMode::Closed ==> r is Reject,
        mode == FailureMode::Open && !may_apply ==> r is Unrouted,
        mode == FailureMode::Open && may_apply ==> r is Apply,
        r is Apply ==> match remembered {
            Some(tier) => r->Apply_0.tier == tier && r->Apply_0.kind is Reuse,
            None => r->Apply_0.tier == Tier::Strong && r->Apply_0.kind is DefaultStrong,
        },
        disposition(mode, may_apply, remembered) == r,
{
}

/// Decisions are recorded and logged under the words that are documented for
/// them.
pub proof fn decisions_have_their_words(
    kind: FailureApplyKind,
    word: &'static str,
    apply: FailureApply,
    line: (&'static str, &'static str),
)
    requires
        call_ensures(FailureApplyKind::metadata, (kind,), word),
        call_ensures(log_failure_apply, (apply,), line),
    ensures
        kind is Reuse ==> word@ == "reuse"@ && fallback_text(kind) == "reuse"@,
        kind is DefaultStrong ==> word@ == "default_strong"@ && fallback_text(kind)
            == "default_strong"@,
        DECISION_ROUTED@ == "routed"@,
        DECISION_REJECTED@ == "rejected"@,
        DECISION_UNROUTED@ == "unrouted"@,
        apply.kind is Reuse ==> line.0@ == "switchyard_route: "@ + "reuse"@,
        apply.kind is DefaultStrong ==> line.0@ == "switchyard_route: "@ + "default_strong"@,
        apply.tier == Tier::Weak ==> line.1@ == "weak"@,
        apply.tier == Tier::Strong ==> line.1@ == "strong"@,
{
}

} // verus!
