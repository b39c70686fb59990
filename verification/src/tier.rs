//! The abstract routing tier ladder.

use vstd::prelude::*;

use crate::text::text_eq;

verus! {

/// The abstract routing tier ladder, ordered weakest first.
///
/// The derived order is load-bearing: the session-floor clamp takes the larger
/// of the held floor and the fresh decision.
#[derive(Debug, Clone, Copy, PartialEq, Eq, PartialOrd, Ord, Structural)]
pub enum Tier {
    /// The efficient (cheaper) tier.
    Weak,
    /// The capable (stronger) tier.
    Strong,
}

/// How far up the ladder a tier stands.
pub open spec fn rank(tier: Tier) -> nat {
    match tier {
        Tier::Weak => 0,
        Tier::Strong => 1,
    }
}

/// The stronger of two tiers.
pub open spec fn stronger(a: Tier, b: Tier) -> Tier {
    if rank(a) < rank(b) { b } else { a }
}

/// The classifier tag that names a tier.
pub open spec fn tag_text(tier: Tier) -> Seq<char> {
    match tier {
        Tier::Weak => "weak"@,
        Tier::Strong => "strong"@,
    }
}

/// The tier that a classifier tag names, if it names one.
pub open spec fn tagged(tag: Seq<char>) -> Option<Tier> {
    if tag == "weak"@ {
        Some(Tier::Weak)
    } else if tag == "strong"@ {
        Some(Tier::Strong)
    } else {
        None
    }
}

impl Tier {
    /// The classifier tag for this tier.
    pub fn tag(self) -> (tag: &'static str)
        ensures
            tag@ == tag_text(self),
    {
        match self {
            Tier::Weak => "weak",
            Tier::Strong => "strong",
        }
    }

    /// Parses a classifier tag back into a tier.
    pub fn from_tag(tag: &str) -> (tier: Option<Tier>)
        ensures
            tier == tagged(tag@),
    {
        if text_eq(tag, "weak") {
            Some(Tier::Weak)
        } else if text_eq(tag, "strong") {
            Some(Tier::Strong)
        } else {
            None
        }
    }

    /// The stronger of this tier and `other`.
    pub fn at_least(self, other: Tier) -> (tier: Tier)
        ensures
            tier == stronger(self, other),
    {
        match self {
            Tier::Strong => Tier::Strong,
            Tier::Weak => other,
        }
    }
}

/// Every tier's tag parses back to that tier, and only tier tags parse.
pub proof fn tags_round_trip(tier: Tier, tag: Seq<char>)
    ensures
        tagged(tag_text(tier)) == Some(tier),
        tagged(tag) == Some(tier) ==> tag == tag_text(tier),
{
    reveal_strlit("weak");
    reveal_strlit("strong");
    assert("weak"@.len() != "strong"@.len());
}

/// Clamping never lowers either side, and clamps to one of the two.
pub proof fn clamp_never_lowers(floor: Tier, decision: Tier)
    ensures
        rank(stronger(floor, decision)) >= rank(floor),
        rank(stronger(floor, decision)) >= rank(decision),
        stronger(floor, decision) == floor || stronger(floor, decision) == decision,
        floor == Tier::Strong ==> stronger(floor, decision) == Tier::Strong,
{
}

/// The classifier's tags are `weak` and `strong`, each for the tier of that
/// name, and no other text is a tag.
pub proof fn tags_are_weak_and_strong(
    tier: Tier,
    tag: &'static str,
    text: &str,
    parsed: Option<Tier>,
)
    requires
        call_ensures(Tier::tag, (tier,), tag),
        call_ensures(Tier::from_tag, (text,), parsed),
    ensures
        tier == Tier::Weak ==> tag@ == "weak"@ && tag_text(tier) == "weak"@,
        tier == Tier::Strong ==> tag@ == "strong"@ && tag_text(tier) == "strong"@,
        parsed == Some(Tier::Weak) <==> text@ == "weak"@,
        parsed == Some(Tier::Strong) <==> text@ == "strong"@,
        tagged(text@) == parsed,
{
    reveal_strlit("weak");
    reveal_strlit("strong");
    assert("weak"@.len() != "strong"@.len());
}

/// The stronger of two tiers is the strong one as soon as one of them is, in
/// either order.
pub proof fn one_strong_tier_is_enough(a: Tier, b: Tier, r: Tier)
    requires
        call_ensures(Tier::at_least, (a, b), r),
    ensures
        r == Tier::Strong <==> a == Tier::Strong || b == Tier::Strong,
        stronger(a, b) == r,
        stronger(b, a) == r,
        rank(Tier::Weak) < rank(Tier::Strong),
{
}

} // verus!
