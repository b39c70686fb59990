//! Settings of the capability-mode classifier.

use vstd::prelude::*;

use crate::judge::JUDGE_TAG;
use crate::tier::{tag_text, Tier};

verus! {

/// A decision threshold, held by its IEEE 754 binary64 encoding.
#[derive(Debug, Clone, Copy, PartialEq, Eq, Structural)]
pub struct Threshold {
    /// The encoding.
    pub bits: u64,
}

/// Whether a threshold's encoding is that of a number from 0 to 1. Among the
/// encodings of numbers that are not negative the order is that of the
/// numbers; the other encoding of zero is the one with the sign bit alone.
pub open spec fn in_unit_range(threshold: Threshold) -> bool {
    threshold.bits <= 0x3ff0_0000_0000_0000 || threshold.bits == 0x8000_0000_0000_0000
}

/// The encoding of one half.
pub open spec fn one_half() -> Threshold {
    Threshold { bits: 0x3fe0_0000_0000_0000 }
}

impl Threshold {
    /// Whether the threshold is a number from 0 to 1.
    pub fn is_unit(self) -> (r: bool)
        ensures
            r == in_unit_range(self),
    {
        self.bits <= 0x3ff0_0000_0000_0000 || self.bits == 0x8000_0000_0000_0000
    }
}

/// The default threshold: one half.
pub fn default_threshold() -> (r: Threshold)
    ensures
        r == one_half(),
{
    Threshold { bits: 0x3fe0_0000_0000_0000 }
}

/// What the classifier is built from. It is built once, when the filter is
/// configured.
#[derive(Debug)]
pub struct ClassifierSettings {
    /// Name of the judge target.
    pub judge: &'static str,
    /// Name of the efficient target.
    pub efficient: &'static str,
    /// Name of the capable target.
    pub capable: &'static str,
    /// Decision threshold.
    pub threshold: Threshold,
    /// Whether the classifier pins a session to its first decision. It must
    /// not: such a pin can hold a session on the weak tier.
    pub session_affinity: bool,
}

/// The classifier settings for a threshold.
pub fn classifier_settings(threshold: Threshold) -> (r: ClassifierSettings)
    ensures
        r.judge@ == JUDGE_TAG@,
        r.efficient@ == tag_text(Tier::Weak),
        r.capable@ == tag_text(Tier::Strong),
        r.threshold == threshold,
        !r.session_affinity,
{
    ClassifierSettings {
        judge: JUDGE_TAG,
        efficient: Tier::Weak.tag(),
        capable: Tier::Strong.tag(),
        threshold,
        session_affinity: false,
    }
}

/// A threshold is accepted exactly where it is a number from 0 to 1. An
/// encoding is made of a sign bit, an exponent of 11 bits and a fraction of 52:
/// a number without sign is at most one where its exponent is below 1023, or is
/// 1023 with no fraction; with the sign bit it is not negative only as zero.
pub proof fn accepted_thresholds_are_from_zero_to_one(
    threshold: Threshold,
    sign: int,
    exponent: int,
    fraction: int,
    r: bool,
)
    requires
        call_ensures(Threshold::is_unit, (threshold,), r),
        0 <= sign <= 1,
        0 <= exponent < 2048,
        0 <= fraction < 4_503_599_627_370_496,
        threshold.bits == sign * 9_223_372_036_854_775_808 + exponent * 4_503_599_627_370_496
            + fraction,
    ensures
        sign == 0 ==> (r <==> exponent < 1023 || (exponent == 1023 && fraction == 0)),
        sign == 1 ==> (r <==> exponent == 0 && fraction == 0),
        in_unit_range(threshold) == r,
{
}

/// The default threshold is one half: exponent 1022, no sign and no fraction.
pub proof fn the_default_threshold_is_one_half(r: Threshold)
    requires
        call_ensures(default_threshold, (), r),
    ensures
        r.bits == 1022 * 4_503_599_627_370_496,
        one_half() == r,
{
}

/// The classifier is built with the threshold that is configured, whichever it
/// is, knows its targets by the tags that decisions are read by, and never pins
/// a session.
pub proof fn the_classifier_gets_the_configured_threshold(
    threshold: Threshold,
    r: ClassifierSettings,
)
    requires
        call_ensures(classifier_settings, (threshold,), r),
    ensures
        r.threshold.bits == threshold.bits,
        r.efficient@ == "weak"@,
        r.capable@ == "strong"@,
        r.judge@ == "judge"@,
        r.session_affinity == false,
{
}

} // verus!
