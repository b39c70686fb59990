//! The decision-only step loop.
//!
//! The classifier yields steps, and the host owns all I/O. In capability mode
//! the order is: the judge call, which is served; the routed decision, whose
//! tag is read; then the answer call and the return to the agent, neither of
//! which is reached, since the stream is abandoned at the decision.

use vstd::prelude::*;

verus! {

/// One step of a classifier run.
#[derive(Debug)]
pub enum Step {
    /// The run surfaced an error.
    Failed(String),
    /// A decision.
    Decision {
        /// Whether it is the routing decision.
        routed: bool,
        /// Tag that it selects.
        tag: String,
    },
    /// A model call.
    Call {
        /// Whether it is the answer call, not the judge call.
        routed: bool,
        /// Tag that its decision selects.
        tag: String,
    },
    /// The run handed its answer back.
    Returned,
}

/// Why a run came to no decision.
#[derive(Debug)]
pub enum StepFailure {
    /// The run surfaced an error.
    Run(String),
    /// The run ended without a routed decision.
    NoDecision,
}

/// What the host does about a step.
#[derive(Debug)]
pub enum StepAction {
    /// Wait for the next step.
    Next,
    /// Serve the judge call, then wait for the next step.
    ServeJudge,
    /// Abandon the run: the decision's tag is known, or there is none.
    Finish(Result<String, StepFailure>),
}

/// The content of a [`Step`].
pub enum StepView {
    Failed(Seq<char>),
    Decision { routed: bool, tag: Seq<char> },
    Call { routed: bool, tag: Seq<char> },
    Returned,
}

/// The content of a [`StepFailure`].
pub enum FailureView {
    Run(Seq<char>),
    NoDecision,
}

/// The content of a [`StepAction`].
pub enum ActionView {
    Next,
    ServeJudge,
    Finish(Result<Seq<char>, FailureView>),
}

impl View for Step {
    type V = StepView;

    open spec fn view(&self) -> StepView {
        match *self {
            Step::Failed(error) => StepView::Failed(error@),
            Step::Decision { routed, tag } => StepView::Decision { routed, tag: tag@ },
            Step::Call { routed, tag } => StepView::Call { routed, tag: tag@ },
            Step::Returned => StepView::Returned,
        }
    }
}

impl View for StepFailure {
    type V = FailureView;

    open spec fn view(&self) -> FailureView {
        match *self {
            StepFailure::Run(error) => FailureView::Run(error@),
            StepFailure::NoDecision => FailureView::NoDecision,
        }
    }
}

impl View for StepAction {
    type V = ActionView;

    open spec fn view(&self) -> ActionView {
        match *self {
            StepAction::Next => ActionView::Next,
            StepAction::ServeJudge => ActionView::ServeJudge,
            StepAction::Finish(result) => ActionView::Finish(
                match result {
                    Ok(tag) => Ok(tag@),
                    Err(failure) => Err(failure@),
                },
            ),
        }
    }
}

/// The content of the next step, if the stream yields one.
pub open spec fn step_view(step: Option<Step>) -> Option<StepView> {
    match step {
        Some(found) => Some(found@),
        None => None,
    }
}

/// What the host does about the next step, or about the end of the stream.
pub open spec fn action_on(step: Option<StepView>) -> ActionView {
    match step {
        Some(StepView::Failed(error)) => ActionView::Finish(Err(FailureView::Run(error))),
        Some(StepView::Decision { routed, tag }) => if routed {
            ActionView::Finish(Ok(tag))
        } else {
            ActionView::Next
        },
        Some(StepView::Call { routed, tag }) => if routed {
            ActionView::Finish(Ok(tag))
        } else {
            ActionView::ServeJudge
        },
        Some(StepView::Returned) => ActionView::Finish(Err(FailureView::NoDecision)),
        None => ActionView::Finish(Err(FailureView::NoDecision)),
    }
}

/// What a run comes to whose judge calls are all served.
pub open spec fn run(steps: Seq<StepView>) -> Result<Seq<char>, FailureView>
    decreases steps.len(),
{
    if steps.len() == 0 {
        Err(FailureView::NoDecision)
    } else {
        match action_on(Some(steps[0])) {
            ActionView::Finish(result) => result,
            _ => run(steps.drop_first()),
        }
    }
}

/// Says what to do about the next step, or about the end of the stream.
pub fn on_step(step: Option<Step>) -> (action: StepAction)
    ensures
        action@ == action_on(step_view(step)),
{
    match step {
        None => StepAction::Finish(Err(StepFailure::NoDecision)),
        Some(Step::Failed(error)) => StepAction::Finish(Err(StepFailure::Run(error))),
        Some(Step::Decision { routed, tag }) => {
            if routed {
                StepAction::Finish(Ok(tag))
            } else {
                StepAction::Next
            }
        },
        Some(Step::Call { routed, tag }) => {
            if routed {
                // The answer call: learn the tier and stop without serving it.
                StepAction::Finish(Ok(tag))
            } else {
                StepAction::ServeJudge
            }
        },
        Some(Step::Returned) => StepAction::Finish(Err(StepFailure::NoDecision)),
    }
}

/// The answer call is never served: the only step that is served is a call
/// that is not the routed one.
pub proof fn only_the_judge_is_served(step: Option<StepView>)
    ensures
        action_on(step) is ServeJudge <==> (step matches Some(StepView::Call { routed, .. })
            && !routed),
{
}

/// A run comes to what the first step that ends it says, whatever follows, and
/// to no decision when no step ends it.
pub proof fn run_stops_at_the_first_end(steps: Seq<StepView>, at: int)
    requires
        0 <= at <= steps.len(),
        forall|i: int| 0 <= i < at ==> !(action_on(Some(#[trigger] steps[i])) is Finish),
        at < steps.len() ==> action_on(Some(steps[at])) is Finish,
    ensures
        at < steps.len() ==> action_on(Some(steps[at])) == ActionView::Finish(run(steps)),
        at == steps.len() ==> action_on(None) == ActionView::Finish(run(steps)),
    decreases steps.len(),
{
    if at > 0 {
        let rest = steps.drop_first();
        assert(!(action_on(Some(steps[0])) is Finish));
        assert forall|i: int| 0 <= i < at - 1 implies !(action_on(Some(#[trigger] rest[i])) is Finish) by {
            assert(rest[i] == steps[i + 1]);
        }
        run_stops_at_the_first_end(rest, at - 1);
    }
}

/// Whether a step lets the run go on: a decision or a call that is not routed.
pub open spec fn goes_on(step: StepView) -> bool {
    match step {
        StepView::Decision { routed, .. } => !routed,
        StepView::Call { routed, .. } => !routed,
        _ => false,
    }
}

/// A run comes to the very tag that its first routed decision or routed call
/// selects, whatever that tag is and whatever follows; an error that comes
/// first is what it fails with, and a run that ends without either has no
/// decision.
pub proof fn a_run_comes_to_the_tag_of_its_routed_step(
    steps: Seq<StepView>,
    at: int,
    tag: Seq<char>,
    error: Seq<char>,
)
    requires
        0 <= at <= steps.len(),
        forall|i: int|
            0 <= i < at ==> ((#[trigger] steps[i]) matches StepView::Decision { routed, .. }
                && !routed) || (steps[i] matches StepView::Call { routed, .. } && !routed),
    ensures
        at < steps.len() && steps[at] == (StepView::Decision { routed: true, tag }) ==> run(steps)
            == Ok::<Seq<char>, FailureView>(tag),
        at < steps.len() && steps[at] == (StepView::Call { routed: true, tag }) ==> run(steps)
            == Ok::<Seq<char>, FailureView>(tag),
        at < steps.len() && steps[at] == StepView::Failed(error) ==> run(steps) == Err::<
            Seq<char>,
            FailureView,
        >(FailureView::Run(error)),
        at < steps.len() && steps[at] == StepView::Returned ==> run(steps) == Err::<
            Seq<char>,
            FailureView,
        >(FailureView::NoDecision),
        at == steps.len() ==> run(steps) == Err::<Seq<char>, FailureView>(FailureView::NoDecision),
    decreases at,
{
    if at > 0 {
        let rest = steps.drop_first();
        assert(goes_on(steps[0]));
        assert forall|i: int| 0 <= i < at - 1 implies ((#[trigger] rest[i]) matches StepView::Decision {
            routed,
            ..
        } && !routed) || (rest[i] matches StepView::Call { routed, .. } && !routed) by {
            assert(rest[i] == steps[i + 1]);
        }
        a_run_comes_to_the_tag_of_its_routed_step(rest, at - 1, tag, error);
        if at < steps.len() {
            assert(rest[at - 1] == steps[at]);
        }
    }
}

/// What the host does about each step: a routed decision and a routed call end
/// the run with their own tag, an error ends it with that error, a return and
/// the end of the stream end it without a decision, the judge's call is served,
/// and any other decision is passed over.
pub proof fn each_step_is_answered(step: Option<Step>, r: StepAction)
    requires
        call_ensures(on_step, (step,), r),
    ensures
        step matches Some(Step::Decision { routed, tag }) ==> if routed {
            r matches StepAction::Finish(Ok(found)) && found@ == tag@
        } else {
            r is Next
        },
        step matches Some(Step::Call { routed, tag }) ==> if routed {
            r matches StepAction::Finish(Ok(found)) && found@ == tag@
        } else {
            r is ServeJudge
        },
        step matches Some(Step::Failed(error)) ==> (r matches StepAction::Finish(
            Err(StepFailure::Run(found)),
        ) && found@ == error@),
        step == Some(Step::Returned) || step is None ==> (r matches StepAction::Finish(
            Err(StepFailure::NoDecision),
        )),
        r@ == action_on(step_view(step)),
{
    match r@ {
        ActionView::Finish(Ok(found)) => {
            assert(r is Finish);
            assert(r->Finish_0 is Ok);
        },
        ActionView::Finish(Err(failure)) => {
            assert(r is Finish);
            assert(r->Finish_0 is Err);
        },
        _ => {},
    }
}

/// The loop over the steps and the run agree: a step that ends the run gives
/// its outcome, and after any other the rest of the steps decides.
pub proof fn a_run_is_its_steps_in_turn(first: StepView, rest: Seq<StepView>)
    ensures
        goes_on(first) ==> run(seq![first] + rest) == run(rest) && !(action_on(
            Some(first),
        ) is Finish),
        !goes_on(first) ==> action_on(Some(first)) == ActionView::Finish(run(seq![first] + rest)),
{
    let all = seq![first] + rest;
    assert(all[0] == first);
    assert(all.drop_first() =~= rest);
}

} // verus!
