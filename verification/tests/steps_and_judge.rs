//! The step loop and the judge exchange.

use serde_json::Value;
use switchyard_route::judge::{
    delivered, judge_body, judge_overrides, resolved_addresses, translated_reply,
};
use switchyard_route::ratchet;
use switchyard_route::steps::{on_step, Step, StepAction, StepFailure};

/// Drives the loop over scripted steps: the outcome, and how often the judge
/// was served.
fn drive(steps: Vec<Step>) -> (Result<String, StepFailure>, usize) {
    let mut served = 0;
    let mut stream = steps.into_iter();
    loop {
        match on_step(stream.next()) {
            StepAction::Next => {}
            StepAction::ServeJudge => served += 1,
            StepAction::Finish(result) => return (result, served),
        }
    }
}

fn decision(routed: bool, tag: &str) -> Step {
    Step::Decision { routed, tag: tag.to_owned() }
}

fn call(routed: bool, tag: &str) -> Step {
    Step::Call { routed, tag: tag.to_owned() }
}

#[test]
fn the_judge_is_served_and_the_routed_decision_ends_the_run() {
    let (result, served) = drive(vec![
        decision(false, "judge"),
        call(false, "judge"),
        decision(true, "weak"),
        call(true, "strong"),
        Step::Returned,
    ]);
    assert_eq!(result.unwrap(), "weak");
    assert_eq!(served, 1, "the judge is served, the answer is not");
}

#[test]
fn the_answer_call_is_never_served() {
    let (result, served) = drive(vec![call(false, "judge"), call(true, "strong")]);
    assert_eq!(result.unwrap(), "strong", "its tag is read instead");
    assert_eq!(served, 1);
}

#[test]
fn runs_without_a_decision_fail() {
    let (ended, _) = drive(vec![call(false, "judge")]);
    assert!(matches!(ended, Err(StepFailure::NoDecision)));
    let (returned, _) = drive(vec![Step::Returned, decision(true, "weak")]);
    assert!(matches!(returned, Err(StepFailure::NoDecision)));
    let (failed, _) = drive(vec![Step::Failed("boom".to_owned()), decision(true, "weak")]);
    let error = ratchet::judge::run_error(failed.unwrap_err());
    assert_eq!(error.message(), "switchyard run failed: boom");
    let error = ratchet::judge::run_error(StepFailure::NoDecision);
    assert_eq!(error.message(), "switchyard produced no routing decision");
}

#[test]
fn the_judge_request_names_the_judge_model_and_does_not_stream() {
    let overrides = judge_overrides("judge-model");
    assert_eq!(overrides.model.as_deref(), Some("judge-model"));
    assert!(!overrides.stream);
}

#[test]
fn judge_requests_are_printed_in_key_order() {
    let wire: Value = serde_json::from_str(r#"{"stream":false,"model":"judge-model"}"#).unwrap();
    let bytes = judge_body(Ok(wire)).unwrap();
    assert_eq!(bytes, br#"{"model":"judge-model","stream":false}"#.to_vec());
    let error = ratchet::judge::encode_judge_request(Err("odd".to_owned())).unwrap_err();
    assert_eq!(error.message(), "judge callout failed: request encoding failed: odd");
}

#[test]
fn judge_replies_must_be_json_and_translate() {
    let value = ratchet::judge::parse_reply(br#"{"choices":[]}"#).unwrap();
    assert!(value["choices"].is_array());
    let error = ratchet::judge::parse_reply(b"oops").unwrap_err();
    assert_eq!(
        error.message(),
        "judge callout failed: response is not JSON: expected value at line 1 column 1"
    );
    let given = ratchet::judge::accept_reply(Err("why".to_owned())).unwrap_err();
    assert_eq!(given.message(), "judge callout failed: response is not JSON: why");
    assert_eq!(ratchet::judge::decode_judge_response::<u8>(Ok(4)).unwrap(), 4);
    let error = ratchet::judge::decode_judge_response::<u8>(Err("odd".to_owned())).unwrap_err();
    assert_eq!(error.message(), "judge callout failed: response translation failed: odd");
    let error = ratchet::judge::respond_judge(Err("gone".to_owned())).unwrap_err();
    assert_eq!(error.message(), "judge callout failed: failed to deliver judge response: gone");
    assert!(ratchet::judge::respond_judge(Ok(())).is_ok());
}

#[test]
fn shared_judge_messages() {
    assert_eq!(translated_reply::<u8>(Ok(1)).unwrap(), 1);
    assert_eq!(delivered(Ok(())), Ok(()));
    assert_eq!(resolved_addresses("h", Ok(1)), Ok(()));
    assert_eq!(resolved_addresses("h", Ok(0)), Err("no addresses resolved for h".to_owned()));
}
