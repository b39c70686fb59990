//! The judge exchange of the session-remembering filter.
//!
//! Every address of the judge is tried in turn. A failed exchange, a status
//! other than 2xx and a reply that is not JSON lead on to the next address; a
//! reply that cannot be translated ends the callout.

use vstd::prelude::*;
use vstd::string::*;
use vstd::utf8::*;

use super::config::RouteConfig;
use super::error::{RouteError, RouteFault};
use crate::classifier::{classifier_settings, ClassifierSettings};
use crate::config::ConfigError;
use crate::json::{
    copy_json, elements, json_bytes, json_tree, member, member_of, parse_json, parsed_json, text,
    text_of, JsonTree,
};
use crate::judge::{delivered, judge_body, resolved_addresses, translated_reply, JUDGE_TAG};
use crate::steps::{
    a_run_comes_to_the_tag_of_its_routed_step, run, FailureView, StepFailure, StepView,
};
use crate::text::{
    decimal, decimal_text, join, leading, lossy, lossy_text, quoted, quoted_text, take_chars,
};
use crate::tier::{tag_text, tagged, Tier};

verus! {

/// Default cap of request bodies and judge replies (1 MiB).
pub const DEFAULT_MAX_BODY_BYTES: usize = 1_048_576;

/// How many characters of a reply are shown in a message.
pub const PREVIEW_CHARS: usize = 200;

/// What came of one attempt to reach the judge at one address.
#[derive(Debug)]
pub enum Attempt {
    /// The judge replied.
    Replied {
        /// Status code of the reply.
        status: u16,
        /// Body of the reply.
        body: Vec<u8>,
    },
    /// The exchange failed.
    Failed(String),
}

/// The content of an [`Attempt`].
pub enum AttemptView {
    Replied { status: u16, body: Seq<u8> },
    Failed(Seq<char>),
}

impl View for Attempt {
    type V = AttemptView;

    open spec fn view(&self) -> AttemptView {
        match *self {
            Attempt::Replied { status, body } => AttemptView::Replied { status, body: body@ },
            Attempt::Failed(message) => AttemptView::Failed(message@),
        }
    }
}

/// Why one attempt does not end in a reply.
#[derive(Debug)]
pub enum JudgeAttemptError {
    /// Try the next resolved address.
    Retryable(String),
    /// Stop the callout.
    Fatal(RouteError),
}

/// The first characters of a body, as text.
pub open spec fn preview(body: Seq<u8>) -> Seq<char> {
    leading(lossy_text(body), PREVIEW_CHARS as nat)
}

/// How a body is described in a message: its length and its first characters.
pub open spec fn body_note(body: Seq<u8>) -> Seq<char> {
    "body_len="@ + decimal_text(body.len()) + " preview="@ + quoted_text(preview(body))
}

/// The body of a 2xx reply, or why the next address is tried.
pub open spec fn fetched(addr: Seq<char>, attempt: AttemptView) -> Result<Seq<u8>, Seq<char>> {
    match attempt {
        AttemptView::Failed(error) => Err(addr + ": "@ + error),
        AttemptView::Replied { status, body } => if 200 <= status < 300 {
            Ok(body)
        } else {
            Err(
                "HTTP "@ + decimal_text(status as nat) + " from "@ + addr + " "@ + body_note(body),
            )
        },
    }
}

/// The document in a reply's body, or why the next address is tried, given what
/// parsing the body gives.
pub open spec fn decoded(
    addr: Seq<char>,
    body: Seq<u8>,
    parsed: Result<JsonTree, Seq<char>>,
) -> Result<JsonTree, Seq<char>> {
    match parsed {
        Ok(tree) => Ok(tree),
        Err(error) => Err(
            "judge_non_json from "@ + addr + ": "@ + error + "; "@ + body_note(body),
        ),
    }
}

/// The document that an attempt brings, or why the next address is tried.
pub open spec fn replied(addr: Seq<char>, attempt: AttemptView) -> Result<JsonTree, Seq<char>> {
    match fetched(addr, attempt) {
        Err(message) => Err(message),
        Ok(body) => decoded(addr, body, parsed_json(body)),
    }
}

/// What trying the addresses in turn brings: the first document, or the message
/// of the last attempt.
pub open spec fn callout(attempts: Seq<(Seq<char>, AttemptView)>) -> Result<JsonTree, Seq<char>> {
    callout_from("no address attempted"@, attempts)
}

/// As [`callout`], where `last` is the message so far.
pub open spec fn callout_from(
    last: Seq<char>,
    attempts: Seq<(Seq<char>, AttemptView)>,
) -> Result<JsonTree, Seq<char>>
    decreases attempts.len(),
{
    if attempts.len() == 0 {
        Err(last)
    } else {
        match replied(attempts[0].0, attempts[0].1) {
            Ok(tree) => Ok(tree),
            Err(message) => callout_from(message, attempts.drop_first()),
        }
    }
}

/// Truncates a body for log-safe previews.
pub fn body_preview(body: &[u8]) -> (r: String)
    ensures
        r@ == preview(body@),
{
    take_chars(lossy(body).as_str(), PREVIEW_CHARS)
}

fn describe_body(body: &[u8]) -> (r: String)
    ensures
        r@ == body_note(body@),
{
    let mut note = join("body_len=", decimal(body.len() as u64).as_str());
    note.append(" preview=");
    note.append(quoted(body_preview(body).as_str()).as_str());
    note
}

/// Takes what came of the attempt at `addr`: the body of a 2xx reply, or why
/// the next address is tried.
pub fn fetch_judge_body(addr: &str, attempt: Attempt) -> (r: Result<Vec<u8>, JudgeAttemptError>)
    ensures
        match r {
            Ok(body) => fetched(addr@, attempt@) == Ok::<Seq<u8>, Seq<char>>(body@),
            Err(JudgeAttemptError::Retryable(message)) => fetched(addr@, attempt@) == Err::<
                Seq<u8>,
                Seq<char>,
            >(message@),
            Err(JudgeAttemptError::Fatal(_)) => false,
        },
{
    match attempt {
        Attempt::Failed(error) => {
            let mut message = join(addr, ": ");
            message.append(error.as_str());
            Err(JudgeAttemptError::Retryable(message))
        },
        Attempt::Replied { status, body } => {
            if status >= 200 && status < 300 {
                return Ok(body);
            }
            let mut message = join("HTTP ", decimal(status as u64).as_str());
            message.append(" from ");
            message.append(addr);
            message.append(" ");
            message.append(describe_body(body.as_slice()).as_str());
            Err(JudgeAttemptError::Retryable(message))
        },
    }
}

/// The outcome of a JSON parse, by content.
pub open spec fn parse_outcome(parsed: Result<serde_json::Value, String>) -> Result<
    JsonTree,
    Seq<char>,
> {
    match parsed {
        Ok(value) => Ok(json_tree(value)),
        Err(message) => Err(message@),
    }
}

/// Takes the outcome of parsing a reply's body.
pub fn accept_document(
    addr: &str,
    body: &[u8],
    parsed: Result<serde_json::Value, String>,
) -> (r: Result<serde_json::Value, JudgeAttemptError>)
    ensures
        match r {
            Ok(value) => decoded(addr@, body@, parse_outcome(parsed)) == Ok::<JsonTree, Seq<char>>(
                json_tree(value),
            ),
            Err(JudgeAttemptError::Retryable(message)) => decoded(
                addr@,
                body@,
                parse_outcome(parsed),
            ) == Err::<JsonTree, Seq<char>>(message@),
            Err(JudgeAttemptError::Fatal(_)) => false,
        },
{
    match parsed {
        Ok(value) => Ok(value),
        Err(error) => {
            let mut message = join("judge_non_json from ", addr);
            message.append(": ");
            message.append(error.as_str());
            message.append("; ");
            message.append(describe_body(body).as_str());
            Err(JudgeAttemptError::Retryable(message))
        },
    }
}

/// Parses the body of a judge reply from `addr`.
pub fn parse_judge_body(addr: &str, body: &[u8]) -> (r: Result<
    serde_json::Value,
    JudgeAttemptError,
>)
    ensures
        match r {
            Ok(value) => decoded(addr@, body@, parsed_json(body@)) == Ok::<JsonTree, Seq<char>>(
                json_tree(value),
            ),
            Err(JudgeAttemptError::Retryable(message)) => decoded(
                addr@,
                body@,
                parsed_json(body@),
            ) == Err::<JsonTree, Seq<char>>(message@),
            Err(JudgeAttemptError::Fatal(_)) => false,
        },
{
    let parsed = parse_json(body);
    accept_document(addr, body, parsed)
}

/// Takes the outcome of translating a judge reply: a failure ends the callout.
pub fn decode_judge_aggregated<T>(translated: Result<T, String>) -> (r: Result<
    T,
    JudgeAttemptError,
>)
    ensures
        match translated {
            Ok(response) => r == Ok::<T, JudgeAttemptError>(response),
            Err(error) => r matches Err(JudgeAttemptError::Fatal(fault)) && fault@
                == RouteFault::Judge("response translation failed: "@ + error@),
        },
{
    match translated_reply(translated) {
        Ok(response) => Ok(response),
        Err(message) => Err(JudgeAttemptError::Fatal(RouteError::Judge(message))),
    }
}

/// Takes the outcome of delivering a judge reply into the run.
pub fn respond_judge(respond: Result<(), String>) -> (r: Result<(), RouteError>)
    ensures
        match respond {
            Ok(_) => r is Ok,
            Err(error) => r matches Err(fault) && fault@ == RouteFault::Judge(
                "failed to deliver judge response: "@ + error@,
            ),
        },
{
    match delivered(respond) {
        Ok(()) => Ok(()),
        Err(message) => Err(RouteError::Judge(message)),
    }
}

/// Prints the encoded judge request.
pub fn encode_judge_request(wire: Result<serde_json::Value, String>) -> (r: Result<
    Vec<u8>,
    RouteError,
>)
    ensures
        match wire {
            Ok(value) => r matches Ok(bytes) && bytes@ == json_bytes(json_tree(value)),
            Err(error) => r matches Err(fault) && fault@ == RouteFault::Judge(
                "request encoding failed: "@ + error@,
            ),
        },
{
    match judge_body(wire) {
        Ok(bytes) => Ok(bytes),
        Err(message) => Err(RouteError::Judge(message)),
    }
}

/// Takes the outcome of resolving the judge host: the number of addresses
/// found, or the resolver's error.
pub fn resolve_judge_addrs(host: &str, found: Result<usize, String>) -> (r: Result<(), RouteError>)
    ensures
        r is Ok <==> (found matches Ok(count) && count > 0),
        r matches Err(error) ==> error@ == RouteFault::Judge(
            match found {
                Ok(_) => "no addresses resolved for "@ + host@,
                Err(message) => "DNS resolution failed for "@ + host@ + ": "@ + message@,
            },
        ),
{
    match resolved_addresses(host, found) {
        Ok(()) => Ok(()),
        Err(message) => Err(RouteError::Judge(message)),
    }
}

/// The judge callout of one request: why the last address that was tried
/// brought nothing.
#[derive(Debug)]
pub struct JudgeCallout {
    /// The message of the last attempt.
    last_error: String,
}

impl JudgeCallout {
    /// The message of the last attempt.
    pub closed spec fn last(&self) -> Seq<char> {
        self.last_error@
    }

    /// Begins a callout; no address is tried yet.
    pub fn new() -> (callout: JudgeCallout)
        ensures
            callout.last() == "no address attempted"@,
    {
        JudgeCallout { last_error: "no address attempted".to_owned() }
    }

    /// Takes what came of the attempt at the next address: the document that it
    /// brings, or nothing where the next address is to be tried.
    pub fn record(&mut self, addr: &str, attempt: Attempt) -> (r: Option<serde_json::Value>)
        ensures
            match r {
                Some(value) => replied(addr@, attempt@) == Ok::<JsonTree, Seq<char>>(
                    json_tree(value),
                ) && final(self).last() == old(self).last(),
                None => replied(addr@, attempt@) == Err::<JsonTree, Seq<char>>(final(self).last()),
            },
            forall|rest: Seq<(Seq<char>, AttemptView)>| #[trigger]
                callout_from(old(self).last(), seq![(addr@, attempt@)] + rest) == (match r {
                    Some(value) => Ok(json_tree(value)),
                    None => callout_from(final(self).last(), rest),
                }),
    {
        proof {
            let last = self.last();
            assert forall|rest: Seq<(Seq<char>, AttemptView)>| #[trigger]
                callout_from(last, seq![(addr@, attempt@)] + rest) == (match replied(
                    addr@,
                    attempt@,
                ) {
                    Ok(tree) => Ok(tree),
                    Err(message) => callout_from(message, rest),
                }) by {
                let all = seq![(addr@, attempt@)] + rest;
                assert(all[0] == (addr@, attempt@));
                assert(all.drop_first() =~= rest);
            }
        }
        let body = match fetch_judge_body(addr, attempt) {
            Ok(body) => body,
            Err(JudgeAttemptError::Retryable(message)) => {
                self.last_error = message;
                return None;
            },
            Err(JudgeAttemptError::Fatal(_)) => return None,
        };
        match parse_judge_body(addr, body.as_slice()) {
            Ok(value) => Some(value),
            Err(JudgeAttemptError::Retryable(message)) => {
                self.last_error = message;
                None
            },
            Err(JudgeAttemptError::Fatal(_)) => None,
        }
    }

    /// The failure once no address is left.
    pub fn exhausted(self) -> (error: RouteError)
        ensures
            error@ == RouteFault::Judge(self.last()),
            callout_from(self.last(), Seq::empty()) == Err::<JsonTree, Seq<char>>(self.last()),
    {
        RouteError::Judge(self.last_error)
    }
}

/// The settings to build the classifier from.
pub fn build_algorithm(config: &RouteConfig) -> (r: ClassifierSettings)
    ensures
        r.judge@ == JUDGE_TAG@,
        r.efficient@ == tag_text(Tier::Weak),
        r.capable@ == tag_text(Tier::Strong),
        r.threshold == config.threshold,
        !r.session_affinity,
{
    classifier_settings(config.threshold)
}

/// The refusal of a configuration that the classifier does not take.
pub fn classifier_rejected(error: &str) -> (r: ConfigError)
    ensures
        r.message@ == "switchyard config rejected: "@ + error@,
{
    ConfigError { message: join("switchyard config rejected: ", error) }
}

/// The tier that a run's decision names, or the failure that the run comes to.
pub open spec fn decision(result: Result<Seq<char>, FailureView>) -> Result<Tier, RouteFault> {
    match result {
        Ok(tag) => match tagged(tag) {
            Some(tier) => Ok(tier),
            None => Err(RouteFault::UnknownTier(tag)),
        },
        Err(FailureView::Run(error)) => Err(RouteFault::Run(error)),
        Err(FailureView::NoDecision) => Err(RouteFault::NoDecision),
    }
}

/// The outcome of a run, by content.
pub open spec fn run_outcome(result: Result<String, StepFailure>) -> Result<
    Seq<char>,
    FailureView,
> {
    match result {
        Ok(tag) => Ok(tag@),
        Err(failure) => Err(failure@),
    }
}

/// Reads the tier off the end of a run.
pub fn decide(result: Result<String, StepFailure>) -> (r: Result<Tier, RouteError>)
    ensures
        match r {
            Ok(tier) => decision(run_outcome(result)) == Ok::<Tier, RouteFault>(tier),
            Err(error) => decision(run_outcome(result)) == Err::<Tier, RouteFault>(error@),
        },
{
    match result {
        Ok(tag) => match Tier::from_tag(tag.as_str()) {
            Some(tier) => Ok(tier),
            None => Err(RouteError::UnknownTier(tag)),
        },
        Err(StepFailure::Run(error)) => Err(RouteError::Run(error)),
        Err(StepFailure::NoDecision) => Err(RouteError::NoDecision),
    }
}

/// What a judge reply says of the request, for the log.
#[derive(Debug)]
pub struct Verdict {
    /// Estimated chance that the weak tier solves the request, where one is
    /// given.
    pub p_solve: Option<serde_json::Value>,
    /// The rule that decided.
    pub rule: String,
    /// The capability boundary that was found.
    pub boundary: String,
}

/// The content of a [`Verdict`].
pub struct VerdictView {
    pub p_solve: Option<JsonTree>,
    pub rule: Seq<char>,
    pub boundary: Seq<char>,
}

impl View for Verdict {
    type V = VerdictView;

    open spec fn view(&self) -> VerdictView {
        VerdictView {
            p_solve: match self.p_solve {
                Some(value) => Some(json_tree(value)),
                None => None,
            },
            rule: self.rule@,
            boundary: self.boundary@,
        }
    }
}

/// The first item of a list, or an object's member `0`.
pub open spec fn item_zero(tree: JsonTree) -> Option<JsonTree> {
    match tree {
        JsonTree::List(items) => if items.len() > 0 {
            Some(items[0])
        } else {
            None
        },
        _ => member_of(tree, "0"@),
    }
}

/// The text at `/choices/0/message/content` in a reply.
pub open spec fn reply_text(reply: JsonTree) -> Option<Seq<char>> {
    match member_of(reply, "choices"@) {
        Some(choices) => match item_zero(choices) {
            Some(choice) => match member_of(choice, "message"@) {
                Some(message) => match member_of(message, "content"@) {
                    Some(content) => text_of(content),
                    None => None,
                },
                None => None,
            },
            None => None,
        },
        None => None,
    }
}

/// The text of a verdict's member, or a question mark.
pub open spec fn field_text(verdict: JsonTree, key: Seq<char>) -> Seq<char> {
    match member_of(verdict, key) {
        Some(JsonTree::Text(text)) => text,
        _ => "?"@,
    }
}

/// What a parsed verdict says.
pub open spec fn verdict_of(verdict: JsonTree) -> VerdictView {
    VerdictView {
        p_solve: member_of(verdict, "p_solve"@),
        rule: field_text(verdict, "primary_rule"@),
        boundary: field_text(verdict, "capability_boundary"@),
    }
}

/// What a parsed judge reply says, where its text holds a verdict.
pub open spec fn told(reply: JsonTree) -> Option<VerdictView> {
    match reply_text(reply) {
        Some(content) => match parsed_json(encode_utf8(content)) {
            Ok(verdict) => Some(verdict_of(verdict)),
            Err(_) => None,
        },
        None => None,
    }
}

/// What a judge reply says, where its text holds a verdict.
pub open spec fn logged(body: Seq<u8>) -> Option<VerdictView> {
    match parsed_json(body) {
        Ok(reply) => told(reply),
        Err(_) => None,
    }
}

fn field(verdict: &serde_json::Value, key: &str) -> (r: String)
    ensures
        r@ == field_text(json_tree(*verdict), key@),
{
    match member(verdict, key) {
        Some(found) => match text(found) {
            Some(content) => content.to_owned(),
            None => "?".to_owned(),
        },
        None => "?".to_owned(),
    }
}

/// The text of a reply.
pub fn reply_content(reply: &serde_json::Value) -> (r: Option<String>)
    ensures
        match r {
            Some(content) => reply_text(json_tree(*reply)) == Some(content@),
            None => reply_text(json_tree(*reply)) is None,
        },
{
    let choices = match member(reply, "choices") {
        Some(choices) => choices,
        None => return None,
    };
    let choice = match elements(choices) {
        Some(items) => {
            if items.len() == 0 {
                return None;
            }
            &items[0]
        },
        None => match member(choices, "0") {
            Some(choice) => choice,
            None => return None,
        },
    };
    let message = match member(choice, "message") {
        Some(message) => message,
        None => return None,
    };
    match member(message, "content") {
        Some(content) => match text(content) {
            Some(found) => Some(found.to_owned()),
            None => None,
        },
        None => None,
    }
}

/// Reads the fields of a parsed verdict.
pub fn read_verdict(verdict: &serde_json::Value) -> (r: Verdict)
    ensures
        r@ == verdict_of(json_tree(*verdict)),
{
    Verdict {
        p_solve: match member(verdict, "p_solve") {
            Some(value) => Some(copy_json(value)),
            None => None,
        },
        rule: field(verdict, "primary_rule"),
        boundary: field(verdict, "capability_boundary"),
    }
}

/// The verdict in a parsed judge reply, for the log.
pub fn verdict_in(reply: &serde_json::Value) -> (r: Option<Verdict>)
    ensures
        match r {
            Some(verdict) => told(json_tree(*reply)) == Some(verdict@),
            None => told(json_tree(*reply)) is None,
        },
{
    let content = match reply_content(reply) {
        Some(content) => content,
        None => return None,
    };
    match parse_json(content.as_str().as_bytes()) {
        Ok(verdict) => Some(read_verdict(&verdict)),
        Err(_) => None,
    }
}

/// The verdict in a judge reply, for the log.
pub fn log_judge_verdict(body: &[u8]) -> (r: Option<Verdict>)
    ensures
        match r {
            Some(verdict) => logged(body@) == Some(verdict@),
            None => logged(body@) is None,
        },
{
    match parse_json(body) {
        Ok(reply) => verdict_in(&reply),
        Err(_) => None,
    }
}

/// The callout uses the first document that an address brings, and no address
/// after it is asked; when none brings one, the message of the last attempt is
/// what is left, and without attempts that none was made.
pub proof fn callout_uses_the_first_document(attempts: Seq<(Seq<char>, AttemptView)>, at: int)
    requires
        0 <= at <= attempts.len(),
        forall|i: int| 0 <= i < at ==> replied((#[trigger] attempts[i]).0, attempts[i].1) is Err,
        at < attempts.len() ==> replied(attempts[at].0, attempts[at].1) is Ok,
    ensures
        at < attempts.len() ==> callout(attempts) == replied(attempts[at].0, attempts[at].1),
        at == attempts.len() ==> callout(attempts) == (if attempts.len() == 0 {
            Err("no address attempted"@)
        } else {
            replied(attempts.last().0, attempts.last().1)
        }),
{
    callout_from_uses_the_first_document("no address attempted"@, attempts, at);
}

proof fn callout_from_uses_the_first_document(
    last: Seq<char>,
    attempts: Seq<(Seq<char>, AttemptView)>,
    at: int,
)
    requires
        0 <= at <= attempts.len(),
        forall|i: int| 0 <= i < at ==> replied((#[trigger] attempts[i]).0, attempts[i].1) is Err,
        at < attempts.len() ==> replied(attempts[at].0, attempts[at].1) is Ok,
    ensures
        at < attempts.len() ==> callout_from(last, attempts) == replied(
            attempts[at].0,
            attempts[at].1,
        ),
        at == attempts.len() ==> callout_from(last, attempts) == (if attempts.len() == 0 {
            Err(last)
        } else {
            replied(attempts.last().0, attempts.last().1)
        }),
    decreases attempts.len(),
{
    if at > 0 {
        assert(replied(attempts[0].0, attempts[0].1) is Err);
        let rest = attempts.drop_first();
        assert forall|i: int| 0 <= i < at - 1 implies replied(
            (#[trigger] rest[i]).0,
            rest[i].1,
        ) is Err by {
            assert(rest[i] == attempts[i + 1]);
        }
        callout_from_uses_the_first_document(
            replied(attempts[0].0, attempts[0].1)->Err_0,
            rest,
            at - 1,
        );
        if rest.len() > 0 {
            assert(rest.last() == attempts.last());
        } else {
            assert(attempts.last() == attempts[0]);
        }
    }
}

/// An attempt brings the document of a reply with a status from 200 to 299 that
/// parses, as it is, and nothing else does: a failed exchange, another status
/// and a body that is no JSON are told with the address and what there is to
/// say of them, and lead on to the next address.
pub proof fn attempts_bring_the_document_of_a_good_reply(
    addr: Seq<char>,
    status: u16,
    body: Seq<u8>,
    error: Seq<char>,
)
    ensures
        ({
            let attempt = AttemptView::Replied { status, body };
            let good = 200 <= status <= 299;
            &&& good && parsed_json(body) is Ok ==> replied(addr, attempt) == Ok::<
                JsonTree,
                Seq<char>,
            >(parsed_json(body)->Ok_0)
            &&& good && parsed_json(body) is Err ==> replied(addr, attempt) == Err::<
                JsonTree,
                Seq<char>,
            >(
                "judge_non_json from "@ + addr + ": "@ + parsed_json(body)->Err_0 + "; "@ + (
                "body_len="@ + decimal_text(body.len()) + " preview="@ + quoted_text(
                    preview(body),
                )),
            )
            &&& !good ==> replied(addr, attempt) == Err::<JsonTree, Seq<char>>(
                "HTTP "@ + decimal_text(status as nat) + " from "@ + addr + " "@ + ("body_len="@
                    + decimal_text(body.len()) + " preview="@ + quoted_text(preview(body))),
            )
        }),
        replied(addr, AttemptView::Failed(error)) == Err::<JsonTree, Seq<char>>(
            addr + ": "@ + error,
        ),
        preview(body).is_prefix_of(lossy_text(body)),
        lossy_text(body).len() <= 200 ==> preview(body) == lossy_text(body),
        lossy_text(body).len() > 200 ==> preview(body).len() == 200,
{
}

/// The callout comes to the document of the first address that brings one,
/// whatever the addresses after it would say; and where none does, to what is
/// told of the last.
pub proof fn the_first_good_reply_decides(
    attempts: Seq<(Seq<char>, AttemptView)>,
    at: int,
    status: u16,
    body: Seq<u8>,
)
    requires
        0 <= at < attempts.len(),
        attempts[at].1 == (AttemptView::Replied { status, body }),
        200 <= status <= 299,
        forall|i: int|
            0 <= i < at ==> (#[trigger] attempts[i]).1 is Failed || !(200
                <= attempts[i].1->Replied_status <= 299) || parsed_json(
                attempts[i].1->Replied_body,
            ) is Err,
    ensures
        parsed_json(body) is Ok ==> callout(attempts) == Ok::<JsonTree, Seq<char>>(
            parsed_json(body)->Ok_0,
        ),
        parsed_json(body) is Err && at == attempts.len() - 1 ==> callout(attempts) == replied(
            attempts[at].0,
            attempts[at].1,
        ),
        callout(Seq::empty()) == Err::<JsonTree, Seq<char>>("no address attempted"@),
{
    assert forall|i: int| 0 <= i < at implies replied((#[trigger] attempts[i]).0, attempts[i].1) is Err by {
        if attempts[i].1 is Replied {
            let a = attempts[i].1->Replied_status;
        }
    }
    if parsed_json(body) is Ok {
        callout_uses_the_first_document(attempts, at);
    } else if at == attempts.len() - 1 {
        assert forall|i: int| 0 <= i < at + 1 implies replied(
            (#[trigger] attempts[i]).0,
            attempts[i].1,
        ) is Err by {
            if i < at {
                assert(replied(attempts[i].0, attempts[i].1) is Err);
            }
        }
        callout_uses_the_first_document(attempts, at + 1);
    }
}

/// One attempt of a callout brings its document, or leaves what is told of it;
/// once no address is left, that is the judge's failure.
pub proof fn a_callout_keeps_what_was_told_last(
    callout: &mut JudgeCallout,
    addr: &str,
    attempt: Attempt,
    r: Option<serde_json::Value>,
    fresh: JudgeCallout,
    over: JudgeCallout,
    left: RouteError,
)
    requires
        call_ensures(JudgeCallout::record, (callout, addr, attempt), r),
        call_ensures(JudgeCallout::new, (), fresh),
        call_ensures(JudgeCallout::exhausted, (over,), left),
    ensures
        attempt matches Attempt::Failed(why) ==> r is None && final(callout).last() == addr@ + ": "@
            + why@,
        attempt matches Attempt::Replied { status, body } ==> {
            &&& 200 <= status <= 299 && parsed_json(body@) is Ok ==> r is Some && json_tree(
                r->Some_0,
            ) == parsed_json(body@)->Ok_0
            &&& !(200 <= status <= 299) || parsed_json(body@) is Err ==> r is None
        },
        r is Some ==> final(callout).last() == old(callout).last(),
        r is None ==> Err::<JsonTree, Seq<char>>(final(callout).last()) == replied(
            addr@,
            attempt@,
        ),
        fresh.last() == "no address attempted"@,
        left@ == RouteFault::Judge(over.last()),
{
    if attempt is Replied {
        let view = attempt@;
        attempts_bring_the_document_of_a_good_reply(
            addr@,
            view->Replied_status,
            view->Replied_body,
            Seq::empty(),
        );
    }
}

/// The tier of a run is the one that its tag names; a tag that names none, an
/// error of the run and a run without a decision are failures, each its own.
pub proof fn the_tag_of_a_run_names_the_tier(
    result: Result<String, StepFailure>,
    r: Result<Tier, RouteError>,
)
    requires
        call_ensures(decide, (result,), r),
    ensures
        result matches Ok(tag) ==> {
            &&& tag@ == "weak"@ ==> r == Ok::<Tier, RouteError>(Tier::Weak)
            &&& tag@ == "strong"@ ==> r == Ok::<Tier, RouteError>(Tier::Strong)
            &&& tag@ != "weak"@ && tag@ != "strong"@ ==> (r matches Err(
                RouteError::UnknownTier(told),
            ) && told@ == tag@)
        },
        result matches Err(StepFailure::Run(why)) ==> (r matches Err(RouteError::Run(told))
            && told@ == why@),
        result matches Err(StepFailure::NoDecision) ==> (r matches Err(RouteError::NoDecision)),
{
    reveal_strlit("weak");
    reveal_strlit("strong");
    assert("weak"@.len() != "strong"@.len());
    if r is Err {
        let fault = r->Err_0@;
    }
}

/// From the steps of a run to the tier: the first routed step decides, by the
/// tag that it selects.
pub proof fn the_first_routed_step_decides_the_tier(
    steps: Seq<StepView>,
    at: int,
    tag: Seq<char>,
)
    requires
        0 <= at < steps.len(),
        forall|i: int|
            0 <= i < at ==> ((#[trigger] steps[i]) matches StepView::Decision { routed, .. }
                && !routed) || (steps[i] matches StepView::Call { routed, .. } && !routed),
        steps[at] == (StepView::Decision { routed: true, tag }) || steps[at] == (StepView::Call {
            routed: true,
            tag,
        }),
    ensures
        tag == "weak"@ ==> decision(run(steps)) == Ok::<Tier, RouteFault>(Tier::Weak),
        tag == "strong"@ ==> decision(run(steps)) == Ok::<Tier, RouteFault>(Tier::Strong),
        tag != "weak"@ && tag != "strong"@ ==> decision(run(steps)) == Err::<Tier, RouteFault>(
            RouteFault::UnknownTier(tag),
        ),
{
    reveal_strlit("weak");
    reveal_strlit("strong");
    assert("weak"@.len() != "strong"@.len());
    a_run_comes_to_the_tag_of_its_routed_step(steps, at, tag, Seq::empty());
}

/// The classifier is built with the configured threshold and with the tags that
/// its decisions are read by.
pub proof fn the_classifier_is_built_as_configured(
    config: RouteConfig,
    r: ClassifierSettings,
    words: &str,
    rejected: ConfigError,
)
    requires
        call_ensures(build_algorithm, (&config,), r),
        call_ensures(classifier_rejected, (words,), rejected),
    ensures
        r.threshold.bits == config.threshold.bits,
        r.efficient@ == "weak"@,
        r.capable@ == "strong"@,
        r.judge@ == "judge"@,
        !r.session_affinity,
        rejected.message@ == "switchyard config rejected: "@ + words@,
{
}

/// What the outside work of a callout brings is passed on, and its failures are
/// the judge's, told in its own words. Only a reply that cannot be translated
/// ends a callout before its addresses do.
pub proof fn judge_outcomes_are_passed_on<T>(
    translated: Result<T, String>,
    response: Result<T, JudgeAttemptError>,
    respond: Result<(), String>,
    responded: Result<(), RouteError>,
    wire: Result<serde_json::Value, String>,
    encoded: Result<Vec<u8>, RouteError>,
    host: &str,
    found: Result<usize, String>,
    resolved: Result<(), RouteError>,
)
    requires
        call_ensures(decode_judge_aggregated::<T>, (translated,), response),
        call_ensures(respond_judge, (respond,), responded),
        call_ensures(encode_judge_request, (wire,), encoded),
        call_ensures(resolve_judge_addrs, (host, found), resolved),
    ensures
        translated matches Ok(value) ==> response == Ok::<T, JudgeAttemptError>(value),
        translated matches Err(why) ==> (response matches Err(JudgeAttemptError::Fatal(fault))
            && fault@ == RouteFault::Judge("response translation failed: "@ + why@)),
        respond is Ok ==> responded is Ok,
        respond matches Err(why) ==> responded is Err && responded->Err_0@ == RouteFault::Judge(
            "failed to deliver judge response: "@ + why@,
        ),
        wire matches Ok(value) ==> encoded is Ok && encoded->Ok_0@ == json_bytes(
            json_tree(value),
        ),
        wire matches Err(why) ==> encoded is Err && encoded->Err_0@ == RouteFault::Judge(
            "request encoding failed: "@ + why@,
        ),
        resolved is Ok <==> found is Ok && found->Ok_0 >= 1,
        found is Ok && found->Ok_0 == 0 ==> resolved->Err_0@ == RouteFault::Judge(
            "no addresses resolved for "@ + host@,
        ),
        found matches Err(why) ==> resolved->Err_0@ == RouteFault::Judge(
            "DNS resolution failed for "@ + host@ + ": "@ + why@,
        ),
{
}

/// A verdict is read from the text at `choices`, first item (or member `0`),
/// `message`, `content` of a reply, where that text is JSON: its rule and its boundary
/// where they are texts and question marks where not, and its estimate as it
/// is.
pub proof fn verdicts_are_read_from_the_reply(
    reply: JsonTree,
    items: Seq<JsonTree>,
    message: JsonTree,
    content: Seq<char>,
    verdict: JsonTree,
    rule: Seq<char>,
)
    requires
        (member_of(reply, "choices"@) == Some(JsonTree::List(items)) && items.len() > 0
            && member_of(items[0], "message"@) == Some(message)) || (member_of(
            reply,
            "choices"@,
        ) is Some && !(member_of(reply, "choices"@)->Some_0 is List) && member_of(
            member_of(reply, "choices"@)->Some_0,
            "0"@,
        ) is Some && member_of(
            member_of(member_of(reply, "choices"@)->Some_0, "0"@)->Some_0,
            "message"@,
        ) == Some(message)),
        member_of(message, "content"@) == Some(JsonTree::Text(content)),
    ensures
        parsed_json(encode_utf8(content)) is Err ==> told(reply) is None,
        parsed_json(encode_utf8(content)) == Ok::<JsonTree, Seq<char>>(verdict) ==> {
            &&& told(reply) is Some
            &&& told(reply)->Some_0.p_solve == member_of(verdict, "p_solve"@)
            &&& member_of(verdict, "primary_rule"@) == Some(JsonTree::Text(rule)) ==> told(
                reply,
            )->Some_0.rule == rule
            &&& !(member_of(verdict, "primary_rule"@) matches Some(JsonTree::Text(_))) ==> told(
                reply,
            )->Some_0.rule == "?"@
            &&& member_of(verdict, "capability_boundary"@) == Some(JsonTree::Text(rule)) ==> told(
                reply,
            )->Some_0.boundary == rule
            &&& !(member_of(verdict, "capability_boundary"@) matches Some(JsonTree::Text(_)))
                ==> told(reply)->Some_0.boundary == "?"@
        },
{
}

/// A reply without such a text has no verdict, and neither has one that is not
/// JSON.
pub proof fn other_replies_have_no_verdict(
    reply: JsonTree,
    items: Seq<JsonTree>,
    body: &[u8],
    r: Option<Verdict>,
)
    requires
        call_ensures(log_judge_verdict, (body,), r),
    ensures
        member_of(reply, "choices"@) is None ==> told(reply) is None,
        member_of(reply, "choices"@) == Some(JsonTree::List(items)) && items.len() == 0 ==> told(
            reply,
        ) is None,
        member_of(reply, "choices"@) == Some(JsonTree::List(items)) && items.len() > 0
            && member_of(items[0], "message"@) is None ==> told(reply) is None,
        member_of(reply, "choices"@) == Some(JsonTree::List(items)) && items.len() > 0
            && member_of(items[0], "message"@) is Some && !(member_of(
            member_of(items[0], "message"@)->Some_0,
            "content"@,
        ) matches Some(JsonTree::Text(_))) ==> told(reply) is None,
        member_of(reply, "choices"@) is Some && !(member_of(reply, "choices"@)->Some_0 is List)
            && member_of(member_of(reply, "choices"@)->Some_0, "0"@) is None ==> told(
            reply,
        ) is None,
        DEFAULT_MAX_BODY_BYTES == 1024 * 1024,
        parsed_json(body@) is Err ==> r is None,
        parsed_json(body@) matches Ok(tree) ==> (r is Some <==> told(tree) is Some),
        parsed_json(body@) matches Ok(tree) ==> (r is Some ==> r->Some_0@ == told(tree)->Some_0),
{
}

} // verus!
