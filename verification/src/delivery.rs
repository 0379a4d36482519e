//! Deliveries: the requests that carry a notification, and the steps that lead from a
//! notification to the outcome of its delivery.
use crate::json::{json_of, Json};
use crate::reply::{outcome, response_result, result_view, StatusCode};
use serde_json::Value;
use vstd::prelude::*;

verus! {

/// The method of a request.
#[derive(Clone, Copy, Debug, PartialEq, Eq, Structural)]
pub enum Method {
    Get,
    Post,
}

/// The body of a request.
pub enum Body {
    Empty,
    Text(String),
    Json(Value),
}

/// An HTTP request.
pub struct Request {
    pub method: Method,
    pub url: String,
    /// Names and values, in the order in which they are sent.
    pub headers: Vec<(String, String)>,
    pub body: Body,
}

/// What the body of a request holds.
pub enum BodyView {
    Empty,
    Text(Seq<char>),
    Json(Json),
}

/// What a request holds.
#[verifier::ext_equal]
pub struct RequestView {
    pub method: Method,
    pub url: Seq<char>,
    pub headers: Seq<(Seq<char>, Seq<char>)>,
    pub body: BodyView,
}

/// The views of headers.
pub open spec fn header_views(headers: Seq<(String, String)>) -> Seq<(Seq<char>, Seq<char>)> {
    headers.map_values(|header: (String, String)| (header.0@, header.1@))
}

impl View for Body {
    type V = BodyView;

    open spec fn view(&self) -> BodyView {
        match *self {
            Body::Empty => BodyView::Empty,
            Body::Text(text) => BodyView::Text(text@),
            Body::Json(value) => BodyView::Json(json_of(value)),
        }
    }
}

impl View for Request {
    type V = RequestView;

    open spec fn view(&self) -> RequestView {
        RequestView {
            method: self.method,
            url: self.url@,
            headers: header_views(self.headers@),
            body: self.body@,
        }
    }
}

/// A message of a WeCom application on its way.
pub struct WecomMessage {
    pub corp_id: String,
    pub secret: String,
    pub payload: Value,
    /// Whether the message was sent before and its access token refused.
    pub retried: bool,
}

/// What a message of a WeCom application holds.
#[verifier::ext_equal]
pub struct WecomMessageView {
    pub corp_id: Seq<char>,
    pub secret: Seq<char>,
    pub payload: Json,
    pub retried: bool,
}

impl View for WecomMessage {
    type V = WecomMessageView;

    open spec fn view(&self) -> WecomMessageView {
        WecomMessageView {
            corp_id: self.corp_id@,
            secret: self.secret@,
            payload: json_of(self.payload),
            retried: self.retried,
        }
    }
}

/// What an answer is awaited for.
pub enum Pending {
    /// The answer decides the delivery. `failure` begins the report of a request that got
    /// no answer.
    Message { label: String, failure: String },
    /// The message of a WeCom application was posted.
    Wecom(WecomMessage),
}

/// What an answer is awaited for.
#[verifier::ext_equal]
pub enum PendingView {
    Message { label: Seq<char>, failure: Seq<char> },
    Wecom(WecomMessageView),
}

impl View for Pending {
    type V = PendingView;

    open spec fn view(&self) -> PendingView {
        match *self {
            Pending::Message { label, failure } => PendingView::Message {
                label: label@,
                failure: failure@,
            },
            Pending::Wecom(message) => PendingView::Wecom(message@),
        }
    }
}

/// What a delivery needs next.
pub enum Step {
    /// Nothing: the delivery is over.
    Done(Result<String, String>),
    /// The request is to be sent.
    Send(Request, Pending),
    /// An access token of WeCom is to be fetched for the message.
    WecomToken(WecomMessage),
    /// The request for an access token of DingTalk is to be sent; with the token, the
    /// payload is to be sent.
    DingtalkToken(Request, Value),
}

/// What a delivery needs next.
#[verifier::ext_equal]
pub enum StepView {
    Done(Result<Seq<char>, Seq<char>>),
    Send(RequestView, PendingView),
    WecomToken(WecomMessageView),
    DingtalkToken(RequestView, Json),
}

impl View for Step {
    type V = StepView;

    open spec fn view(&self) -> StepView {
        match *self {
            Step::Done(result) => StepView::Done(result_view(result)),
            Step::Send(request, pending) => StepView::Send(request@, pending@),
            Step::WecomToken(message) => StepView::WecomToken(message@),
            Step::DingtalkToken(request, payload) => StepView::DingtalkToken(
                request@,
                json_of(payload),
            ),
        }
    }
}

/// What came of a request.
pub enum Reply {
    /// No answer, for this reason.
    Failed(String),
    /// An answer: its status and its body.
    Answered(StatusCode, String),
}

/// A delivery that is over without a request: nothing was to be sent.
pub open spec fn skipped(text: Seq<char>) -> StepView {
    StepView::Done(Ok(text))
}

/// A delivery that is over without a request: it cannot be made.
pub open spec fn refused(text: Seq<char>) -> StepView {
    StepView::Done(Err(text))
}

pub(crate) fn skip(text: &str) -> (step: Step)
    ensures
        step@ == skipped(text@),
{
    Step::Done(Ok(text.to_owned()))
}

pub(crate) fn refuse(text: &str) -> (step: Step)
    ensures
        step@ == refused(text@),
{
    Step::Done(Err(text.to_owned()))
}

/// The request that posts JSON.
pub open spec fn json_post(url: Seq<char>, payload: Json) -> RequestView {
    RequestView {
        method: Method::Post,
        url,
        headers: seq![],
        body: BodyView::Json(payload),
    }
}

pub(crate) fn json_request(url: String, payload: Value) -> (request: Request)
    ensures
        request@ == json_post(url@, json_of(payload)),
{
    let request = Request {
        method: Method::Post,
        url,
        headers: Vec::new(),
        body: Body::Json(payload),
    };
    assert(request@.headers =~= seq![]);
    request
}

/// The beginning of the report of a message that got no answer.
pub open spec fn failure_text(label: Seq<char>) -> Seq<char> {
    "Failed to send "@ + label + " message: "@
}

/// The step that posts a message as JSON.
pub open spec fn json_step(label: Seq<char>, url: Seq<char>, payload: Json) -> StepView {
    StepView::Send(
        json_post(url, payload),
        PendingView::Message { label, failure: failure_text(label) },
    )
}

/// Posts a message as JSON.
pub fn post_json(label: &str, url: String, payload: Value) -> (step: Step)
    ensures
        step@ == json_step(label@, url@, json_of(payload)),
{
    let mut failure = "Failed to send ".to_owned();
    failure.append(label);
    failure.append(" message: ");
    Step::Send(
        json_request(url, payload),
        Pending::Message { label: label.to_owned(), failure },
    )
}

/// The outcome of a message, given what came of its request.
pub open spec fn message_outcome(label: Seq<char>, failure: Seq<char>, reply: Reply) -> Result<
    Seq<char>,
    Seq<char>,
> {
    match reply {
        Reply::Failed(reason) => Err(failure + reason@),
        Reply::Answered(status, body) => outcome(label, status.number(), body@),
    }
}

/// The outcome of a message, given what came of its request.
pub fn conclude_message(label: &str, failure: &str, reply: Reply) -> (result: Result<
    String,
    String,
>)
    ensures
        result_view(result) == message_outcome(label@, failure@, reply),
{
    match reply {
        Reply::Failed(reason) => {
            let mut text = failure.to_owned();
            text.append(reason.as_str());
            Err(text)
        },
        Reply::Answered(status, body) => response_result(label, status, body),
    }
}

} // verus!
