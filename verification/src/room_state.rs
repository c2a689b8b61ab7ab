//! Sending and reading state events.

use crate::config::Config;
use crate::content::read_as;
use crate::error::{failure, seen, Error, ErrorKind, ErrorView};
use crate::json::{raw_json, raw_of, trimmed, JsonObject, JsonValue, JsonValueView};
use crate::policy::{
    allowed_to_send_state_event, state_verdict, Facts, FactsView, Question, QuestionView, Verdict,
    VerdictView,
};
use crate::sending::{PduBuilder, PduView};
use vstd::prelude::*;
use vstd::string::*;

verus! {

/// A request to send a state event. `body` is the JSON text of its content, and
/// `timestamp` the time of
/// [`effective_timestamp`](crate::messages::effective_timestamp).
#[derive(Debug)]
pub struct StateRequest {
    pub room_id: String,
    pub sender_user: String,
    pub event_type: String,
    pub state_key: String,
    pub timestamp: Option<u64>,
    pub body: String,
}

/// What a [`StateRequest`] says.
pub struct StateRequestView {
    pub room_id: Seq<char>,
    pub sender_user: Seq<char>,
    pub event_type: Seq<char>,
    pub state_key: Seq<char>,
    pub timestamp: Option<u64>,
    pub body: Seq<char>,
}

impl View for StateRequest {
    type V = StateRequestView;

    open spec fn view(&self) -> StateRequestView {
        StateRequestView {
            room_id: self.room_id@,
            sender_user: self.sender_user@,
            event_type: self.event_type@,
            state_key: self.state_key@,
            timestamp: self.timestamp,
            body: self.body@,
        }
    }
}

/// A request that the policy has accepted.
#[derive(Debug)]
pub struct AcceptedState {
    request: StateRequest,
}

impl View for AcceptedState {
    type V = StateRequestView;

    closed spec fn view(&self) -> StateRequestView {
        self.request@
    }
}

/// What the event policy makes of a request.
#[derive(Debug)]
pub enum StateStep {
    /// It depends on the answer; enter it into the facts and ask again.
    Ask { request: StateRequest, question: Question },
    /// The event is not sent.
    Refused { error: Error },
    /// The event may be sent.
    Accepted { state: AcceptedState },
}

/// What a [`StateStep`] says.
pub enum StateStepView {
    Ask { request: StateRequestView, question: QuestionView },
    Refused { error: ErrorView },
    Accepted { state: StateRequestView },
}

impl View for StateStep {
    type V = StateStepView;

    open spec fn view(&self) -> StateStepView {
        match *self {
            StateStep::Ask { request, question } => StateStepView::Ask {
                request: request@,
                question: question@,
            },
            StateStep::Refused { error } => StateStepView::Refused { error: error@ },
            StateStep::Accepted { state } => StateStepView::Accepted { state: state@ },
        }
    }
}

/// How a request begins.
pub open spec fn state_step(
    config: Config,
    request: StateRequestView,
    facts: FactsView,
) -> StateStepView {
    match state_verdict(
        config,
        request.room_id,
        request.event_type,
        request.state_key,
        request.body,
        facts,
    ) {
        VerdictView::Ask(question) => StateStepView::Ask { request, question },
        VerdictView::Decided(Err(error)) => StateStepView::Refused { error },
        VerdictView::Decided(Ok(_)) => StateStepView::Accepted { state: request },
    }
}

/// The event that is appended to the room, or the complaint about its content,
/// of which `raw` was read.
pub open spec fn state_pdu(
    request: StateRequestView,
    raw: Result<Seq<char>, Seq<char>>,
) -> Result<PduView, Seq<char>> {
    match raw {
        Ok(content) => Ok(
            PduView {
                sender_user: request.sender_user,
                room_id: request.room_id,
                event_type: request.event_type,
                content,
                unsigned: None,
                state_key: Some(request.state_key),
                redacts: None,
                timestamp: request.timestamp,
            },
        ),
        Err(complaint) => Err(complaint),
    }
}

/// Begins to answer a request to send a state event: asks the event policy about
/// it.
pub fn send_state_event_for_key_helper(
    config: &Config,
    request: StateRequest,
    facts: &Facts,
) -> (step: StateStep)
    ensures
        step@ == state_step(*config, request@, facts@),
{
    match allowed_to_send_state_event(
        config,
        &request.room_id,
        request.event_type.as_str(),
        request.state_key.as_str(),
        request.body.as_str(),
        facts,
    ) {
        Verdict::Ask(question) => StateStep::Ask { request, question },
        Verdict::Decided(Err(error)) => StateStep::Refused { error },
        Verdict::Decided(Ok(())) => StateStep::Accepted { state: AcceptedState { request } },
    }
}

impl AcceptedState {
    /// The event that is to be appended to the room, or the complaint about its
    /// content.
    pub fn prepare(self) -> (pdu: Result<PduBuilder, String>)
        ensures
            read_as(pdu) == state_pdu(self@, raw_of(self@.body)),
            pdu is Ok ==> pdu->Ok_0@.content == trimmed(self@.body),
    {
        let raw = raw_json(self.request.body.as_str());
        self.compose(raw)
    }

    /// The event that is to be appended to the room, of whose content `raw` was
    /// read.
    pub fn compose(self, raw: Result<String, String>) -> (pdu: Result<PduBuilder, String>)
        ensures
            read_as(pdu) == state_pdu(self@, read_as(raw)),
    {
        match raw {
            Ok(content) => Ok(
                PduBuilder {
                    sender_user: self.request.sender_user,
                    room_id: self.request.room_id,
                    event_type: self.request.event_type,
                    content,
                    unsigned: None,
                    state_key: Some(self.request.state_key),
                    redacts: None,
                    timestamp: self.request.timestamp,
                },
            ),
            Err(complaint) => Err(complaint),
        }
    }
}

/// The answer to a request for an empty state key that cannot be read.
pub fn unreadable_state_request(complaint: &str) -> (error: Error)
    ensures
        error@ == failure(ErrorKind::BadJson, "Invalid state event request: "@ + complaint@),
{
    Error {
        kind: ErrorKind::BadJson,
        message: "Invalid state event request: ".to_owned().concat(complaint),
    }
}

/// Whether a user may read all state of a room: `visible` says whether they can
/// see it.
pub fn check_state_visible(visible: bool) -> (result: Result<(), Error>)
    ensures
        seen(result) == (if visible {
            Ok(())
        } else {
            Err(
                failure(
                    ErrorKind::Forbidden,
                    "You don't have permission to view the room state."@,
                ),
            )
        }),
{
    if visible {
        Ok(())
    } else {
        Err(
            Error::new(
                ErrorKind::Forbidden,
                "You don't have permission to view the room state.",
            ),
        )
    }
}

/// A state event of a room. `content` and `unsigned` are JSON texts.
#[derive(Debug)]
pub struct StateEvent {
    pub content: String,
    pub event_id: String,
    pub origin_server_ts: u64,
    pub room_id: String,
    pub sender: String,
    pub state_key: Option<String>,
    pub event_type: String,
    pub unsigned: Option<String>,
}

/// What a [`StateEvent`] says.
pub struct StateEventView {
    pub content: Seq<char>,
    pub event_id: Seq<char>,
    pub origin_server_ts: u64,
    pub room_id: Seq<char>,
    pub sender: Seq<char>,
    pub state_key: Option<Seq<char>>,
    pub event_type: Seq<char>,
    pub unsigned: Option<Seq<char>>,
}

impl DeepView for StateEvent {
    type V = StateEventView;

    open spec fn deep_view(&self) -> StateEventView {
        StateEventView {
            content: self.content@,
            event_id: self.event_id@,
            origin_server_ts: self.origin_server_ts,
            room_id: self.room_id@,
            sender: self.sender@,
            state_key: self.state_key.deep_view(),
            event_type: self.event_type@,
            unsigned: self.unsigned.deep_view(),
        }
    }
}

/// In which form a state event is asked for.
#[derive(Clone, Copy, Debug, PartialEq, Eq, Structural)]
pub enum StateFormat {
    /// Its content only, which is what is given unless asked otherwise.
    Content,
    /// The whole event.
    Event,
}

/// A state event, in the form in which it was asked for.
#[derive(Debug)]
pub enum StateReply {
    /// The JSON text of the content.
    Content(String),
    /// The members of the event.
    Event(JsonObject),
}

/// What a [`StateReply`] says.
pub enum StateReplyView {
    Content(Seq<char>),
    Event(Seq<(Seq<char>, JsonValueView)>),
}

impl DeepView for StateReply {
    type V = StateReplyView;

    open spec fn deep_view(&self) -> StateReplyView {
        match *self {
            StateReply::Content(json) => StateReplyView::Content(json@),
            StateReply::Event(members) => StateReplyView::Event(members.deep_view()),
        }
    }
}

/// The members of a state event.
pub open spec fn state_event_members(event: StateEventView) -> Seq<(Seq<char>, JsonValueView)> {
    seq![
        ("content"@, JsonValueView::Json(event.content)),
        ("event_id"@, JsonValueView::Text(event.event_id)),
        ("origin_server_ts"@, JsonValueView::Number(event.origin_server_ts)),
        ("room_id"@, JsonValueView::Text(event.room_id)),
        ("sender"@, JsonValueView::Text(event.sender)),
        (
            "state_key"@,
            match event.state_key {
                Some(state_key) => JsonValueView::Text(state_key),
                None => JsonValueView::Null,
            },
        ),
        ("type"@, JsonValueView::Text(event.event_type)),
        (
            "unsigned"@,
            match event.unsigned {
                Some(unsigned) => JsonValueView::Json(unsigned),
                None => JsonValueView::Null,
            },
        ),
    ]
}

/// The answer to a user who asks for a state event. Who cannot see the state of
/// the room is told that there is none.
pub open spec fn state_reply(
    visible: bool,
    found: Result<StateEventView, Seq<char>>,
    format: StateFormat,
) -> Result<StateReplyView, ErrorView> {
    if !visible {
        Err(
            failure(
                ErrorKind::NotFound,
                "You don't have permission to view the room state."@,
            ),
        )
    } else {
        match found {
            Err(complaint) => Err(
                failure(
                    ErrorKind::NotFound,
                    "Failed to get state event: "@ + complaint + "."@,
                ),
            ),
            Ok(event) => Ok(
                match format {
                    StateFormat::Event => StateReplyView::Event(state_event_members(event)),
                    StateFormat::Content => StateReplyView::Content(event.content),
                },
            ),
        }
    }
}

/// Answers a user who asks for a state event. `visible` says whether they can
/// see the state of the room, and `found` is what was found there, or the
/// complaint.
pub fn get_state_event_for_key(
    visible: bool,
    found: Result<StateEvent, String>,
    format: StateFormat,
) -> (result: Result<StateReply, Error>)
    ensures
        seen(result) == state_reply(visible, read_as(found), format),
{
    if !visible {
        return Err(
            Error::new(
                ErrorKind::NotFound,
                "You don't have permission to view the room state.",
            ),
        );
    }
    let event = match found {
        Ok(event) => event,
        Err(complaint) => {
            return Err(
                Error {
                    kind: ErrorKind::NotFound,
                    message: "Failed to get state event: ".to_owned().concat(
                        complaint.as_str(),
                    ).concat("."),
                },
            );
        },
    };
    match format {
        StateFormat::Event => Ok(StateReply::Event(state_event_to_json(event))),
        StateFormat::Content => Ok(StateReply::Content(event.content)),
    }
}

/// The members of a state event.
pub fn state_event_to_json(event: StateEvent) -> (members: JsonObject)
    ensures
        members.deep_view() == state_event_members(event.deep_view()),
{
    let ghost view = event.deep_view();
    let state_key = match event.state_key {
        Some(state_key) => JsonValue::Text(state_key),
        None => JsonValue::Null,
    };
    let unsigned = match event.unsigned {
        Some(unsigned) => JsonValue::Json(unsigned),
        None => JsonValue::Null,
    };
    let members: JsonObject = vec![
        ("content".to_owned(), JsonValue::Json(event.content)),
        ("event_id".to_owned(), JsonValue::Text(event.event_id)),
        ("origin_server_ts".to_owned(), JsonValue::Number(event.origin_server_ts)),
        ("room_id".to_owned(), JsonValue::Text(event.room_id)),
        ("sender".to_owned(), JsonValue::Text(event.sender)),
        ("state_key".to_owned(), state_key),
        ("type".to_owned(), JsonValue::Text(event.event_type)),
        ("unsigned".to_owned(), unsigned),
    ];
    assert(members.deep_view() =~= state_event_members(view));
    members
}

/// What an accepted state event holds is the request.
proof fn lemma_view_of_accepted(state: AcceptedState)
    ensures
        state@ == state.request@,
{
}

} // verus!
