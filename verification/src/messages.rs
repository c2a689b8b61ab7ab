//! Sending a message-like event at once.
//!
//! A request goes through three steps: unless its transaction was answered
//! before, the event policy refuses it or makes an [`AcceptedMessage`] of it;
//! that becomes a [`PendingMessage`] with the event that is to be appended to the
//! room; and the outcome of appending it concludes the request. The steps after
//! the first are taken while nothing else is sent to the room, so the second
//! looks at the transaction once more.

use crate::config::Config;
use crate::content::{
    event_id_text, is_event_id, message_kind, message_kind_of, read_as, read_redaction,
    redaction_of, MessageKind,
};
use crate::error::{failure, seen, Error, ErrorKind, ErrorView};
use crate::json::{raw_json, raw_of, trimmed, JsonObject, JsonValue, JsonValueView};
use crate::policy::{
    message_verdict, validate_message_event_policy, Facts, FactsView, Question, QuestionView,
    Verdict, VerdictView,
};
use crate::scheduling::{TxnRecord, TxnView};
use crate::sending::{PduBuilder, PduView};
use crate::text::{text_from_utf8, text_of};
use vstd::prelude::*;
use vstd::string::*;
use vstd::utf8::encode_utf8;

verus! {

/// A request to send a message-like event. `body` is the JSON text of its
/// content.
#[derive(Debug)]
pub struct MessageRequest {
    pub room_id: String,
    pub sender_user: String,
    pub sender_device: Option<String>,
    pub event_type: String,
    pub txn_id: String,
    /// Whether an application service sends it.
    pub from_appservice: bool,
    pub timestamp: Option<u64>,
    pub body: String,
}

/// What a [`MessageRequest`] says.
pub struct MessageView {
    pub room_id: Seq<char>,
    pub sender_user: Seq<char>,
    pub sender_device: Option<Seq<char>>,
    pub event_type: Seq<char>,
    pub txn_id: Seq<char>,
    pub from_appservice: bool,
    pub timestamp: Option<u64>,
    pub body: Seq<char>,
}

impl View for MessageRequest {
    type V = MessageView;

    open spec fn view(&self) -> MessageView {
        MessageView {
            room_id: self.room_id@,
            sender_user: self.sender_user@,
            sender_device: self.sender_device.deep_view(),
            event_type: self.event_type@,
            txn_id: self.txn_id@,
            from_appservice: self.from_appservice,
            timestamp: self.timestamp,
            body: self.body@,
        }
    }
}

/// A request that the policy has accepted.
#[derive(Debug)]
pub struct AcceptedMessage {
    request: MessageRequest,
}

impl View for AcceptedMessage {
    type V = MessageView;

    closed spec fn view(&self) -> MessageView {
        self.request@
    }
}

/// A request whose event is to be appended to the room.
#[derive(Debug)]
pub struct PendingMessage {
    request: MessageRequest,
}

impl View for PendingMessage {
    type V = MessageView;

    closed spec fn view(&self) -> MessageView {
        self.request@
    }
}

/// How a request begins.
#[derive(Debug)]
pub enum MessageStep {
    /// Its transaction was answered before; this is the answer.
    Finished { result: Result<String, Error> },
    /// It depends on the answer; enter it into the facts and ask again.
    Ask { request: MessageRequest, question: Question },
    /// The event is not sent.
    Refused { error: Error },
    /// The event may be sent.
    Accepted { message: AcceptedMessage },
}

/// What a [`MessageStep`] says.
pub enum MessageStepView {
    Finished { result: Result<Seq<char>, ErrorView> },
    Ask { request: MessageView, question: QuestionView },
    Refused { error: ErrorView },
    Accepted { message: MessageView },
}

impl View for MessageStep {
    type V = MessageStepView;

    open spec fn view(&self) -> MessageStepView {
        match *self {
            MessageStep::Finished { result } => MessageStepView::Finished { result: seen(result) },
            MessageStep::Ask { request, question } => MessageStepView::Ask {
                request: request@,
                question: question@,
            },
            MessageStep::Refused { error } => MessageStepView::Refused { error: error@ },
            MessageStep::Accepted { message } => MessageStepView::Accepted { message: message@ },
        }
    }
}

/// How an accepted request goes on.
#[derive(Debug)]
pub enum Prepared {
    /// There is nothing to send; this is the answer.
    Finished { result: Result<String, Error> },
    /// The event is to be appended to its room.
    Append { pending: PendingMessage, pdu: PduBuilder },
}

/// What a [`Prepared`] says.
pub enum PreparedView {
    Finished { result: Result<Seq<char>, ErrorView> },
    Append { pending: MessageView, pdu: PduView },
}

impl View for Prepared {
    type V = PreparedView;

    open spec fn view(&self) -> PreparedView {
        match *self {
            Prepared::Finished { result } => PreparedView::Finished { result: seen(result) },
            Prepared::Append { pending, pdu } => PreparedView::Append {
                pending: pending@,
                pdu: pdu@,
            },
        }
    }
}

/// How a request begins. `existing` is the answer that is remembered of its
/// transaction.
pub open spec fn message_step(
    config: Config,
    request: MessageView,
    existing: Option<Result<Seq<char>, ErrorView>>,
    facts: FactsView,
) -> MessageStepView {
    match existing {
        Some(result) => MessageStepView::Finished { result },
        None => match message_verdict(
            config,
            request.sender_user,
            request.event_type,
            request.body,
            request.room_id,
            facts,
        ) {
            VerdictView::Ask(question) => MessageStepView::Ask { request, question },
            VerdictView::Decided(Err(error)) => MessageStepView::Refused { error },
            VerdictView::Decided(Ok(_)) => MessageStepView::Accepted { message: request },
        },
    }
}

/// The answer that is remembered of a transaction. `text` is the text that is
/// remembered, where it is one, `names_event` says whether that is an event ID,
/// and `shown` is what the error message shows of the response.
pub open spec fn remembered_event(
    text: Option<Seq<char>>,
    names_event: bool,
    shown: Seq<char>,
) -> Result<Seq<char>, ErrorView> {
    match text {
        Some(text) => if names_event {
            Ok(text)
        } else {
            Err(
                failure(
                    ErrorKind::Database,
                    "Invalid event_id in txn_id data: "@ + shown + "."@,
                ),
            )
        },
        None => Err(
            failure(ErrorKind::Database, "Invalid event_id in txn_id data: "@ + shown + "."@),
        ),
    }
}

/// The answer to a request whose transaction was used before, where it was.
/// What was sent to a device has no response: that is another kind of request.
pub open spec fn existing_answer(response: Option<Seq<u8>>, shown: Seq<char>) -> Option<
    Result<Seq<char>, ErrorView>,
> {
    match response {
        None => None,
        Some(bytes) => if bytes.len() == 0 {
            Some(
                Err(
                    failure(
                        ErrorKind::InvalidParam,
                        "Tried to use txn_id already used for an incompatible endpoint."@,
                    ),
                ),
            )
        } else {
            Some(
                remembered_event(
                    text_of(bytes),
                    text_of(bytes) is Some && event_id_text(text_of(bytes)->0),
                    shown,
                ),
            )
        },
    }
}

/// An answer, with its event ID and its error taken by their views.
pub open spec fn seen_answer(answer: Option<Result<String, Error>>) -> Option<
    Result<Seq<char>, ErrorView>,
> {
    match answer {
        Some(result) => Some(seen(result)),
        None => None,
    }
}

/// The event that a redaction names in its content. `redaction` is what was read
/// of that.
pub open spec fn redacted_event(
    event_type: Seq<char>,
    redaction: Option<Option<Seq<char>>>,
) -> Option<Seq<char>> {
    if message_kind_of(event_type) == MessageKind::Redaction {
        match redaction {
            Some(redacts) => redacts,
            None => None,
        }
    } else {
        None
    }
}

/// The event that is appended to the room. Only an application service chooses
/// its time.
pub open spec fn message_pdu(
    request: MessageView,
    content: Seq<char>,
    redaction: Option<Option<Seq<char>>>,
) -> PduView {
    PduView {
        sender_user: request.sender_user,
        room_id: request.room_id,
        event_type: request.event_type,
        content,
        unsigned: Some(seq![("transaction_id"@, JsonValueView::Text(request.txn_id))]),
        state_key: None,
        redacts: redacted_event(request.event_type, redaction),
        timestamp: if request.from_appservice {
            request.timestamp
        } else {
            None
        },
    }
}

/// How an accepted request goes on. `existing` is the answer that is remembered,
/// `raw` and `redaction` are what was read of the content.
pub open spec fn prepared(
    request: MessageView,
    existing: Option<Result<Seq<char>, ErrorView>>,
    raw: Result<Seq<char>, Seq<char>>,
    redaction: Option<Option<Seq<char>>>,
) -> PreparedView {
    match existing {
        Some(result) => PreparedView::Finished { result },
        None => match raw {
            Err(complaint) => PreparedView::Finished {
                result: Err(failure(ErrorKind::BadJson, "Invalid JSON body: "@ + complaint)),
            },
            Ok(content) => PreparedView::Append {
                pending: request,
                pdu: message_pdu(request, content, redaction),
            },
        },
    }
}

/// What is remembered of a request whose event was appended.
pub open spec fn message_txn(request: MessageView, event_id: Seq<char>) -> TxnView {
    TxnView {
        sender_user: request.sender_user,
        sender_device: request.sender_device,
        txn_id: request.txn_id,
        response: encode_utf8(event_id),
    }
}

/// Begins to answer a request to send a message-like event. `existing` is the
/// answer that [`check_existing_txnid`] gives.
///
/// A request whose transaction was used before has no effect, and gets the same
/// event ID; of any other the event policy is asked. Of the content nothing is
/// required but that it is JSON.
pub fn send_message_event_helper(
    config: &Config,
    request: MessageRequest,
    existing: Option<Result<String, Error>>,
    facts: &Facts,
) -> (step: MessageStep)
    ensures
        step@ == message_step(*config, request@, seen_answer(existing), facts@),
{
    match existing {
        Some(result) => {
            return MessageStep::Finished { result };
        },
        None => {},
    }
    match validate_message_event_policy(
        config,
        request.sender_user.as_str(),
        request.event_type.as_str(),
        request.body.as_str(),
        request.room_id.as_str(),
        facts,
    ) {
        Verdict::Ask(question) => MessageStep::Ask { request, question },
        Verdict::Decided(Err(error)) => MessageStep::Refused { error },
        Verdict::Decided(Ok(())) => MessageStep::Accepted { message: AcceptedMessage { request } },
    }
}

/// The answer to a request whose transaction ID was used before, where it was.
/// `response` is what is remembered of the transaction, and `shown` is what the
/// error message shows of it.
pub fn check_existing_txnid(response: Option<Vec<u8>>, shown: &str) -> (answer: Option<
    Result<String, Error>,
>)
    ensures
        seen_answer(answer) == existing_answer(response.deep_view(), shown@),
{
    let bytes = match response {
        Some(bytes) => bytes,
        None => {
            return None;
        },
    };
    assert(bytes.deep_view() =~= bytes@);
    if bytes.len() == 0 {
        return Some(
            Err(
                Error::new(
                    ErrorKind::InvalidParam,
                    "Tried to use txn_id already used for an incompatible endpoint.",
                ),
            ),
        );
    }
    let text = text_from_utf8(bytes);
    let names_event = match &text {
        Some(text) => is_event_id(text.as_str()),
        None => false,
    };
    Some(judge_remembered_event(text, names_event, shown))
}

/// The answer that is remembered of a transaction. `names_event` says whether
/// the text is an event ID.
pub fn judge_remembered_event(
    text: Option<String>,
    names_event: bool,
    shown: &str,
) -> (result: Result<String, Error>)
    ensures
        seen(result) == remembered_event(text.deep_view(), names_event, shown@),
{
    match text {
        Some(text) => if names_event {
            return Ok(text);
        },
        None => {},
    }
    Err(
        Error {
            kind: ErrorKind::Database,
            message: "Invalid event_id in txn_id data: ".to_owned().concat(shown).concat("."),
        },
    )
}

impl AcceptedMessage {
    /// Goes on with the request. `response` is what is remembered of its
    /// transaction, and `shown` is what the error message shows of that.
    pub fn prepare(self, response: Option<Vec<u8>>, shown: &str) -> (step: Prepared)
        ensures
            step@ == prepared(
                self@,
                existing_answer(response.deep_view(), shown@),
                raw_of(self@.body),
                redaction_of(self@.body),
            ),
            step@ matches PreparedView::Append { pdu, .. } ==> pdu.content == trimmed(self@.body),
    {
        let existing = check_existing_txnid(response, shown);
        let raw = raw_json(self.request.body.as_str());
        let redaction = read_redaction(self.request.body.as_str());
        self.compose(existing, raw, redaction)
    }

    /// Goes on with the request. `existing` is the answer that is remembered of
    /// its transaction, `raw` and `redaction` are what was read of its content,
    /// as a JSON text and as a redaction.
    pub fn compose(
        self,
        existing: Option<Result<String, Error>>,
        raw: Result<String, String>,
        redaction: Option<Option<String>>,
    ) -> (step: Prepared)
        ensures
            step@ == prepared(
                self@,
                seen_answer(existing),
                read_as(raw),
                redaction.deep_view(),
            ),
    {
        match existing {
            Some(result) => {
                return Prepared::Finished { result };
            },
            None => {},
        }
        let content = match raw {
            Ok(content) => content,
            Err(complaint) => {
                return Prepared::Finished {
                    result: Err(
                        Error {
                            kind: ErrorKind::BadJson,
                            message: "Invalid JSON body: ".to_owned().concat(complaint.as_str()),
                        },
                    ),
                };
            },
        };
        let redacts = if message_kind(self.request.event_type.as_str())
            == MessageKind::Redaction {
            match redaction {
                Some(redacts) => redacts,
                None => None,
            }
        } else {
            None
        };
        let unsigned: JsonObject = vec![
            ("transaction_id".to_owned(), JsonValue::Text(self.request.txn_id.clone())),
        ];
        assert(unsigned.deep_view() =~= seq![
            ("transaction_id"@, JsonValueView::Text(self.request.txn_id@)),
        ]);
        let pdu = PduBuilder {
            sender_user: self.request.sender_user.clone(),
            room_id: self.request.room_id.clone(),
            event_type: self.request.event_type.clone(),
            content,
            unsigned: Some(unsigned),
            state_key: None,
            redacts,
            timestamp: effective_timestamp(self.request.from_appservice, self.request.timestamp),
        };
        Prepared::Append { pending: PendingMessage { request: self.request }, pdu }
    }
}

/// The time that the sender gives an event: only an application service may.
pub fn effective_timestamp(from_appservice: bool, timestamp: Option<u64>) -> (effective: Option<
    u64,
>)
    ensures
        effective == (if from_appservice {
            timestamp
        } else {
            None
        }),
{
    if from_appservice {
        timestamp
    } else {
        None
    }
}

impl PendingMessage {
    /// Concludes the request with the outcome of appending the event: once that
    /// succeeded, the event ID is remembered.
    pub fn appended<E>(self, appended: Result<String, E>) -> (outcome: (
        Result<String, E>,
        Option<TxnRecord>,
    ))
        ensures
            outcome.0 == appended,
            outcome.1.deep_view() == (match appended {
                Ok(event_id) => Some(message_txn(self@, event_id@)),
                Err(_) => None,
            }),
    {
        match appended {
            Ok(event_id) => {
                let txn = TxnRecord {
                    sender_user: self.request.sender_user,
                    sender_device: self.request.sender_device,
                    txn_id: self.request.txn_id,
                    response: event_id.as_str().as_bytes_vec(),
                };
                (Ok(event_id), Some(txn))
            },
            Err(error) => (Err(error), None),
        }
    }
}

/// What the steps of a message hold is the request.
proof fn lemma_views_of_messages(message: AcceptedMessage, pending: PendingMessage)
    ensures
        message@ == message.request@,
        pending@ == pending.request@,
{
}

} // verus!
