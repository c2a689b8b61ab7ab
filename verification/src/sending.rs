//! Sending a delayed event.
//!
//! A send goes through three steps, and each hands out what the next one needs:
//! [`Service::send_now`] decides whether there is anything to send and gives an
//! [`Attempt`]; the event policy, which is asked at this time and not earlier,
//! refuses the attempt ([`Refusal`]) or accepts it; what it accepts becomes a
//! [`Publication`], which is concluded with the outcome of appending the event
//! to the room.

use crate::config::Config;
use crate::content::read_as;
use crate::error::{seen, Error, ErrorKind, ErrorView};
use crate::event::{DelayedEvent, DelayedEventStatus, DelayedEventView};
use crate::json::{
    quote, quoted, raw_json, raw_of, trimmed, JsonObject, JsonValue, JsonValueView,
};
use crate::policy::{
    allowed_to_send_state_event, message_verdict, refused, state_verdict,
    validate_message_event_policy, Facts, FactsView, Question, QuestionView, Verdict, VerdictView,
};
use crate::service::{event_not_found, Service};
use crate::store::{Write, WriteView};
use vstd::prelude::*;
use vstd::string::*;

verus! {

/// Why a delayed event is to be sent.
#[derive(Clone, Copy, Debug, PartialEq, Eq, Structural)]
pub enum SendTrigger {
    /// Its sender asked for it: it is sent at once, whatever its timeout.
    Request,
    /// The worker found it in the queue of timeouts. It may have been restarted
    /// since then, so its timeout is looked at again.
    DueScan,
}

/// An event that is ready to be appended to its room, in the name of its sender.
#[derive(Debug)]
pub struct PduBuilder {
    pub sender_user: String,
    pub room_id: String,
    pub event_type: String,
    pub content: String,
    pub unsigned: Option<JsonObject>,
    pub state_key: Option<String>,
    pub redacts: Option<String>,
    pub timestamp: Option<u64>,
}

/// What a [`PduBuilder`] says.
pub struct PduView {
    pub sender_user: Seq<char>,
    pub room_id: Seq<char>,
    pub event_type: Seq<char>,
    pub content: Seq<char>,
    pub unsigned: Option<Seq<(Seq<char>, JsonValueView)>>,
    pub state_key: Option<Seq<char>>,
    pub redacts: Option<Seq<char>>,
    pub timestamp: Option<u64>,
}

impl View for PduBuilder {
    type V = PduView;

    open spec fn view(&self) -> PduView {
        PduView {
            sender_user: self.sender_user@,
            room_id: self.room_id@,
            event_type: self.event_type@,
            content: self.content@,
            unsigned: self.unsigned.deep_view(),
            state_key: self.state_key.deep_view(),
            redacts: self.redacts.deep_view(),
            timestamp: self.timestamp,
        }
    }
}

impl DeepView for PduBuilder {
    type V = PduView;

    open spec fn deep_view(&self) -> PduView {
        self@
    }
}

/// A delayed event on its way: it is out of the queue, and the event policy is
/// to be asked about it.
#[derive(Debug)]
pub struct Attempt {
    delay_id: String,
    event: DelayedEvent,
}

/// The delay ID of an attempt or a publication, with the event that is sent.
pub struct SendView {
    pub delay_id: Seq<char>,
    pub event: DelayedEventView,
}

impl View for Attempt {
    type V = SendView;

    closed spec fn view(&self) -> SendView {
        SendView { delay_id: self.delay_id@, event: self.event@ }
    }
}

/// A delayed event that the policy has refused.
#[derive(Debug)]
pub struct Refusal {
    attempt: Attempt,
    error: Error,
}

/// The attempt that was refused, with the error.
pub struct RefusalView {
    pub attempt: SendView,
    pub error: ErrorView,
}

impl View for Refusal {
    type V = RefusalView;

    closed spec fn view(&self) -> RefusalView {
        RefusalView { attempt: self.attempt@, error: self.error@ }
    }
}

/// A delayed event that the policy has accepted.
#[derive(Debug)]
pub struct Publication {
    delay_id: String,
    event: DelayedEvent,
}

impl View for Publication {
    type V = SendView;

    closed spec fn view(&self) -> SendView {
        SendView { delay_id: self.delay_id@, event: self.event@ }
    }
}

/// How a send begins. The writes are to be carried out either way.
#[derive(Debug)]
pub enum SendStart {
    /// There is nothing to send; this is the answer.
    Finished { result: Result<Option<String>, Error>, writes: Vec<Write> },
    /// The event policy is to be asked.
    Validate { attempt: Attempt, writes: Vec<Write> },
}

/// What a [`SendStart`] says.
pub enum SendStartView {
    Finished { result: Result<Option<Seq<char>>, ErrorView>, writes: Seq<WriteView> },
    Validate { attempt: SendView, writes: Seq<WriteView> },
}

impl View for SendStart {
    type V = SendStartView;

    open spec fn view(&self) -> SendStartView {
        match *self {
            SendStart::Finished { result, writes } => SendStartView::Finished {
                result: seen(result),
                writes: writes.deep_view(),
            },
            SendStart::Validate { attempt, writes } => SendStartView::Validate {
                attempt: attempt@,
                writes: writes.deep_view(),
            },
        }
    }
}

/// What the event policy makes of an attempt.
#[derive(Debug)]
pub enum SendStep {
    /// It depends on the answer; enter it into the facts and validate again.
    Ask { attempt: Attempt, question: Question },
    /// The event is not sent.
    Refused { refusal: Refusal },
    /// The event is to be appended to its room.
    Append { publication: Publication, pdu: PduBuilder },
}

/// What a [`SendStep`] says.
pub enum SendStepView {
    Ask { attempt: SendView, question: QuestionView },
    Refused { refusal: RefusalView },
    Append { publication: SendView, pdu: PduView },
}

impl View for SendStep {
    type V = SendStepView;

    open spec fn view(&self) -> SendStepView {
        match *self {
            SendStep::Ask { attempt, question } => SendStepView::Ask {
                attempt: attempt@,
                question: question@,
            },
            SendStep::Refused { refusal } => SendStepView::Refused { refusal: refusal@ },
            SendStep::Append { publication, pdu } => SendStepView::Append {
                publication: publication@,
                pdu: pdu@,
            },
        }
    }
}

/// How a send begins, given what is stored under the delay ID.
pub open spec fn send_start(
    delay_id: Seq<char>,
    sender_user: Seq<char>,
    stored: Option<DelayedEventView>,
    now: u64,
    trigger: SendTrigger,
) -> SendStartView {
    match stored {
        None => SendStartView::Finished { result: Ok(None), writes: Seq::empty() },
        Some(event) => if event.sender_user != sender_user {
            SendStartView::Finished { result: Err(event_not_found()), writes: Seq::empty() }
        } else if !event.scheduled() {
            SendStartView::Finished { result: Ok(event.event_id), writes: Seq::empty() }
        } else if trigger == SendTrigger::DueScan && event.timeout > now {
            SendStartView::Finished {
                result: Ok(None),
                writes: seq![WriteView::PutTimeout { timeout: event.timeout, delay_id }],
            }
        } else {
            SendStartView::Validate {
                attempt: SendView { delay_id, event },
                writes: seq![WriteView::RemoveTimeout { timeout: event.timeout, delay_id }],
            }
        },
    }
}

/// The JSON text that records why an event was refused. The two parts of it are
/// JSON texts.
pub open spec fn error_report(errcode: Seq<char>, error: Seq<char>) -> Seq<char> {
    "{\"errcode\":"@ + errcode + ",\"error\":"@ + error + "}"@
}

/// The event, finalized with the record of why it was refused.
pub open spec fn finalized(event: DelayedEventView, report: Seq<char>, now: u64) -> DelayedEventView {
    DelayedEventView {
        status: DelayedEventStatus::Finalized,
        error: Some(report),
        finalised_ts: Some(now),
        ..event
    }
}

/// The writes after the event was refused.
pub open spec fn refusal_writes(send: SendView, report: Seq<char>, now: u64) -> Seq<WriteView> {
    seq![
        WriteView::PutEvent { delay_id: send.delay_id, event: finalized(send.event, report, now) },
    ]
}

/// The key under which a sent event carries its delay ID.
pub open spec fn delay_id_key() -> Seq<char> {
    "org.matrix.msc4140.delay_id"@
}

/// The unsigned members of a sent event: the transaction ID, where it was
/// scheduled with one, and the delay ID.
pub open spec fn unsigned_members(
    txn_id: Option<Seq<char>>,
    delay_id: Seq<char>,
) -> Seq<(Seq<char>, JsonValueView)> {
    match txn_id {
        Some(txn) => seq![
            ("transaction_id"@, JsonValueView::Text(txn)),
            (delay_id_key(), JsonValueView::Text(delay_id)),
        ],
        None => seq![(delay_id_key(), JsonValueView::Text(delay_id))],
    }
}

/// The event that is appended to the room. `content` is the JSON text of its
/// content.
pub open spec fn delayed_pdu(send: SendView, content: Seq<char>) -> PduView {
    PduView {
        sender_user: send.event.sender_user,
        room_id: send.event.room_id,
        event_type: send.event.event_type,
        content,
        unsigned: Some(unsigned_members(send.event.txn_id, send.delay_id)),
        state_key: send.event.state_key,
        redacts: None,
        timestamp: None,
    }
}

/// What the event policy says about a delayed event at the time at which it is
/// sent. `raw` is what was read of its content.
pub open spec fn send_time_verdict(
    config: Config,
    event: DelayedEventView,
    raw: Result<Seq<char>, Seq<char>>,
    facts: FactsView,
) -> VerdictView {
    match raw {
        Err(complaint) => refused(ErrorKind::BadJson, "Invalid raw content: "@ + complaint),
        Ok(json) => match event.state_key {
            Some(state_key) => state_verdict(
                config,
                event.room_id,
                event.event_type,
                state_key,
                json,
                facts,
            ),
            None => message_verdict(
                config,
                event.sender_user,
                event.event_type,
                json,
                event.room_id,
                facts,
            ),
        },
    }
}

/// How an attempt goes on. `raw` is what was read of its content.
pub open spec fn send_step(
    config: Config,
    attempt: SendView,
    raw: Result<Seq<char>, Seq<char>>,
    facts: FactsView,
) -> SendStepView {
    match send_time_verdict(config, attempt.event, raw, facts) {
        VerdictView::Ask(question) => SendStepView::Ask { attempt, question },
        VerdictView::Decided(Err(error)) => SendStepView::Refused {
            refusal: RefusalView { attempt, error },
        },
        VerdictView::Decided(Ok(())) => SendStepView::Append {
            publication: attempt,
            pdu: delayed_pdu(attempt, raw->Ok_0),
        },
    }
}

/// The writes after the event was appended to its room.
pub open spec fn sent_writes(send: SendView) -> Seq<WriteView> {
    seq![
        WriteView::RemoveSender { sender_user: send.event.sender_user, delay_id: send.delay_id },
        WriteView::RemoveEvent { delay_id: send.delay_id },
    ]
}

impl Service {
    /// Begins to send an event of the user, because the user asks for it or
    /// because the worker found it due. `stored` is what is stored under the
    /// delay ID.
    ///
    /// An event that is gone was sent or cancelled before: there is nothing to
    /// do. Another user's event is not found. Where the worker comes too early,
    /// because the event was restarted, the event goes back into the queue.
    pub fn send_now(
        &self,
        delay_id: &str,
        sender_user: &String,
        stored: Option<DelayedEvent>,
        now: u64,
        trigger: SendTrigger,
    ) -> (start: SendStart)
        ensures
            start@ == send_start(delay_id@, sender_user@, stored.deep_view(), now, trigger),
    {
        let none: Vec<Write> = Vec::new();
        assert(none.deep_view() =~= Seq::<WriteView>::empty());
        let event = match stored {
            Some(event) => event,
            None => {
                return SendStart::Finished { result: Ok(None), writes: none };
            },
        };
        if event.sender_user != *sender_user {
            return SendStart::Finished {
                result: Err(Error::new(ErrorKind::NotFound, "Delayed event not found")),
                writes: none,
            };
        }
        if !event.is_scheduled() {
            return SendStart::Finished { result: Ok(event.event_id), writes: none };
        }
        if trigger == SendTrigger::DueScan && event.timeout > now {
            let writes = vec![
                Write::PutTimeout { timeout: event.timeout, delay_id: delay_id.to_owned() },
            ];
            assert(writes.deep_view() =~= seq![
                WriteView::PutTimeout { timeout: event.timeout, delay_id: delay_id@ },
            ]);
            return SendStart::Finished { result: Ok(None), writes };
        }
        let writes = vec![
            Write::RemoveTimeout { timeout: event.timeout, delay_id: delay_id.to_owned() },
        ];
        assert(writes.deep_view() =~= seq![
            WriteView::RemoveTimeout { timeout: event.timeout, delay_id: delay_id@ },
        ]);
        SendStart::Validate { attempt: Attempt { delay_id: delay_id.to_owned(), event }, writes }
    }
}

impl Attempt {
    /// The event that the policy is asked about.
    pub fn event(&self) -> (event: &DelayedEvent)
        ensures
            event@ == self@.event,
    {
        &self.event
    }

    /// Asks the event policy about the attempt. What is appended, where it has
    /// nothing against it, is the stored content.
    pub fn validate(self, config: &Config, facts: &Facts) -> (step: SendStep)
        ensures
            step@ == send_step(*config, self@, raw_of(self@.event.content), facts@),
            step@ matches SendStepView::Append { pdu, .. } ==> pdu.content == trimmed(
                self@.event.content,
            ),
    {
        let raw = raw_json(self.event.content.as_str());
        self.validate_content(config, raw, facts)
    }

    /// Asks the event policy about the attempt, of whose content `raw` was
    /// read.
    pub fn validate_content(
        self,
        config: &Config,
        raw: Result<String, String>,
        facts: &Facts,
    ) -> (step: SendStep)
        ensures
            step@ == send_step(*config, self@, read_as(raw), facts@),
    {
        match validate_send_time(config, &self.event, &raw, facts) {
            Verdict::Ask(question) => SendStep::Ask { attempt: self, question },
            Verdict::Decided(Err(error)) => SendStep::Refused {
                refusal: Refusal { attempt: self, error },
            },
            Verdict::Decided(Ok(())) => {
                let pdu = self.pdu(raw.unwrap());
                SendStep::Append {
                    publication: Publication { delay_id: self.delay_id, event: self.event },
                    pdu,
                }
            },
        }
    }

    /// The event that is to be appended to the room.
    fn pdu(&self, content: String) -> (pdu: PduBuilder)
        ensures
            pdu@ == delayed_pdu(self@, content@),
    {
        let mut unsigned: JsonObject = Vec::new();
        match &self.event.txn_id {
            Some(txn_id) => {
                unsigned.push(("transaction_id".to_owned(), JsonValue::Text(txn_id.clone())));
            },
            None => {},
        }
        unsigned.push(
            ("org.matrix.msc4140.delay_id".to_owned(), JsonValue::Text(self.delay_id.clone())),
        );
        assert(unsigned.deep_view() =~= unsigned_members(
            self.event.txn_id.deep_view(),
            self.delay_id@,
        ));
        PduBuilder {
            sender_user: self.event.sender_user.clone(),
            room_id: self.event.room_id.clone(),
            event_type: self.event.event_type.clone(),
            content,
            unsigned: Some(unsigned),
            state_key: self.event.state_key.clone(),
            redacts: None,
            timestamp: None,
        }
    }
}

/// Asks the event policy about a delayed event at the time at which it is sent:
/// with a state key it is a state event, without one it is message-like. `raw`
/// is what was read of its content.
pub fn validate_send_time(
    config: &Config,
    event: &DelayedEvent,
    raw: &Result<String, String>,
    facts: &Facts,
) -> (verdict: Verdict)
    ensures
        verdict@ == send_time_verdict(*config, event@, read_as(*raw), facts@),
{
    let json = match raw {
        Ok(json) => json,
        Err(complaint) => {
            return Verdict::Decided(
                Err(
                    Error {
                        kind: ErrorKind::BadJson,
                        message: "Invalid raw content: ".to_owned().concat(complaint.as_str()),
                    },
                ),
            );
        },
    };
    match &event.state_key {
        Some(state_key) => allowed_to_send_state_event(
            config,
            &event.room_id,
            event.event_type.as_str(),
            state_key.as_str(),
            json.as_str(),
            facts,
        ),
        None => validate_message_event_policy(
            config,
            event.sender_user.as_str(),
            event.event_type.as_str(),
            json.as_str(),
            event.room_id.as_str(),
            facts,
        ),
    }
}

/// The JSON text that records why an event was refused.
pub fn write_error_report(errcode_json: &str, error_json: &str) -> (report: String)
    ensures
        report@ == error_report(errcode_json@, error_json@),
{
    "{\"errcode\":".to_owned().concat(errcode_json).concat(",\"error\":").concat(
        error_json,
    ).concat("}")
}

impl Refusal {
    /// Why the event was refused.
    pub fn error(&self) -> (error: &Error)
        ensures
            error@ == self@.error,
    {
        &self.error
    }

    /// Concludes the send. The event is finalized and kept in its sender's
    /// list, with the error in the two forms that the client is shown,
    /// `errcode` and `message`.
    pub fn record(self, errcode: &str, message: &str, now: u64) -> (outcome: (
        Result<Option<String>, Error>,
        Vec<Write>,
    ))
        ensures
            seen(outcome.0) == Err::<Option<Seq<char>>, ErrorView>(self@.error),
            outcome.1.deep_view() == refusal_writes(
                self@.attempt,
                error_report(quoted(errcode@), quoted(message@)),
                now,
            ),
    {
        let ghost before = self@.attempt;
        let report = write_error_report(quote(errcode).as_str(), quote(message).as_str());
        let ghost report_text = report@;
        let delay_id = self.attempt.delay_id;
        let mut event = self.attempt.event;
        event.status = DelayedEventStatus::Finalized;
        event.error = Some(report);
        event.finalised_ts = Some(now);
        assert(event@ == finalized(before.event, report_text, now));
        let writes = vec![Write::PutEvent { delay_id, event }];
        assert(writes.deep_view() =~= refusal_writes(before, report_text, now));
        (Err(self.error), writes)
    }
}

impl Publication {
    /// Concludes a send with the outcome of appending the event: once that
    /// succeeded, nothing of the delayed event is kept.
    pub fn appended<E>(self, appended: Result<String, E>) -> (outcome: (
        Result<Option<String>, E>,
        Vec<Write>,
    ))
        ensures
            match appended {
                Ok(event_id) => outcome.0 == Ok::<Option<String>, E>(Some(event_id))
                    && outcome.1.deep_view() == sent_writes(self@),
                Err(error) => outcome.0 == Err::<Option<String>, E>(error)
                    && outcome.1.deep_view() == Seq::<WriteView>::empty(),
            },
    {
        match appended {
            Ok(event_id) => {
                let ghost before = self@;
                let writes = vec![
                    Write::RemoveSender {
                        sender_user: self.event.sender_user,
                        delay_id: self.delay_id.clone(),
                    },
                    Write::RemoveEvent { delay_id: self.delay_id },
                ];
                assert(writes.deep_view() =~= sent_writes(before));
                (Ok(Some(event_id)), writes)
            },
            Err(error) => {
                let writes: Vec<Write> = Vec::new();
                assert(writes.deep_view() =~= Seq::<WriteView>::empty());
                (Err(error), writes)
            },
        }
    }
}

/// What the steps of a send hold is the delay ID and the event.
proof fn lemma_views_of_sends(attempt: Attempt, refusal: Refusal, publication: Publication)
    ensures
        attempt@.delay_id == attempt.delay_id@,
        attempt@.event == attempt.event@,
        refusal@.attempt == refusal.attempt@,
        refusal@.error == refusal.error@,
        publication@.delay_id == publication.delay_id@,
        publication@.event == publication.event@,
{
}

} // verus!
