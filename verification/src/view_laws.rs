//! What the values of the library stand for: each field of a view is the field
//! of that name.

use crate::content::{read_as, AclContent};
use crate::error::{seen, Error, ErrorView};
use crate::event::DelayedEvent;
use crate::json::{JsonObject, JsonValue, JsonValueView};
use crate::messages::{
    seen_answer, AcceptedMessage, MessageRequest, MessageStep, MessageStepView, PendingMessage,
    Prepared, PreparedView,
};
use crate::policy::{
    Facts, Question, QuestionView, Resolution, ResolutionView, Verdict, VerdictView,
};
use crate::room_state::{
    AcceptedState, StateEvent, StateReply, StateReplyView, StateRequest, StateStep, StateStepView,
};
use crate::scheduling::{NewEvent, Scheduled, TxnRecord};
use crate::sending::{
    Attempt, PduBuilder, Publication, Refusal, SendStart, SendStartView, SendStep, SendStepView,
};
use crate::store::{Write, WriteView};
use vstd::prelude::*;

verus! {

/// An error is what it says.
pub proof fn law_view_of_error(error: Error)
    ensures
        error@.kind == error.kind,
        error@.message == error.message@,
        error.deep_view() == error@,
{
}

/// A delayed event is what is stored of it.
pub proof fn law_view_of_delayed_event(event: DelayedEvent)
    ensures
        event@.delay_id == event.delay_id@,
        event@.room_id == event.room_id@,
        event@.sender_user == event.sender_user@,
        event@.sender_device == event.sender_device.deep_view(),
        event@.event_type == event.event_type@,
        event@.state_key == event.state_key.deep_view(),
        event@.txn_id == event.txn_id.deep_view(),
        event@.content == event.content@,
        event@.delay_ms == event.delay_ms,
        event@.timeout == event.timeout,
        event@.running_since == event.running_since,
        event@.status == event.status,
        event@.error == event.error.deep_view(),
        event@.event_id == event.event_id.deep_view(),
        event@.finalised_ts == event.finalised_ts,
        event.deep_view() == event@,
{
}

/// A write says what is written, and to which table.
pub proof fn law_view_of_write(timeout: u64, delay_id: String, user: String, event: DelayedEvent)
    ensures
        (Write::PutEvent { delay_id, event }).deep_view() == (WriteView::PutEvent {
            delay_id: delay_id@,
            event: event@,
        }),
        (Write::RemoveEvent { delay_id }).deep_view() == (WriteView::RemoveEvent {
            delay_id: delay_id@,
        }),
        (Write::PutTimeout { timeout, delay_id }).deep_view() == (WriteView::PutTimeout {
            timeout,
            delay_id: delay_id@,
        }),
        (Write::RemoveTimeout { timeout, delay_id }).deep_view() == (WriteView::RemoveTimeout {
            timeout,
            delay_id: delay_id@,
        }),
        (Write::PutSender { sender_user: user, delay_id }).deep_view() == (WriteView::PutSender {
            sender_user: user@,
            delay_id: delay_id@,
        }),
        (Write::RemoveSender { sender_user: user, delay_id }).deep_view()
            == (WriteView::RemoveSender { sender_user: user@, delay_id: delay_id@ }),
{
}

/// An event that is to be appended.
pub proof fn law_view_of_pdu(pdu: PduBuilder)
    ensures
        pdu@.sender_user == pdu.sender_user@,
        pdu@.room_id == pdu.room_id@,
        pdu@.event_type == pdu.event_type@,
        pdu@.content == pdu.content@,
        pdu@.unsigned == pdu.unsigned.deep_view(),
        pdu@.state_key == pdu.state_key.deep_view(),
        pdu@.redacts == pdu.redacts.deep_view(),
        pdu@.timestamp == pdu.timestamp,
        pdu.deep_view() == pdu@,
{
}

/// An event that is to be sent with a delay.
pub proof fn law_view_of_new_event(new: NewEvent)
    ensures
        new@.room_id == new.room_id@,
        new@.sender_user == new.sender_user@,
        new@.sender_device == new.sender_device.deep_view(),
        new@.event_type == new.event_type@,
        new@.state_key == new.state_key.deep_view(),
        new@.txn_id == new.txn_id.deep_view(),
        new@.delay_millis == new.delay_millis,
{
}

/// What is remembered of a transaction, and the answer to a request that
/// schedules an event.
pub proof fn law_view_of_scheduled(txn: TxnRecord, scheduled: Scheduled)
    ensures
        txn.deep_view().sender_user == txn.sender_user@,
        txn.deep_view().sender_device == txn.sender_device.deep_view(),
        txn.deep_view().txn_id == txn.txn_id@,
        txn.deep_view().response == txn.response@,
        scheduled.deep_view().delay_id == scheduled.delay_id@,
        scheduled.deep_view().writes == scheduled.writes.deep_view(),
        scheduled.deep_view().txn == scheduled.txn.deep_view(),
{
}

/// Requests to send an event at once.
pub proof fn law_view_of_requests(message: MessageRequest, state: StateRequest)
    ensures
        message@.room_id == message.room_id@,
        message@.sender_user == message.sender_user@,
        message@.sender_device == message.sender_device.deep_view(),
        message@.event_type == message.event_type@,
        message@.txn_id == message.txn_id@,
        message@.from_appservice == message.from_appservice,
        message@.timestamp == message.timestamp,
        message@.body == message.body@,
        state@.room_id == state.room_id@,
        state@.sender_user == state.sender_user@,
        state@.event_type == state.event_type@,
        state@.state_key == state.state_key@,
        state@.timestamp == state.timestamp,
        state@.body == state.body@,
{
}

/// A state event of a room.
pub proof fn law_view_of_state_event(event: StateEvent)
    ensures
        event.deep_view().content == event.content@,
        event.deep_view().event_id == event.event_id@,
        event.deep_view().origin_server_ts == event.origin_server_ts,
        event.deep_view().room_id == event.room_id@,
        event.deep_view().sender == event.sender@,
        event.deep_view().state_key == event.state_key.deep_view(),
        event.deep_view().event_type == event.event_type@,
        event.deep_view().unsigned == event.unsigned.deep_view(),
{
}

/// What is known for a check, and access rules.
pub proof fn law_view_of_facts(facts: Facts, acl: AclContent)
    ensures
        facts@.sender_is_admin == facts.sender_is_admin,
        facts@.has_reacted == facts.has_reacted,
        facts@.room_is_public == facts.room_is_public,
        facts@.admin_room == facts.admin_room.deep_view(),
        facts@.alias_content == facts.alias_content.deep_view(),
        facts@.resolved == facts.resolved.deep_view(),
        facts@.target_is_local == facts.target_is_local,
        facts@.invites_blocked == facts.invites_blocked,
        facts@.authoriser_is_local == facts.authoriser_is_local,
        facts@.authoriser_is_joined == facts.authoriser_is_joined,
        acl.deep_view().allow_ip_literals == acl.allow_ip_literals,
        acl.deep_view().allow == acl.allow.deep_view(),
        acl.deep_view().deny == acl.deny.deep_view(),
{
}

/// A value in a JSON object.
pub proof fn law_view_of_json_value(text: String, number: u64)
    ensures
        JsonValue::Null.deep_view() == JsonValueView::Null,
        JsonValue::Text(text).deep_view() == JsonValueView::Text(text@),
        JsonValue::Number(number).deep_view() == JsonValueView::Number(number),
        JsonValue::Json(text).deep_view() == JsonValueView::Json(text@),
{
}

/// A result is taken by the view of its value or of its error.
pub proof fn law_view_of_results(text: String, complaint: String, error: Error)
    ensures
        seen(Ok::<String, Error>(text)) == Ok::<Seq<char>, ErrorView>(text@),
        seen(Err::<String, Error>(error)) == Err::<Seq<char>, ErrorView>(error@),
        read_as(Ok::<String, String>(text)) == Ok::<Seq<char>, Seq<char>>(text@),
        read_as(Err::<String, String>(complaint)) == Err::<Seq<char>, Seq<char>>(complaint@),
        seen_answer(None) is None,
        seen_answer(Some(Ok(text))) == Some(Ok::<Seq<char>, ErrorView>(text@)),
        seen_answer(Some(Err(error))) == Some(Err::<Seq<char>, ErrorView>(error@)),
{
}

/// A question names what is asked for.
pub proof fn law_view_of_questions(a: String, b: String, c: String)
    ensures
        (Question::IsAdmin { user: a })@ == (QuestionView::IsAdmin { user: a@ }),
        (Question::HasReacted { event_id: a, user: b, key: c })@ == (QuestionView::HasReacted {
            event_id: a@,
            user: b@,
            key: c@,
        }),
        (Question::IsPublicRoom { room_id: a })@ == (QuestionView::IsPublicRoom { room_id: a@ }),
        Question::AdminRoom@ == QuestionView::AdminRoom,
        (Question::AliasContent { room_id: a })@ == (QuestionView::AliasContent { room_id: a@ }),
        (Question::ResolveAlias { alias: a })@ == (QuestionView::ResolveAlias { alias: a@ }),
        (Question::IsLocalTarget { user: a })@ == (QuestionView::IsLocalTarget { user: a@ }),
        (Question::InvitesBlocked { user: a })@ == (QuestionView::InvitesBlocked { user: a@ }),
        (Question::IsLocalAuthoriser { user: a })@ == (QuestionView::IsLocalAuthoriser {
            user: a@,
        }),
        (Question::IsJoined { user: a, room_id: b })@ == (QuestionView::IsJoined {
            user: a@,
            room_id: b@,
        }),
{
}

/// A verdict is the decision or the question, and an alias leads to a room or
/// nowhere.
pub proof fn law_view_of_verdicts(error: Error, question: Question, text: String)
    ensures
        Verdict::Decided(Ok(()))@ == VerdictView::Decided(Ok(())),
        Verdict::Decided(Err(error))@ == VerdictView::Decided(Err(error@)),
        Verdict::Ask(question)@ == VerdictView::Ask(question@),
        Resolution::Room(text).deep_view() == ResolutionView::Room(text@),
        Resolution::Failed(text).deep_view() == ResolutionView::Failed(text@),
{
}

/// The steps of a send.
pub proof fn law_view_of_send_steps(
    result: Result<Option<String>, Error>,
    writes: Vec<Write>,
    attempt: Attempt,
    question: Question,
    refusal: Refusal,
    publication: Publication,
    pdu: PduBuilder,
)
    ensures
        (SendStart::Finished { result, writes })@ == (SendStartView::Finished {
            result: seen(result),
            writes: writes.deep_view(),
        }),
        (SendStart::Validate { attempt, writes })@ == (SendStartView::Validate {
            attempt: attempt@,
            writes: writes.deep_view(),
        }),
        (SendStep::Ask { attempt, question })@ == (SendStepView::Ask {
            attempt: attempt@,
            question: question@,
        }),
        (SendStep::Refused { refusal })@ == (SendStepView::Refused { refusal: refusal@ }),
        (SendStep::Append { publication, pdu })@ == (SendStepView::Append {
            publication: publication@,
            pdu: pdu@,
        }),
{
}

/// The steps of a message and of a state event, and the reply with one.
pub proof fn law_view_of_request_steps(
    result: Result<String, Error>,
    request: MessageRequest,
    question: Question,
    error: Error,
    message: AcceptedMessage,
    pending: PendingMessage,
    pdu: PduBuilder,
    state_request: StateRequest,
    state: AcceptedState,
    json: String,
    members: JsonObject,
)
    ensures
        (MessageStep::Finished { result })@ == (MessageStepView::Finished { result: seen(result) }),
        (MessageStep::Ask { request, question })@ == (MessageStepView::Ask {
            request: request@,
            question: question@,
        }),
        (MessageStep::Refused { error })@ == (MessageStepView::Refused { error: error@ }),
        (MessageStep::Accepted { message })@ == (MessageStepView::Accepted { message: message@ }),
        (Prepared::Finished { result })@ == (PreparedView::Finished { result: seen(result) }),
        (Prepared::Append { pending, pdu })@ == (PreparedView::Append {
            pending: pending@,
            pdu: pdu@,
        }),
        (StateStep::Ask { request: state_request, question })@ == (StateStepView::Ask {
            request: state_request@,
            question: question@,
        }),
        (StateStep::Refused { error })@ == (StateStepView::Refused { error: error@ }),
        (StateStep::Accepted { state })@ == (StateStepView::Accepted { state: state@ }),
        StateReply::Content(json).deep_view() == StateReplyView::Content(json@),
        StateReply::Event(members).deep_view() == StateReplyView::Event(members.deep_view()),
{
}

} // verus!
