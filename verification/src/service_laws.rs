//! What each operation on delayed events does, field by field and case by case.

use crate::config::Config;
use crate::content::{member_of, user_id_text, Membership};
use crate::error::{ErrorKind, ErrorView};
use crate::event::{DelayedEventStatus, DelayedEventView};
use crate::json::JsonValueView;
use crate::laws::{
    cleaned_up, law_add, law_cleanup, law_refusal, law_restart, lists_everything,
};
use crate::messages::{message_step, MessageView};
use crate::policy::{message_verdict, state_verdict, FactsView, VerdictView};
use crate::policy_laws::lemma_state_types;
use crate::room_state::{state_step, StateRequestView};
use crate::scheduling::{
    delay_of, new_delayed_event, remembered_delay_id, replay, replayed, schedule_outcome,
    NewEventView, ScheduledView,
};
use crate::sending::{
    error_report, refusal_writes, send_start, send_step, send_time_verdict, unsigned_members,
    SendStartView, SendStepView, SendTrigger, SendView,
};
use crate::service::{
    add_refusal, cancel_outcome, cleanup_writes, due_prefix, found_among, outlived, outlived_row,
    restart_outcome, saturating_sum, scheduled_among, superseded,
};
use crate::store::{applied, Tables, WriteView};
use vstd::prelude::*;
use vstd::utf8::{decode_utf8, encode_utf8, valid_utf8};

verus! {

/// A sum that does not fit is the largest number that does.
pub proof fn law_saturating_sum(a: u64, b: u64)
    ensures
        a + b <= u64::MAX ==> saturating_sum(a, b) == a + b,
        a + b > u64::MAX ==> saturating_sum(a, b) == u64::MAX,
{
}

/// A delay that does not fit is the longest that does.
pub proof fn law_delay_saturates(millis: u128)
    ensures
        millis <= u64::MAX ==> delay_of(millis) == millis,
        millis > u64::MAX ==> delay_of(millis) == u64::MAX,
{
}

/// Scheduled events are counted one by one, and only they are.
pub proof fn law_scheduled_are_counted(events: Seq<DelayedEventView>, event: DelayedEventView)
    ensures
        scheduled_among(Seq::empty()).len() == 0,
        event.status == DelayedEventStatus::Scheduled ==> scheduled_among(events.push(event)).len()
            == scheduled_among(events).len() + 1,
        event.status == DelayedEventStatus::Finalized ==> scheduled_among(events.push(event)).len()
            == scheduled_among(events).len(),
{
    reveal(Seq::filter);
    assert(events.push(event).drop_last() =~= events);
}

/// An event can be scheduled exactly if delayed events are on, its delay is not
/// longer than the longest, and the user has fewer scheduled events than the
/// limit, where there is one. The first of these that fails is the answer.
pub proof fn law_what_can_be_scheduled(
    config: Config,
    delay_ms: u64,
    own_events: Seq<DelayedEventView>,
)
    ensures
        ({
            let on = config.max_event_delay_ms > 0;
            let short = delay_ms <= config.max_event_delay_ms;
            let count = scheduled_among(own_events).len();
            let max = config.max_delayed_events_per_user;
            let free = max == 0 || (count < max && count < usize::MAX);
            let refusal = add_refusal(config, delay_ms, own_events);
            &&& refusal is None <==> on && short && free
            &&& !on ==> refusal == Some(
                ErrorView {
                    kind: ErrorKind::Unknown,
                    message: "Delayed events are not supported on this server"@,
                },
            )
            &&& on && !short ==> refusal == Some(
                ErrorView {
                    kind: ErrorKind::InvalidParam,
                    message: "Delay exceeds maximum allowed delay"@,
                },
            )
            &&& on && short && !free ==> refusal == Some(
                ErrorView {
                    kind: ErrorKind::LimitExceeded,
                    message: "Maximum number of scheduled delayed events reached."@,
                },
            )
        }),
{
}

/// Where a request to send an event with a delay succeeds, what is stored under
/// the delay ID that it is answered with is the event of the request: its room,
/// sender, device, type, state key, transaction ID, content and delay. It waits
/// until its delay has passed.
pub proof fn law_request_is_stored(
    tables: Tables,
    config: Config,
    new: NewEventView,
    delay_id: Seq<char>,
    content: Result<Seq<char>, Seq<char>>,
    own_events: Seq<DelayedEventView>,
    now: u64,
)
    requires
        tables.consistent(),
        tables.stored(delay_id) is None,
        schedule_outcome(config, new, delay_id, content, own_events, now) is Ok,
    ensures
        ({
            let scheduled =
                schedule_outcome(config, new, delay_id, content, own_events, now)->Ok_0;
            let after = applied(tables, scheduled.writes);
            let event = after.stored(scheduled.delay_id)->0;
            &&& scheduled.delay_id == delay_id
            &&& after.stored(scheduled.delay_id) is Some
            &&& event.delay_id == scheduled.delay_id
            &&& event.room_id == new.room_id
            &&& event.sender_user == new.sender_user
            &&& event.sender_device == new.sender_device
            &&& event.event_type == new.event_type
            &&& event.state_key == new.state_key
            &&& event.txn_id == new.txn_id
            &&& content == Ok::<Seq<char>, Seq<char>>(event.content)
            &&& new.delay_millis <= u64::MAX ==> event.delay_ms == new.delay_millis
            &&& new.delay_millis > u64::MAX ==> event.delay_ms == u64::MAX
            &&& event.running_since == now
            &&& now + event.delay_ms <= u64::MAX ==> event.timeout == now + event.delay_ms
            &&& now + event.delay_ms > u64::MAX ==> event.timeout == u64::MAX
            &&& event.status == DelayedEventStatus::Scheduled
            &&& event.error is None
            &&& event.event_id is None
            &&& event.finalised_ts is None
            &&& after.timeouts.contains((event.timeout, delay_id))
            &&& after.senders.contains((new.sender_user, delay_id))
        }),
{
    let event = new_delayed_event(new, delay_id, content->Ok_0, now);
    law_add(tables, event);
}

/// A request to send an event with a delay succeeds exactly if it asks for a
/// delay, its content is JSON and the event can be scheduled; the first of these
/// that fails is the answer. The delay ID is remembered of its transaction,
/// where it has one.
pub proof fn law_when_requests_succeed(
    config: Config,
    new: NewEventView,
    delay_id: Seq<char>,
    content: Result<Seq<char>, Seq<char>>,
    own_events: Seq<DelayedEventView>,
    now: u64,
)
    ensures
        ({
            let outcome = schedule_outcome(config, new, delay_id, content, own_events, now);
            let refusal = add_refusal(config, delay_of(new.delay_millis), own_events);
            &&& outcome is Ok <==> new.delay_millis > 0 && content is Ok && refusal is None
            &&& new.delay_millis == 0 ==> outcome == Err::<ScheduledView, ErrorView>(
                ErrorView {
                    kind: ErrorKind::InvalidParam,
                    message: "Delay must be greater than 0"@,
                },
            )
            &&& new.delay_millis > 0 && content is Err ==> outcome == Err::<
                ScheduledView,
                ErrorView,
            >(
                ErrorView {
                    kind: ErrorKind::BadJson,
                    message: "Invalid JSON body: "@ + content->Err_0,
                },
            )
            &&& new.delay_millis > 0 && content is Ok && refusal is Some ==> outcome == Err::<
                ScheduledView,
                ErrorView,
            >(refusal->0)
            &&& outcome matches Ok(scheduled) ==> {
                &&& new.txn_id is None ==> scheduled.txn is None
                &&& new.txn_id matches Some(txn_id) ==> (scheduled.txn matches Some(txn)
                    && txn.txn_id == txn_id && txn.sender_user == new.sender_user
                    && txn.sender_device == new.sender_device && txn.response == encode_utf8(
                    scheduled.delay_id,
                ))
            }
        }),
{
}

/// What is remembered of a transaction is a delay ID if it is a text and not
/// empty; and the request is a repetition if the event is still there.
pub proof fn law_what_is_replayed(
    delay_id: Seq<char>,
    stored: Option<DelayedEventView>,
    bytes: Seq<u8>,
)
    ensures
        replayed(None) is None,
        replayed(Some((delay_id, None))) is None,
        stored is Some ==> replayed(Some((delay_id, stored))) == Some(delay_id),
        replay(delay_id).delay_id == delay_id,
        replay(delay_id).writes.len() == 0,
        replay(delay_id).txn is None,
        remembered_delay_id(None) is None,
        bytes.len() == 0 ==> remembered_delay_id(Some(bytes)) is None,
        bytes.len() > 0 ==> (remembered_delay_id(Some(bytes)) is Some <==> valid_utf8(
            bytes,
        )),
        bytes.len() > 0 && valid_utf8(bytes) ==> remembered_delay_id(Some(bytes))
            == Some(decode_utf8(bytes)),
{
}

/// What is scheduled by a request is what is sent: the event that is appended
/// once the policy allows it goes to the room of the request, in the name of its
/// sender, with its type, state key and transaction ID.
pub proof fn law_request_is_what_is_sent(
    tables: Tables,
    config: Config,
    new: NewEventView,
    delay_id: Seq<char>,
    content: Result<Seq<char>, Seq<char>>,
    own_events: Seq<DelayedEventView>,
    now: u64,
    raw: Result<Seq<char>, Seq<char>>,
    facts: FactsView,
)
    requires
        tables.consistent(),
        tables.stored(delay_id) is None,
        schedule_outcome(config, new, delay_id, content, own_events, now) is Ok,
    ensures
        ({
            let scheduled =
                schedule_outcome(config, new, delay_id, content, own_events, now)->Ok_0;
            let event = applied(tables, scheduled.writes).stored(delay_id)->0;
            send_step(config, SendView { delay_id, event }, raw, facts) matches SendStepView::Append {
                publication,
                pdu,
            } ==> {
                &&& pdu.room_id == new.room_id
                &&& pdu.sender_user == new.sender_user
                &&& pdu.event_type == new.event_type
                &&& pdu.state_key == new.state_key
                &&& raw == Ok::<Seq<char>, Seq<char>>(pdu.content)
                &&& pdu.redacts is None
                &&& pdu.timestamp is None
                &&& pdu.unsigned matches Some(members) && members.contains(
                    ("org.matrix.msc4140.delay_id"@, JsonValueView::Text(delay_id)),
                ) && (new.txn_id matches Some(txn) ==> members.contains(
                    ("transaction_id"@, JsonValueView::Text(txn)),
                )) && members.len() == (if new.txn_id is Some {
                    2int
                } else {
                    1
                })
            }
        }),
{
    law_request_is_stored(tables, config, new, delay_id, content, own_events, now);
    let members = unsigned_members(new.txn_id, delay_id);
    assert(members[members.len() - 1] == (
        "org.matrix.msc4140.delay_id"@,
        JsonValueView::Text(delay_id),
    ));
    if new.txn_id is Some {
        assert(members[0] == ("transaction_id"@, JsonValueView::Text(new.txn_id->0)));
    }
}

/// The event that is appended is the delayed event: same room, sender, type and
/// state key, with the content that was read, the delay ID and, where it has
/// one, the transaction ID.
pub proof fn law_appended_event(
    config: Config,
    attempt: SendView,
    raw: Result<Seq<char>, Seq<char>>,
    facts: FactsView,
)
    ensures
        send_step(config, attempt, raw, facts) matches SendStepView::Append { publication, pdu }
            ==> {
            let event = attempt.event;
            &&& publication.delay_id == attempt.delay_id
            &&& publication.event == event
            &&& pdu.room_id == event.room_id
            &&& pdu.sender_user == event.sender_user
            &&& pdu.event_type == event.event_type
            &&& pdu.state_key == event.state_key
            &&& raw == Ok::<Seq<char>, Seq<char>>(pdu.content)
            &&& pdu.redacts is None
            &&& pdu.timestamp is None
            &&& pdu.unsigned matches Some(members) && members.contains(
                ("org.matrix.msc4140.delay_id"@, JsonValueView::Text(attempt.delay_id)),
            ) && (event.txn_id matches Some(txn) ==> members.contains(
                ("transaction_id"@, JsonValueView::Text(txn)),
            )) && members.len() == (if event.txn_id is Some {
                2int
            } else {
                1
            })
        },
{
    let members = unsigned_members(attempt.event.txn_id, attempt.delay_id);
    assert(members[members.len() - 1] == (
        "org.matrix.msc4140.delay_id"@,
        JsonValueView::Text(attempt.delay_id),
    ));
    if attempt.event.txn_id is Some {
        assert(members[0] == (
            "transaction_id"@,
            JsonValueView::Text(attempt.event.txn_id->0),
        ));
    }
}

/// A restart succeeds exactly for the sender of an event that is still
/// scheduled.
pub proof fn law_when_restarts_succeed(
    delay_id: Seq<char>,
    sender_user: Seq<char>,
    stored: Option<DelayedEventView>,
    timeout_base: u64,
    running_since: u64,
)
    ensures
        ({
            let (result, writes) = restart_outcome(
                delay_id,
                sender_user,
                stored,
                timeout_base,
                running_since,
            );
            let own = stored matches Some(event) && event.sender_user == sender_user;
            let waiting = stored matches Some(event) && event.status
                == DelayedEventStatus::Scheduled;
            &&& result is Ok <==> own && waiting
            &&& !own ==> result == Err::<(), ErrorView>(
                ErrorView { kind: ErrorKind::NotFound, message: "Delayed event not found"@ },
            )
            &&& own && !waiting ==> result == Err::<(), ErrorView>(
                ErrorView {
                    kind: ErrorKind::Unknown,
                    message: "Delayed event has already been finalized"@,
                },
            )
            &&& result is Err ==> writes.len() == 0
        }),
{
}

/// Where a restart succeeds, the event is the same as before in everything but
/// its timeout and its start: its delay starts anew.
pub proof fn law_restart_keeps_the_event(
    tables: Tables,
    delay_id: Seq<char>,
    sender_user: Seq<char>,
    timeout_base: u64,
    running_since: u64,
)
    requires
        tables.consistent(),
        restart_outcome(
            delay_id,
            sender_user,
            tables.stored(delay_id),
            timeout_base,
            running_since,
        ).0 is Ok,
    ensures
        ({
            let before = tables.stored(delay_id)->0;
            let after_tables = applied(
                tables,
                restart_outcome(
                    delay_id,
                    sender_user,
                    tables.stored(delay_id),
                    timeout_base,
                    running_since,
                ).1,
            );
            let after = after_tables.stored(delay_id)->0;
            &&& tables.stored(delay_id) is Some
            &&& after_tables.stored(delay_id) is Some
            &&& after.delay_id == before.delay_id
            &&& after.room_id == before.room_id
            &&& after.sender_user == before.sender_user
            &&& after.sender_device == before.sender_device
            &&& after.event_type == before.event_type
            &&& after.state_key == before.state_key
            &&& after.txn_id == before.txn_id
            &&& after.content == before.content
            &&& after.delay_ms == before.delay_ms
            &&& after.status == before.status
            &&& after.error == before.error
            &&& after.event_id == before.event_id
            &&& after.finalised_ts == before.finalised_ts
            &&& after.running_since == running_since
            &&& timeout_base + before.delay_ms <= u64::MAX ==> after.timeout == timeout_base
                + before.delay_ms
            &&& timeout_base + before.delay_ms > u64::MAX ==> after.timeout == u64::MAX
            &&& after_tables.timeouts.contains((after.timeout, delay_id))
            &&& before.timeout != after.timeout ==> !after_tables.timeouts.contains(
                (before.timeout, delay_id),
            )
        }),
{
    law_restart(tables, delay_id, sender_user, timeout_base, running_since);
    let after = applied(
        tables,
        restart_outcome(
            delay_id,
            sender_user,
            tables.stored(delay_id),
            timeout_base,
            running_since,
        ).1,
    );
    let timeout = after.stored(delay_id)->0.timeout;
    assert(after.timeouts.contains((timeout, delay_id)));
}

/// A refused event is the same as before in everything but its status, and what
/// is recorded of the refusal: the report and the time.
pub proof fn law_refusal_keeps_the_event(
    tables: Tables,
    send: SendView,
    report: Seq<char>,
    now: u64,
)
    requires
        tables.consistent(),
        tables.stored(send.delay_id) == Some(send.event),
        forall|t: u64| !tables.timeouts.contains((t, send.delay_id)),
    ensures
        ({
            let before = send.event;
            let after_tables = applied(tables, refusal_writes(send, report, now));
            let after = after_tables.stored(send.delay_id)->0;
            &&& after_tables.stored(send.delay_id) is Some
            &&& after.status == DelayedEventStatus::Finalized
            &&& after.error == Some(report)
            &&& after.finalised_ts == Some(now)
            &&& after.delay_id == before.delay_id
            &&& after.room_id == before.room_id
            &&& after.sender_user == before.sender_user
            &&& after.sender_device == before.sender_device
            &&& after.event_type == before.event_type
            &&& after.state_key == before.state_key
            &&& after.txn_id == before.txn_id
            &&& after.content == before.content
            &&& after.delay_ms == before.delay_ms
            &&& after.timeout == before.timeout
            &&& after.running_since == before.running_since
            &&& after.event_id == before.event_id
        }),
{
    law_refusal(tables, send, report, now);
}

/// The record of a refusal is a JSON object with the two parts under their
/// names, and nothing else.
pub proof fn law_error_report(errcode: Seq<char>, error: Seq<char>)
    ensures
        ({
            let report = error_report(errcode, error);
            let n = errcode.len() as int;
            &&& report.len() == n + error.len() + 21
            &&& report.subrange(0, 11) == "{\"errcode\":"@
            &&& report.subrange(11, 11 + n) == errcode
            &&& report.subrange(11 + n, 20 + n) == ",\"error\":"@
            &&& report.subrange(20 + n, 20 + n + error.len()) == error
            &&& report.last() == '}'
        }),
{
    reveal_strlit("{\"errcode\":");
    reveal_strlit(",\"error\":");
    reveal_strlit("}");
    assert("{\"errcode\":"@.len() == 11);
    assert(",\"error\":"@.len() == 9);
    assert("}"@.len() == 1 && "}"@[0] == '}');
    let report = error_report(errcode, error);
    let n = errcode.len() as int;
    assert(report.subrange(0, 11) =~= "{\"errcode\":"@);
    assert(report.subrange(11, 11 + n) =~= errcode);
    assert(report.subrange(11 + n, 20 + n) =~= ",\"error\":"@);
    assert(report.subrange(20 + n, 20 + n + error.len()) =~= error);
}

/// What a send is answered before the policy is asked. An event that is gone, or
/// that was finalized, is not sent: the answer is the event ID that it has, if
/// any. Another user's event is not found. The worker puts an event back whose
/// timeout lies ahead. In every other case the policy is asked about the stored
/// event, which leaves the queue.
pub proof fn law_how_sends_begin(
    delay_id: Seq<char>,
    sender_user: Seq<char>,
    stored: Option<DelayedEventView>,
    now: u64,
    trigger: SendTrigger,
)
    ensures
        ({
            let start = send_start(delay_id, sender_user, stored, now, trigger);
            &&& stored is None ==> start == (SendStartView::Finished {
                result: Ok(None),
                writes: Seq::empty(),
            })
            &&& stored matches Some(event) ==> {
                let own = event.sender_user == sender_user;
                let waiting = event.status == DelayedEventStatus::Scheduled;
                let early = trigger == SendTrigger::DueScan && now < event.timeout;
                &&& !own ==> start == (SendStartView::Finished {
                    result: Err(
                        ErrorView {
                            kind: ErrorKind::NotFound,
                            message: "Delayed event not found"@,
                        },
                    ),
                    writes: Seq::empty(),
                })
                &&& own && !waiting ==> start == (SendStartView::Finished {
                    result: Ok(event.event_id),
                    writes: Seq::empty(),
                })
                &&& own && waiting && early ==> (start matches SendStartView::Finished {
                    result,
                    writes,
                } && result == Ok::<Option<Seq<char>>, ErrorView>(None) && writes == seq![
                    WriteView::PutTimeout { timeout: event.timeout, delay_id },
                ])
                &&& own && waiting && !early ==> (start matches SendStartView::Validate {
                    attempt,
                    writes,
                } && attempt.delay_id == delay_id && attempt.event == event && writes == seq![
                    WriteView::RemoveTimeout { timeout: event.timeout, delay_id },
                ])
            }
        }),
{
}

/// A cancellation succeeds unless the event is somebody else's: to them it is
/// not found.
pub proof fn law_when_cancellations_succeed(
    delay_id: Seq<char>,
    sender_user: Seq<char>,
    stored: Option<DelayedEventView>,
)
    ensures
        ({
            let result = cancel_outcome(delay_id, sender_user, stored).0;
            let foreign = stored matches Some(event) && event.sender_user != sender_user;
            &&& result is Ok <==> !foreign
            &&& foreign ==> result == Err::<(), ErrorView>(
                ErrorView { kind: ErrorKind::NotFound, message: "Delayed event not found"@ },
            )
        }),
{
}

/// A delayed state event gets, when it is sent, the decision that the same event
/// gets when it is sent at once: same room, type, state key and content.
pub proof fn law_delayed_state_event_is_judged_alike(
    config: Config,
    delay_id: Seq<char>,
    event: DelayedEventView,
    state_key: Seq<char>,
    content: Seq<char>,
    timestamp: Option<u64>,
    facts: FactsView,
)
    requires
        event.state_key == Some(state_key),
    ensures
        ({
            let step = send_step(config, SendView { delay_id, event }, Ok(content), facts);
            let at_once = state_step(
                config,
                StateRequestView {
                    room_id: event.room_id,
                    sender_user: event.sender_user,
                    event_type: event.event_type,
                    state_key,
                    timestamp,
                    body: content,
                },
                facts,
            );
            &&& step is Append <==> at_once is Accepted
            &&& step is Refused <==> at_once is Refused
            &&& step is Ask <==> at_once is Ask
            &&& step matches SendStepView::Refused { refusal } ==> refusal.error
                == at_once->Refused_error && refusal.attempt == (SendView { delay_id, event })
            &&& step matches SendStepView::Ask { attempt, question } ==> question
                == at_once->Ask_question && attempt == (SendView { delay_id, event })
        }),
{
}

/// A delayed message gets, when it is sent, the decision that the same message
/// gets when it is sent at once: same room, sender, type and content.
pub proof fn law_delayed_message_is_judged_alike(
    config: Config,
    delay_id: Seq<char>,
    event: DelayedEventView,
    content: Seq<char>,
    request: MessageView,
    facts: FactsView,
)
    requires
        event.state_key is None,
        request.room_id == event.room_id,
        request.sender_user == event.sender_user,
        request.event_type == event.event_type,
        request.body == content,
    ensures
        ({
            let step = send_step(config, SendView { delay_id, event }, Ok(content), facts);
            let at_once = message_step(config, request, None, facts);
            &&& step is Append <==> at_once is Accepted
            &&& step is Refused <==> at_once is Refused
            &&& step is Ask <==> at_once is Ask
            &&& step matches SendStepView::Refused { refusal } ==> refusal.error
                == at_once->Refused_error && refusal.attempt == (SendView { delay_id, event })
            &&& step matches SendStepView::Ask { attempt, question } ==> question
                == at_once->Ask_question && attempt == (SendView { delay_id, event })
        }),
{
}

/// What the policy says of a delayed event is what it says of an event in the
/// room, of the type, with the content and, for a state event, with the state
/// key of the delayed event; for a message, of its sender. A content that is no
/// JSON is refused.
pub proof fn law_policy_is_asked_about_the_event(
    config: Config,
    event: DelayedEventView,
    content: Seq<char>,
    complaint: Seq<char>,
    facts: FactsView,
)
    ensures
        event.state_key matches Some(state_key) ==> send_time_verdict(
            config,
            event,
            Ok(content),
            facts,
        ) == state_verdict(config, event.room_id, event.event_type, state_key, content, facts),
        event.state_key is None ==> send_time_verdict(config, event, Ok(content), facts)
            == message_verdict(
            config,
            event.sender_user,
            event.event_type,
            content,
            event.room_id,
            facts,
        ),
        send_time_verdict(config, event, Err(complaint), facts) == VerdictView::Decided(
            Err(
                ErrorView {
                    kind: ErrorKind::BadJson,
                    message: "Invalid raw content: "@ + complaint,
                },
            ),
        ),
{
}

/// A delayed change of a membership that is neither an invite nor a join, and
/// that nobody has to authorise, is appended exactly if its state key is a user
/// ID.
pub proof fn law_delayed_leave_is_sent(
    config: Config,
    delay_id: Seq<char>,
    event: DelayedEventView,
    state_key: Seq<char>,
    content: Seq<char>,
    facts: FactsView,
)
    requires
        event.event_type == "m.room.member"@,
        event.state_key == Some(state_key),
        member_of(content) == Ok::<(Membership, Option<Seq<char>>), Seq<char>>(
            (Membership::Other, None),
        ),
    ensures
        send_step(config, SendView { delay_id, event }, Ok(content), facts) is Append
            <==> user_id_text(state_key),
        send_step(config, SendView { delay_id, event }, Ok(content), facts) is Refused
            <==> !user_id_text(state_key),
{
    lemma_state_types();
}

/// A cleanup removes exactly the events that were finalized a day or longer ago,
/// where it has read everything that is stored.
pub proof fn law_cleanup_removes_what_is_a_day_old(
    tables: Tables,
    rows: Seq<(Seq<char>, Option<DelayedEventView>)>,
    now: u64,
    delay_id: Seq<char>,
)
    requires
        tables.consistent(),
        lists_everything(tables, rows),
        now >= 86_400_000,
    ensures
        ({
            let stored = tables.stored(delay_id);
            let after = applied(tables, cleanup_writes(rows, now)).stored(delay_id);
            let old_enough = stored matches Some(event) && event.status
                == DelayedEventStatus::Finalized && (event.finalised_ts matches Some(ts) && ts
                + 86_400_000 <= now);
            &&& old_enough ==> after is None
            &&& !old_enough ==> after == stored
        }),
{
    assert forall|i: int|
        0 <= i < rows.len() && outlived_row(#[trigger] rows[i], now) implies tables.stored(
        rows[i].0,
    ) == rows[i].1 || tables.stored(rows[i].0) is None by {
        assert(rows.contains(rows[i]));
    }
    law_cleanup(tables, rows, now);
    let gone = cleaned_up(rows, now);
    if gone.contains(delay_id) {
        let i = choose|i: int|
            0 <= i < rows.len() && (#[trigger] rows[i]).0 == delay_id && outlived_row(
                rows[i],
                now,
            );
        assert(rows.contains(rows[i]));
    }
    if tables.stored(delay_id) is Some && outlived(tables.stored(delay_id)->0, now) {
        let row = (delay_id, tables.stored(delay_id));
        assert(rows.contains(row));
        let k = choose|k: int| 0 <= k < rows.len() && rows[k] == row;
        assert(rows[k].0 == delay_id && outlived_row(rows[k], now));
    }
    assert(applied(tables, cleanup_writes(rows, now)).stored(delay_id) == (if gone.contains(
        delay_id,
    ) {
        None
    } else {
        tables.stored(delay_id)
    }));
}

/// On the first day of the clock, only what was finalized at its very beginning
/// is old enough.
pub proof fn law_first_day(event: DelayedEventView, now: u64)
    requires
        now < 86_400_000,
    ensures
        outlived(event, now) <==> event.status == DelayedEventStatus::Finalized
            && event.finalised_ts == Some(0u64),
{
}

/// A state event makes exactly those events moot that are scheduled for the same
/// room, type and state key by somebody else.
pub proof fn law_what_is_moot(
    event: DelayedEventView,
    room_id: Seq<char>,
    event_type: Seq<char>,
    state_key: Seq<char>,
    sender_user: Seq<char>,
)
    ensures
        superseded(event, room_id, event_type, state_key, sender_user) ==> event.status
            == DelayedEventStatus::Scheduled && event.room_id == room_id && event.event_type
            == event_type && event.state_key == Some(state_key) && event.sender_user
            != sender_user,
        event.status == DelayedEventStatus::Finalized ==> !superseded(
            event,
            room_id,
            event_type,
            state_key,
            sender_user,
        ),
        !superseded(event, room_id, event_type, state_key, event.sender_user),
        event.status == DelayedEventStatus::Scheduled && event.state_key is Some
            && event.sender_user != sender_user ==> superseded(
            event,
            event.room_id,
            event.event_type,
            event.state_key->0,
            sender_user,
        ),
{
}

/// The events that are found are those of the rows, in their order: a row with
/// an event adds it, a row without one adds nothing.
pub proof fn law_rows_that_are_found(rows: Seq<Option<DelayedEventView>>, event: DelayedEventView)
    ensures
        found_among(Seq::empty()).len() == 0,
        found_among(rows.push(Some(event))) == found_among(rows).push(event),
        found_among(rows.push(None)) == found_among(rows),
{
    assert(rows.push(Some(event)).drop_last() =~= rows);
    assert(rows.push(None).drop_last() =~= rows);
    assert(found_among(rows) + seq![event] =~= found_among(rows).push(event));
}

/// The due events come in the order of the queue, from its beginning, and the
/// scan stops at the first that is not due.
pub proof fn law_due_events_come_in_order(keys: Seq<(u64, Seq<char>)>, now: u64)
    ensures
        ({
            let due = due_prefix(keys, now);
            &&& due.len() <= keys.len()
            &&& forall|i: int|
                0 <= i < due.len() ==> (#[trigger] due[i]) == keys[i].1 && keys[i].0 <= now
            &&& due.len() < keys.len() ==> keys[due.len() as int].0 > now
        }),
    decreases keys.len(),
{
    if keys.len() > 0 && keys[0].0 <= now {
        let rest = keys.drop_first();
        law_due_events_come_in_order(rest, now);
        let due = due_prefix(keys, now);
        let later = due_prefix(rest, now);
        assert forall|i: int| 0 <= i < due.len() implies (#[trigger] due[i]) == keys[i].1
            && keys[i].0 <= now by {
            if i > 0 {
                assert(due[i] == later[i - 1]);
                assert(rest[i - 1] == keys[i]);
            }
        }
        if due.len() < keys.len() {
            assert(rest[later.len() as int] == keys[due.len() as int]);
        }
    }
}

} // verus!
