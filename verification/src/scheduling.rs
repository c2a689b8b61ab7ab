//! Requests to send an event with a delay.

use crate::config::Config;
use crate::content::read_as;
use crate::delay_id::{generate_delay_id, url_safe_text, RANDOM_BYTES};
use crate::error::{failure, seen, Error, ErrorKind, ErrorView};
use crate::event::{DelayedEvent, DelayedEventStatus, DelayedEventView};
use crate::json::{compact_json, compact_of, reads_as_itself};
use crate::service::{add_refusal, add_writes, saturating_sum, Service};
use crate::store::{Write, WriteView};
use crate::text::{text_from_utf8, text_of};
use vstd::prelude::*;
use vstd::string::*;
use vstd::utf8::encode_utf8;

verus! {

/// An event that is to be sent with a delay, but for its content.
#[derive(Debug)]
pub struct NewEvent {
    pub room_id: String,
    pub sender_user: String,
    pub sender_device: Option<String>,
    pub event_type: String,
    pub state_key: Option<String>,
    pub txn_id: Option<String>,
    pub delay_millis: u128,
}

/// What a [`NewEvent`] says.
pub struct NewEventView {
    pub room_id: Seq<char>,
    pub sender_user: Seq<char>,
    pub sender_device: Option<Seq<char>>,
    pub event_type: Seq<char>,
    pub state_key: Option<Seq<char>>,
    pub txn_id: Option<Seq<char>>,
    pub delay_millis: u128,
}

impl View for NewEvent {
    type V = NewEventView;

    open spec fn view(&self) -> NewEventView {
        NewEventView {
            room_id: self.room_id@,
            sender_user: self.sender_user@,
            sender_device: self.sender_device.deep_view(),
            event_type: self.event_type@,
            state_key: self.state_key.deep_view(),
            txn_id: self.txn_id.deep_view(),
            delay_millis: self.delay_millis,
        }
    }
}

/// What is remembered of a transaction, so that a request that is repeated gets
/// the same response.
#[derive(Debug)]
pub struct TxnRecord {
    pub sender_user: String,
    pub sender_device: Option<String>,
    pub txn_id: String,
    pub response: Vec<u8>,
}

/// What a [`TxnRecord`] says.
pub struct TxnView {
    pub sender_user: Seq<char>,
    pub sender_device: Option<Seq<char>>,
    pub txn_id: Seq<char>,
    pub response: Seq<u8>,
}

impl DeepView for TxnRecord {
    type V = TxnView;

    open spec fn deep_view(&self) -> TxnView {
        TxnView {
            sender_user: self.sender_user@,
            sender_device: self.sender_device.deep_view(),
            txn_id: self.txn_id@,
            response: self.response@,
        }
    }
}

/// An event that is scheduled, by this request or by an earlier one: its delay
/// ID, and what is to be written and remembered.
#[derive(Debug)]
pub struct Scheduled {
    pub delay_id: String,
    pub writes: Vec<Write>,
    pub txn: Option<TxnRecord>,
}

/// What a [`Scheduled`] says.
pub struct ScheduledView {
    pub delay_id: Seq<char>,
    pub writes: Seq<WriteView>,
    pub txn: Option<TxnView>,
}

impl DeepView for Scheduled {
    type V = ScheduledView;

    open spec fn deep_view(&self) -> ScheduledView {
        ScheduledView {
            delay_id: self.delay_id@,
            writes: self.writes.deep_view(),
            txn: self.txn.deep_view(),
        }
    }
}

/// The delay in milliseconds, or the largest `u64` where it is longer.
pub open spec fn delay_of(millis: u128) -> u64 {
    if millis > u64::MAX {
        u64::MAX
    } else {
        millis as u64
    }
}

/// The delayed event that the request schedules, where it does.
pub open spec fn new_delayed_event(
    new: NewEventView,
    delay_id: Seq<char>,
    content: Seq<char>,
    now: u64,
) -> DelayedEventView {
    DelayedEventView {
        delay_id,
        room_id: new.room_id,
        sender_user: new.sender_user,
        sender_device: new.sender_device,
        event_type: new.event_type,
        state_key: new.state_key,
        txn_id: new.txn_id,
        content,
        delay_ms: delay_of(new.delay_millis),
        timeout: saturating_sum(now, delay_of(new.delay_millis)),
        running_since: now,
        status: DelayedEventStatus::Scheduled,
        error: None,
        event_id: None,
        finalised_ts: None,
    }
}

/// The answer to a request that is no repetition. `content` is what was read of
/// its content, and `own_events` are the sender's delayed events. Of a message the
/// transaction is remembered.
pub open spec fn schedule_outcome(
    config: Config,
    new: NewEventView,
    delay_id: Seq<char>,
    content: Result<Seq<char>, Seq<char>>,
    own_events: Seq<DelayedEventView>,
    now: u64,
) -> Result<ScheduledView, ErrorView> {
    if new.delay_millis == 0 {
        Err(failure(ErrorKind::InvalidParam, "Delay must be greater than 0"@))
    } else {
        match content {
            Err(complaint) => Err(failure(ErrorKind::BadJson, "Invalid JSON body: "@ + complaint)),
            Ok(content) => match add_refusal(config, delay_of(new.delay_millis), own_events) {
                Some(refusal) => Err(refusal),
                None => Ok(
                    ScheduledView {
                        delay_id,
                        writes: add_writes(new_delayed_event(new, delay_id, content, now)),
                        txn: match new.txn_id {
                            Some(txn_id) => Some(
                                TxnView {
                                    sender_user: new.sender_user,
                                    sender_device: new.sender_device,
                                    txn_id,
                                    response: encode_utf8(delay_id),
                                },
                            ),
                            None => None,
                        },
                    },
                ),
            },
        }
    }
}

/// The delay ID that is remembered of a transaction, where one is.
pub open spec fn remembered_delay_id(response: Option<Seq<u8>>) -> Option<Seq<char>> {
    match response {
        Some(bytes) => if bytes.len() == 0 {
            None
        } else {
            text_of(bytes)
        },
        None => None,
    }
}

/// The delay ID of an earlier request with the same transaction ID, where its
/// event is still there. `earlier` is the delay ID that is remembered, with what
/// is stored under it.
pub open spec fn replayed(earlier: Option<(Seq<char>, Option<DelayedEventView>)>) -> Option<
    Seq<char>,
> {
    match earlier {
        Some((delay_id, Some(_))) => Some(delay_id),
        _ => None,
    }
}

/// The answer to a request that was answered before.
pub open spec fn replay(delay_id: Seq<char>) -> ScheduledView {
    ScheduledView { delay_id, writes: Seq::empty(), txn: None }
}

/// The delay ID that an earlier request with the same transaction ID was
/// answered with. `response` is what is remembered of the transaction.
pub fn check_existing_txnid(response: Option<Vec<u8>>) -> (delay_id: Option<String>)
    ensures
        delay_id.deep_view() == remembered_delay_id(response.deep_view()),
{
    let bytes = match response {
        Some(bytes) => bytes,
        None => {
            return None;
        },
    };
    assert(bytes.deep_view() =~= bytes@);
    if bytes.len() == 0 {
        return None;
    }
    text_from_utf8(bytes)
}

/// The delay in milliseconds, or the largest `u64` where it is longer.
fn saturating_millis(millis: u128) -> (delay: u64)
    ensures
        delay == delay_of(millis),
{
    if millis > u64::MAX as u128 {
        u64::MAX
    } else {
        millis as u64
    }
}

impl Service {
    /// Schedules the event under the delay ID. `content` is what was read of
    /// its content, and `own_events` are the sender's delayed events.
    pub fn schedule(
        &self,
        new: NewEvent,
        delay_id: String,
        content: Result<String, String>,
        own_events: &Vec<DelayedEvent>,
        now: u64,
    ) -> (result: Result<Scheduled, Error>)
        ensures
            seen(result) == schedule_outcome(
                self.config,
                new@,
                delay_id@,
                read_as(content),
                own_events.deep_view(),
                now,
            ),
    {
        let delay_ms: u64 = saturating_millis(new.delay_millis);
        if delay_ms == 0 {
            return Err(Error::new(ErrorKind::InvalidParam, "Delay must be greater than 0"));
        }
        let content = match content {
            Ok(content) => content,
            Err(complaint) => {
                return Err(
                    Error {
                        kind: ErrorKind::BadJson,
                        message: "Invalid JSON body: ".to_owned().concat(complaint.as_str()),
                    },
                );
            },
        };
        let writes = match self.add(
            delay_id.as_str(),
            new.room_id.as_str(),
            new.sender_user.as_str(),
            new.sender_device.clone(),
            new.event_type.as_str(),
            new.state_key,
            new.txn_id.clone(),
            content,
            delay_ms,
            own_events,
            now,
        ) {
            Ok(writes) => writes,
            Err(error) => {
                return Err(error);
            },
        };
        let txn = match new.txn_id {
            Some(txn_id) => Some(
                TxnRecord {
                    sender_user: new.sender_user,
                    sender_device: new.sender_device,
                    txn_id,
                    response: delay_id.as_str().as_bytes_vec(),
                },
            ),
            None => None,
        };
        Ok(Scheduled { delay_id, writes, txn })
    }

    /// Answers a request to send a message-like event with a delay. `body` is
    /// the JSON text of its content. `earlier` is the delay ID of
    /// [`check_existing_txnid`], with what is stored under it: as long as that
    /// event is there, the request is a repetition and changes nothing. The
    /// content that is stored is JSON without insignificant whitespace.
    pub fn handle_delayed_message_event(
        &self,
        room_id: String,
        sender_user: String,
        sender_device: Option<String>,
        event_type: String,
        txn_id: String,
        delay_millis: u128,
        body: String,
        earlier: Option<(String, Option<DelayedEvent>)>,
        own_events: &Vec<DelayedEvent>,
        now: u64,
    ) -> (result: Result<Scheduled, Error>)
        ensures
            replayed(earlier.deep_view()) matches Some(delay_id) ==> seen(result) == Ok::<
                ScheduledView,
                ErrorView,
            >(replay(delay_id)),
            replayed(earlier.deep_view()) is None ==> exists|bytes: Seq<u8>|
                bytes.len() == RANDOM_BYTES && seen(result) == schedule_outcome(
                    self.config,
                    (NewEventView {
                        room_id: room_id@,
                        sender_user: sender_user@,
                        sender_device: sender_device.deep_view(),
                        event_type: event_type@,
                        state_key: None,
                        txn_id: Some(txn_id@),
                        delay_millis,
                    }),
                    #[trigger] url_safe_text(bytes),
                    compact_of(body@),
                    own_events.deep_view(),
                    now,
                ),
            result is Ok && replayed(earlier.deep_view()) is None ==> (compact_of(
                body@,
            ) matches Ok(content) && reads_as_itself(content)),
            result is Ok && replayed(earlier.deep_view()) is None ==> (seen(
                result,
            )->Ok_0.writes[0] matches WriteView::PutEvent { delay_id, event } && delay_id == seen(
                result,
            )->Ok_0.delay_id && event.delay_id == delay_id && event.room_id == room_id@
                && event.sender_user == sender_user@ && event.sender_device
                == sender_device.deep_view() && event.event_type == event_type@
                && event.state_key == None::<Seq<char>> && event.txn_id == Some(txn_id@) && compact_of(body@) == Ok::<
                Seq<char>,
                Seq<char>,
            >(event.content) && (delay_millis <= u64::MAX ==> event.delay_ms == delay_millis)),
    {
        match earlier {
            Some((delay_id, Some(_))) => {
                let writes: Vec<Write> = Vec::new();
                assert(writes.deep_view() =~= Seq::<WriteView>::empty());
                return Ok(Scheduled { delay_id, writes, txn: None });
            },
            _ => {},
        }
        let delay_id = generate_delay_id();
        let content = compact_json(body.as_str());
        let new = NewEvent {
            room_id,
            sender_user,
            sender_device,
            event_type,
            state_key: None,
            txn_id: Some(txn_id),
            delay_millis,
        };
        self.schedule(new, delay_id, content, own_events, now)
    }

    /// Answers a request to send a state event with a delay. `body` is the JSON
    /// text of its content.
    ///
    /// The event is not validated: that is done when it is sent, because the
    /// state of the room may have changed by then.
    pub fn handle_delayed_state_event(
        &self,
        room_id: String,
        sender_user: String,
        sender_device: Option<String>,
        event_type: String,
        state_key: String,
        delay_millis: u128,
        body: String,
        own_events: &Vec<DelayedEvent>,
        now: u64,
    ) -> (result: Result<Scheduled, Error>)
        ensures
            exists|bytes: Seq<u8>|
                bytes.len() == RANDOM_BYTES && seen(result) == schedule_outcome(
                    self.config,
                    (NewEventView {
                        room_id: room_id@,
                        sender_user: sender_user@,
                        sender_device: sender_device.deep_view(),
                        event_type: event_type@,
                        state_key: Some(state_key@),
                        txn_id: None,
                        delay_millis,
                    }),
                    #[trigger] url_safe_text(bytes),
                    compact_of(body@),
                    own_events.deep_view(),
                    now,
                ),
            result is Ok ==> (compact_of(body@) matches Ok(content) && reads_as_itself(content)),
            result is Ok ==> (seen(
                result,
            )->Ok_0.writes[0] matches WriteView::PutEvent { delay_id, event } && delay_id == seen(
                result,
            )->Ok_0.delay_id && event.delay_id == delay_id && event.room_id == room_id@
                && event.sender_user == sender_user@ && event.sender_device
                == sender_device.deep_view() && event.event_type == event_type@
                && event.state_key == Some(state_key@) && event.txn_id == None::<Seq<char>> && compact_of(body@) == Ok::<
                Seq<char>,
                Seq<char>,
            >(event.content) && (delay_millis <= u64::MAX ==> event.delay_ms == delay_millis)),
    {
        let delay_id = generate_delay_id();
        let content = compact_json(body.as_str());
        let new = NewEvent {
            room_id,
            sender_user,
            sender_device,
            event_type,
            state_key: Some(state_key),
            txn_id: None,
            delay_millis,
        };
        self.schedule(new, delay_id, content, own_events, now)
    }
}

} // verus!
