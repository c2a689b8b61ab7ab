//! A delayed event, as it is stored.

use vstd::prelude::*;

verus! {

/// Whether a delayed event still waits to be sent.
#[derive(Clone, Copy, Debug, PartialEq, Eq, Structural)]
pub enum DelayedEventStatus {
    /// It waits for its timeout, or for a request.
    Scheduled,
    /// It was refused when it was due; it is kept so that its sender sees why.
    Finalized,
}

/// An event that is sent into a room once its delay has passed.
///
/// Times are milliseconds since the Unix epoch. `content` and `error` are JSON
/// texts.
#[derive(Debug)]
pub struct DelayedEvent {
    pub delay_id: String,
    pub room_id: String,
    pub sender_user: String,
    pub sender_device: Option<String>,
    pub event_type: String,
    pub state_key: Option<String>,
    pub txn_id: Option<String>,
    pub content: String,
    pub delay_ms: u64,
    pub timeout: u64,
    pub running_since: u64,
    pub status: DelayedEventStatus,
    pub error: Option<String>,
    pub event_id: Option<String>,
    pub finalised_ts: Option<u64>,
}

/// What a [`DelayedEvent`] says.
pub struct DelayedEventView {
    pub delay_id: Seq<char>,
    pub room_id: Seq<char>,
    pub sender_user: Seq<char>,
    pub sender_device: Option<Seq<char>>,
    pub event_type: Seq<char>,
    pub state_key: Option<Seq<char>>,
    pub txn_id: Option<Seq<char>>,
    pub content: Seq<char>,
    pub delay_ms: u64,
    pub timeout: u64,
    pub running_since: u64,
    pub status: DelayedEventStatus,
    pub error: Option<Seq<char>>,
    pub event_id: Option<Seq<char>>,
    pub finalised_ts: Option<u64>,
}

impl View for DelayedEvent {
    type V = DelayedEventView;

    open spec fn view(&self) -> DelayedEventView {
        DelayedEventView {
            delay_id: self.delay_id@,
            room_id: self.room_id@,
            sender_user: self.sender_user@,
            sender_device: self.sender_device.deep_view(),
            event_type: self.event_type@,
            state_key: self.state_key.deep_view(),
            txn_id: self.txn_id.deep_view(),
            content: self.content@,
            delay_ms: self.delay_ms,
            timeout: self.timeout,
            running_since: self.running_since,
            status: self.status,
            error: self.error.deep_view(),
            event_id: self.event_id.deep_view(),
            finalised_ts: self.finalised_ts,
        }
    }
}

impl DeepView for DelayedEvent {
    type V = DelayedEventView;

    open spec fn deep_view(&self) -> DelayedEventView {
        self@
    }
}

impl Clone for DelayedEvent {
    fn clone(&self) -> (copy: Self)
        ensures
            copy@ == self@,
    {
        DelayedEvent {
            delay_id: self.delay_id.clone(),
            room_id: self.room_id.clone(),
            sender_user: self.sender_user.clone(),
            sender_device: self.sender_device.clone(),
            event_type: self.event_type.clone(),
            state_key: self.state_key.clone(),
            txn_id: self.txn_id.clone(),
            content: self.content.clone(),
            delay_ms: self.delay_ms,
            timeout: self.timeout,
            running_since: self.running_since,
            status: self.status,
            error: self.error.clone(),
            event_id: self.event_id.clone(),
            finalised_ts: self.finalised_ts,
        }
    }
}

impl DelayedEventView {
    /// Still waiting to be sent.
    pub open spec fn scheduled(self) -> bool {
        self.status == DelayedEventStatus::Scheduled
    }
}

impl DelayedEvent {
    /// Whether the event still waits to be sent.
    pub fn is_scheduled(&self) -> (scheduled: bool)
        ensures
            scheduled == self@.scheduled(),
    {
        self.status == DelayedEventStatus::Scheduled
    }
}

} // verus!
