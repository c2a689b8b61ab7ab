//! The worker in the background: it sends what is due and cleans up.

use crate::event::{DelayedEvent, DelayedEventView};
use crate::service::Service;
use vstd::prelude::*;

verus! {

/// How long the worker waits before it looks for due events, in milliseconds.
pub const POLL_INTERVAL_MS: u64 = 100;

/// How often the worker cleans up, in seconds.
pub const CLEANUP_INTERVAL_SECS: u64 = 300;

/// What the worker waits for; whichever comes first.
#[derive(Clone, Copy, Debug, PartialEq, Eq, Structural)]
pub enum WorkerEvent {
    /// [`POLL_INTERVAL_MS`] have passed since it began to wait.
    PollElapsed,
    /// Another [`CLEANUP_INTERVAL_SECS`] have passed.
    CleanupDue,
    /// The server shuts down.
    Shutdown,
}

/// What the worker does.
#[derive(Clone, Copy, Debug, PartialEq, Eq, Structural)]
pub enum WorkerAction {
    /// Send the events of [`Service::due_events`], then wait again.
    ProcessDueEvents,
    /// Carry out [`Service::cleanup_old_finalized`], then wait again.
    CleanupOldFinalized,
    /// Return.
    Stop,
}

/// What the worker does about the event.
pub fn worker_action(event: WorkerEvent) -> (action: WorkerAction)
    ensures
        action == (match event {
            WorkerEvent::PollElapsed => WorkerAction::ProcessDueEvents,
            WorkerEvent::CleanupDue => WorkerAction::CleanupOldFinalized,
            WorkerEvent::Shutdown => WorkerAction::Stop,
        }),
{
    match event {
        WorkerEvent::PollElapsed => WorkerAction::ProcessDueEvents,
        WorkerEvent::CleanupDue => WorkerAction::CleanupOldFinalized,
        WorkerEvent::Shutdown => WorkerAction::Stop,
    }
}

/// The user in whose name the worker sends a due event: its sender, unless it
/// is gone.
pub open spec fn sender_of(stored: Option<DelayedEventView>) -> Option<Seq<char>> {
    match stored {
        Some(event) => Some(event.sender_user),
        None => None,
    }
}

impl Service {
    /// The user in whose name the worker sends a due event, as
    /// [`Service::send_now`] does. `None` where it is gone, because it was
    /// cancelled in the meantime: then it is passed over.
    pub fn due_sender(&self, stored: &Option<DelayedEvent>) -> (sender: Option<String>)
        ensures
            sender.deep_view() == sender_of(stored.deep_view()),
    {
        match stored {
            Some(event) => Some(event.sender_user.clone()),
            None => None,
        }
    }
}

} // verus!
