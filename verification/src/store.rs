//! The three tables that hold the delayed events, and what is written to them.
//!
//! The tables themselves live in a database outside. An operation reads what it
//! needs from there, decides, and hands back the list of [`Write`]s that are to
//! be carried out in order. [`Tables`] is the mathematical model of the tables,
//! and [`applied`] says what a list of writes does to them.

use crate::event::{DelayedEvent, DelayedEventView};
use vstd::prelude::*;

verus! {

/// One write to one of the tables.
#[derive(Debug)]
pub enum Write {
    /// Store the event under its delay ID, in place of what is there.
    PutEvent { delay_id: String, event: DelayedEvent },
    /// Forget the event with this delay ID.
    RemoveEvent { delay_id: String },
    /// Enter the event into the queue of timeouts.
    PutTimeout { timeout: u64, delay_id: String },
    /// Take the event out of the queue of timeouts.
    RemoveTimeout { timeout: u64, delay_id: String },
    /// Enter the event into its sender's list.
    PutSender { sender_user: String, delay_id: String },
    /// Take the event out of its sender's list.
    RemoveSender { sender_user: String, delay_id: String },
}

/// What a [`Write`] says.
pub enum WriteView {
    PutEvent { delay_id: Seq<char>, event: DelayedEventView },
    RemoveEvent { delay_id: Seq<char> },
    PutTimeout { timeout: u64, delay_id: Seq<char> },
    RemoveTimeout { timeout: u64, delay_id: Seq<char> },
    PutSender { sender_user: Seq<char>, delay_id: Seq<char> },
    RemoveSender { sender_user: Seq<char>, delay_id: Seq<char> },
}

impl DeepView for Write {
    type V = WriteView;

    open spec fn deep_view(&self) -> WriteView {
        match *self {
            Write::PutEvent { delay_id, event } => WriteView::PutEvent {
                delay_id: delay_id@,
                event: event@,
            },
            Write::RemoveEvent { delay_id } => WriteView::RemoveEvent { delay_id: delay_id@ },
            Write::PutTimeout { timeout, delay_id } => WriteView::PutTimeout {
                timeout,
                delay_id: delay_id@,
            },
            Write::RemoveTimeout { timeout, delay_id } => WriteView::RemoveTimeout {
                timeout,
                delay_id: delay_id@,
            },
            Write::PutSender { sender_user, delay_id } => WriteView::PutSender {
                sender_user: sender_user@,
                delay_id: delay_id@,
            },
            Write::RemoveSender { sender_user, delay_id } => WriteView::RemoveSender {
                sender_user: sender_user@,
                delay_id: delay_id@,
            },
        }
    }
}

/// What the three tables hold.
#[verifier::ext_equal]
pub struct Tables {
    /// The event of each delay ID.
    pub events: Map<Seq<char>, DelayedEventView>,
    /// The queue that the worker scans: timeouts with delay IDs.
    pub timeouts: Set<(u64, Seq<char>)>,
    /// The events of each sender: users with delay IDs.
    pub senders: Set<(Seq<char>, Seq<char>)>,
}

impl Tables {
    /// What is stored under the delay ID.
    pub open spec fn stored(self, delay_id: Seq<char>) -> Option<DelayedEventView> {
        if self.events.dom().contains(delay_id) {
            Some(self.events[delay_id])
        } else {
            None
        }
    }

    /// The delay ID occurs in none of the tables.
    pub open spec fn fresh(self, delay_id: Seq<char>) -> bool {
        &&& !self.events.dom().contains(delay_id)
        &&& forall|timeout: u64| !self.timeouts.contains((timeout, delay_id))
        &&& forall|sender: Seq<char>| !self.senders.contains((sender, delay_id))
    }

    /// The tables agree with each other:
    ///
    /// - every event is stored under its own delay ID;
    /// - it is in its sender's list, and in no other, and the lists hold nothing
    ///   else;
    /// - the queue holds scheduled events only, each with its current timeout;
    /// - a scheduled event has no outcome yet; a finalized one has an error and
    ///   the time at which it came, and no event was sent for it.
    pub open spec fn consistent(self) -> bool {
        &&& forall|id: Seq<char>| #[trigger]
            self.events.dom().contains(id) ==> {
                &&& self.events[id].delay_id == id
                &&& self.senders.contains((self.events[id].sender_user, id))
                &&& well_formed(self.events[id])
            }
        &&& forall|sender: Seq<char>, id: Seq<char>| #[trigger]
            self.senders.contains((sender, id)) ==> self.events.dom().contains(id)
                && self.events[id].sender_user == sender
        &&& forall|timeout: u64, id: Seq<char>| #[trigger]
            self.timeouts.contains((timeout, id)) ==> {
                &&& self.events.dom().contains(id)
                &&& self.events[id].timeout == timeout
                &&& self.events[id].scheduled()
            }
    }
}

/// The status of the event and what is recorded of its outcome fit together.
pub open spec fn well_formed(event: DelayedEventView) -> bool {
    &&& event.event_id is None
    &&& if event.scheduled() {
        event.error is None && event.finalised_ts is None
    } else {
        event.error is Some && event.finalised_ts is Some
    }
}

/// The tables after one write.
pub open spec fn written(tables: Tables, write: WriteView) -> Tables {
    match write {
        WriteView::PutEvent { delay_id, event } => Tables {
            events: tables.events.insert(delay_id, event),
            ..tables
        },
        WriteView::RemoveEvent { delay_id } => Tables {
            events: tables.events.remove(delay_id),
            ..tables
        },
        WriteView::PutTimeout { timeout, delay_id } => Tables {
            timeouts: tables.timeouts.insert((timeout, delay_id)),
            ..tables
        },
        WriteView::RemoveTimeout { timeout, delay_id } => Tables {
            timeouts: tables.timeouts.remove((timeout, delay_id)),
            ..tables
        },
        WriteView::PutSender { sender_user, delay_id } => Tables {
            senders: tables.senders.insert((sender_user, delay_id)),
            ..tables
        },
        WriteView::RemoveSender { sender_user, delay_id } => Tables {
            senders: tables.senders.remove((sender_user, delay_id)),
            ..tables
        },
    }
}

/// The tables after the writes, carried out in order.
pub open spec fn applied(tables: Tables, writes: Seq<WriteView>) -> Tables
    decreases writes.len(),
{
    if writes.len() == 0 {
        tables
    } else {
        written(applied(tables, writes.drop_last()), writes.last())
    }
}

/// Writes that are carried out one list after the other have the effect of the
/// lists in a row.
pub proof fn lemma_applied_in_a_row(tables: Tables, first: Seq<WriteView>, second: Seq<WriteView>)
    ensures
        applied(tables, first + second) == applied(applied(tables, first), second),
    decreases second.len(),
{
    if second.len() == 0 {
        assert(first + second =~= first);
    } else {
        assert((first + second).drop_last() =~= first + second.drop_last());
        assert((first + second).last() == second.last());
        lemma_applied_in_a_row(tables, first, second.drop_last());
    }
}

} // verus!
