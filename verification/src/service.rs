//! Scheduling, listing, cancelling and restarting delayed events.
//!
//! Each operation takes what was read from the tables and what the clock said,
//! and gives its result together with the writes that are to be carried out.
//! Operations on the same delay ID, and schedulings by the same user, are
//! carried out one after the other.

use crate::config::Config;
use crate::error::{failure, seen, Error, ErrorKind, ErrorView};
use crate::event::{DelayedEvent, DelayedEventStatus, DelayedEventView};
use crate::store::{Write, WriteView};
use vstd::prelude::*;

verus! {

/// How long a finalized event is kept: a day, in milliseconds.
pub const FINALIZED_RETENTION_MS: u64 = 86_400_000;

/// The delayed events of the server.
#[derive(Debug)]
pub struct Service {
    pub config: Config,
}

/// The sum, or the largest `u64` where the sum does not fit.
pub open spec fn saturating_sum(a: u64, b: u64) -> u64 {
    if a + b > u64::MAX {
        u64::MAX
    } else {
        (a + b) as u64
    }
}

/// The scheduled ones among the events.
pub open spec fn scheduled_among(events: Seq<DelayedEventView>) -> Seq<DelayedEventView> {
    events.filter(|event: DelayedEventView| event.scheduled())
}

/// Whether a user with these events has used up what `max` allows; a `max` of
/// zero allows any number.
pub open spec fn limit_reached(max: u64, own_events: Seq<DelayedEventView>) -> bool {
    max != 0 && scheduled_among(own_events).len() >= (if max > usize::MAX {
        usize::MAX as int
    } else {
        max as int
    })
}

/// Why an event cannot be scheduled, if it cannot.
pub open spec fn add_refusal(
    config: Config,
    delay_ms: u64,
    own_events: Seq<DelayedEventView>,
) -> Option<ErrorView> {
    if config.max_event_delay_ms == 0 {
        Some(failure(ErrorKind::Unknown, "Delayed events are not supported on this server"@))
    } else if delay_ms > config.max_event_delay_ms {
        Some(failure(ErrorKind::InvalidParam, "Delay exceeds maximum allowed delay"@))
    } else if limit_reached(config.max_delayed_events_per_user, own_events) {
        Some(
            failure(
                ErrorKind::LimitExceeded,
                "Maximum number of scheduled delayed events reached."@,
            ),
        )
    } else {
        None
    }
}

/// The writes that enter a new event into all three tables.
pub open spec fn add_writes(event: DelayedEventView) -> Seq<WriteView> {
    seq![
        WriteView::PutEvent { delay_id: event.delay_id, event },
        WriteView::PutTimeout { timeout: event.timeout, delay_id: event.delay_id },
        WriteView::PutSender { sender_user: event.sender_user, delay_id: event.delay_id },
    ]
}

/// The writes that take a stored event out of all three tables.
pub open spec fn removal_writes(delay_id: Seq<char>, event: DelayedEventView) -> Seq<WriteView> {
    seq![
        WriteView::RemoveTimeout { timeout: event.timeout, delay_id },
        WriteView::RemoveSender { sender_user: event.sender_user, delay_id },
        WriteView::RemoveEvent { delay_id },
    ]
}

/// The writes that remove what is stored under a delay ID, if anything.
pub open spec fn remove_writes(
    delay_id: Seq<char>,
    stored: Option<DelayedEventView>,
) -> Seq<WriteView> {
    match stored {
        Some(event) => removal_writes(delay_id, event),
        None => seq![WriteView::RemoveEvent { delay_id }],
    }
}

/// The answer to whoever asks for an event that is not there, or not theirs.
pub open spec fn event_not_found() -> ErrorView {
    failure(ErrorKind::NotFound, "Delayed event not found"@)
}

/// The answer to a cancellation, with what it writes.
pub open spec fn cancel_outcome(
    delay_id: Seq<char>,
    sender_user: Seq<char>,
    stored: Option<DelayedEventView>,
) -> (Result<(), ErrorView>, Seq<WriteView>) {
    match stored {
        None => (Ok(()), Seq::empty()),
        Some(event) => if event.sender_user != sender_user {
            (Err(event_not_found()), Seq::empty())
        } else if !event.scheduled() {
            (Ok(()), Seq::empty())
        } else {
            (Ok(()), removal_writes(delay_id, event))
        },
    }
}

/// The event with its delay starting anew.
pub open spec fn restarted(
    event: DelayedEventView,
    timeout_base: u64,
    running_since: u64,
) -> DelayedEventView {
    DelayedEventView {
        timeout: saturating_sum(timeout_base, event.delay_ms),
        running_since,
        ..event
    }
}

/// The answer to a restart, with what it writes.
pub open spec fn restart_outcome(
    delay_id: Seq<char>,
    sender_user: Seq<char>,
    stored: Option<DelayedEventView>,
    timeout_base: u64,
    running_since: u64,
) -> (Result<(), ErrorView>, Seq<WriteView>) {
    match stored {
        None => (Err(event_not_found()), Seq::empty()),
        Some(event) => if event.sender_user != sender_user {
            (Err(event_not_found()), Seq::empty())
        } else if !event.scheduled() {
            (
                Err(failure(ErrorKind::Unknown, "Delayed event has already been finalized"@)),
                Seq::empty(),
            )
        } else {
            let event_after = restarted(event, timeout_base, running_since);
            (
                Ok(()),
                seq![
                    WriteView::RemoveTimeout { timeout: event.timeout, delay_id },
                    WriteView::PutEvent { delay_id, event: event_after },
                    WriteView::PutTimeout { timeout: event_after.timeout, delay_id },
                ],
            )
        },
    }
}

/// Whether a state event that `sender_user` sends makes this delayed event
/// moot: it is scheduled for the same piece of room state, by somebody else.
pub open spec fn superseded(
    event: DelayedEventView,
    room_id: Seq<char>,
    event_type: Seq<char>,
    state_key: Seq<char>,
    sender_user: Seq<char>,
) -> bool {
    &&& event.scheduled()
    &&& event.room_id == room_id
    &&& event.event_type == event_type
    &&& event.state_key == Some(state_key)
    &&& event.sender_user != sender_user
}

/// The latest time of finalization that is cleaned up at `now`.
pub open spec fn cleanup_cutoff(now: u64) -> int {
    if now < FINALIZED_RETENTION_MS {
        0
    } else {
        now - FINALIZED_RETENTION_MS
    }
}

/// Whether a finalized event has been kept long enough.
pub open spec fn outlived(event: DelayedEventView, now: u64) -> bool {
    !event.scheduled() && (event.finalised_ts matches Some(ts) && ts <= cleanup_cutoff(now))
}

/// Takes a key of the sender lists to its delay ID, where it is the user's.
pub open spec fn own_id(sender_user: Seq<char>) -> spec_fn((Seq<char>, Seq<char>)) -> Option<
    Seq<char>,
> {
    |key: (Seq<char>, Seq<char>)|
        if key.0 == sender_user {
            Some(key.1)
        } else {
            None
        }
}

/// The delay IDs that the sender lists, read key by key, hold for the user.
pub open spec fn ids_of_sender(
    keys: Seq<(Seq<char>, Seq<char>)>,
    sender_user: Seq<char>,
) -> Seq<Seq<char>> {
    keys.filter_map(own_id(sender_user))
}

/// The events that were found, in order.
pub open spec fn found_among(rows: Seq<Option<DelayedEventView>>) -> Seq<DelayedEventView> {
    rows.filter_map(|row: Option<DelayedEventView>| row)
}

/// The delay IDs of the queue, up to the first that is not due yet.
pub open spec fn due_prefix(keys: Seq<(u64, Seq<char>)>, now: u64) -> Seq<Seq<char>>
    decreases keys.len(),
{
    if keys.len() == 0 || keys[0].0 > now {
        Seq::empty()
    } else {
        seq![keys[0].1] + due_prefix(keys.drop_first(), now)
    }
}

/// Takes a delay ID, with what is stored under it, to itself, where the state
/// event makes what is stored moot.
pub open spec fn moot_id(
    room_id: Seq<char>,
    event_type: Seq<char>,
    state_key: Seq<char>,
    sender_user: Seq<char>,
) -> spec_fn((Seq<char>, Option<DelayedEventView>)) -> Option<Seq<char>> {
    |row: (Seq<char>, Option<DelayedEventView>)|
        match row.1 {
            Some(event) => if superseded(event, room_id, event_type, state_key, sender_user) {
                Some(row.0)
            } else {
                None
            },
            None => None,
        }
}

/// The delay IDs of the events that a state event makes moot.
pub open spec fn superseded_ids(
    rows: Seq<(Seq<char>, Option<DelayedEventView>)>,
    room_id: Seq<char>,
    event_type: Seq<char>,
    state_key: Seq<char>,
    sender_user: Seq<char>,
) -> Seq<Seq<char>> {
    rows.filter_map(moot_id(room_id, event_type, state_key, sender_user))
}

/// Whether the row holds an event that is to be cleaned up.
pub open spec fn outlived_row(row: (Seq<char>, Option<DelayedEventView>), now: u64) -> bool {
    row.1 matches Some(event) && outlived(event, now)
}

/// The writes of a cleanup, row by row.
pub open spec fn cleanup_writes(
    rows: Seq<(Seq<char>, Option<DelayedEventView>)>,
    now: u64,
) -> Seq<WriteView>
    decreases rows.len(),
{
    if rows.len() == 0 {
        Seq::empty()
    } else if outlived_row(rows.last(), now) {
        cleanup_writes(rows.drop_last(), now) + removal_writes(rows.last().0, rows.last().1->0)
    } else {
        cleanup_writes(rows.drop_last(), now)
    }
}

impl Service {
    /// The writes that take a stored event out of all three tables.
    fn removal(delay_id: &str, event: &DelayedEvent) -> (writes: Vec<Write>)
        ensures
            writes.deep_view() == removal_writes(delay_id@, event@),
    {
        let writes = vec![
            Write::RemoveTimeout { timeout: event.timeout, delay_id: delay_id.to_owned() },
            Write::RemoveSender {
                sender_user: event.sender_user.clone(),
                delay_id: delay_id.to_owned(),
            },
            Write::RemoveEvent { delay_id: delay_id.to_owned() },
        ];
        assert(writes.deep_view() =~= removal_writes(delay_id@, event@));
        writes
    }

    /// Whether the user with these events may schedule one more.
    pub fn check_max_events(&self, own_events: &Vec<DelayedEvent>) -> (result: Result<(), Error>)
        ensures
            seen(result) == (if limit_reached(
                self.config.max_delayed_events_per_user,
                own_events.deep_view(),
            ) {
                Err(
                    failure(
                        ErrorKind::LimitExceeded,
                        "Maximum number of scheduled delayed events reached."@,
                    ),
                )
            } else {
                Ok(())
            }),
    {
        let max: u64 = self.config.max_delayed_events_per_user;
        if max == 0 {
            return Ok(());
        }
        let limit: usize = if max > usize::MAX as u64 {
            usize::MAX
        } else {
            max as usize
        };
        if self.count_scheduled_by_sender(own_events) >= limit {
            return Err(
                Error::new(
                    ErrorKind::LimitExceeded,
                    "Maximum number of scheduled delayed events reached.",
                ),
            );
        }
        Ok(())
    }

    /// Schedules an event: it is due `delay_ms` after `now`. `own_events` are
    /// the sender's delayed events, as [`Service::get_by_sender`] gives them.
    ///
    /// Nothing is asked of the event itself: whether it may be sent is decided
    /// when it is sent, because the room may have changed by then.
    pub fn add(
        &self,
        delay_id: &str,
        room_id: &str,
        sender_user: &str,
        sender_device: Option<String>,
        event_type: &str,
        state_key: Option<String>,
        txn_id: Option<String>,
        content: String,
        delay_ms: u64,
        own_events: &Vec<DelayedEvent>,
        now: u64,
    ) -> (result: Result<Vec<Write>, Error>)
        ensures
            seen(result) == (match add_refusal(self.config, delay_ms, own_events.deep_view()) {
                Some(refusal) => Err(refusal),
                None => Ok(
                    add_writes(
                        (DelayedEventView {
                            delay_id: delay_id@,
                            room_id: room_id@,
                            sender_user: sender_user@,
                            sender_device: sender_device.deep_view(),
                            event_type: event_type@,
                            state_key: state_key.deep_view(),
                            txn_id: txn_id.deep_view(),
                            content: content@,
                            delay_ms,
                            timeout: saturating_sum(now, delay_ms),
                            running_since: now,
                            status: DelayedEventStatus::Scheduled,
                            error: None,
                            event_id: None,
                            finalised_ts: None,
                        }),
                    ),
                ),
            }),
    {
        let max_delay: u64 = self.config.max_event_delay_ms;
        if max_delay == 0 {
            return Err(
                Error::new(
                    ErrorKind::Unknown,
                    "Delayed events are not supported on this server",
                ),
            );
        }
        if delay_ms > max_delay {
            return Err(
                Error::new(ErrorKind::InvalidParam, "Delay exceeds maximum allowed delay"),
            );
        }
        match self.check_max_events(own_events) {
            Ok(()) => {},
            Err(error) => {
                return Err(error);
            },
        }
        let timeout: u64 = now.saturating_add(delay_ms);
        let event = DelayedEvent {
            delay_id: delay_id.to_owned(),
            room_id: room_id.to_owned(),
            sender_user: sender_user.to_owned(),
            sender_device,
            event_type: event_type.to_owned(),
            state_key,
            txn_id,
            content,
            delay_ms,
            timeout,
            running_since: now,
            status: DelayedEventStatus::Scheduled,
            error: None,
            event_id: None,
            finalised_ts: None,
        };
        let ghost view = event@;
        let writes = vec![
            Write::PutEvent { delay_id: delay_id.to_owned(), event },
            Write::PutTimeout { timeout, delay_id: delay_id.to_owned() },
            Write::PutSender {
                sender_user: sender_user.to_owned(),
                delay_id: delay_id.to_owned(),
            },
        ];
        assert(writes.deep_view() =~= add_writes(view));
        Ok(writes)
    }

    /// The event that was read, where one was: a delay ID under which nothing
    /// is stored, and a row that cannot be read, both count as no event.
    pub fn get<E>(&self, read: Result<DelayedEvent, E>) -> (event: Option<DelayedEvent>)
        ensures
            event == (match read {
                Ok(event) => Some(event),
                Err(_) => None,
            }),
    {
        match read {
            Ok(event) => Some(event),
            Err(_) => None,
        }
    }

    /// The delay IDs of a user's events. `scan` is what the sender lists hold,
    /// key by key, or `None` where they could not be read.
    pub fn delay_ids_by_sender(
        &self,
        scan: &Option<Vec<(String, String)>>,
        sender_user: &String,
    ) -> (delay_ids: Vec<String>)
        ensures
            delay_ids.deep_view() == (match scan {
                Some(keys) => ids_of_sender(keys.deep_view(), sender_user@),
                None => Seq::empty(),
            }),
    {
        let mut delay_ids: Vec<String> = Vec::new();
        let keys = match scan {
            Some(keys) => keys,
            None => {
                assert(delay_ids.deep_view() =~= Seq::<Seq<char>>::empty());
                return delay_ids;
            },
        };
        let ghost f = own_id(sender_user@);
        let ghost all = keys.deep_view();
        let mut i: usize = 0;
        assert(delay_ids.deep_view() =~= all.take(0).filter_map(f));
        while i < keys.len()
            invariant
                i <= keys.len(),
                all == keys.deep_view(),
                f == own_id(sender_user@),
                delay_ids.deep_view() == all.take(i as int).filter_map(f),
            decreases keys.len() - i,
        {
            proof {
                all.lemma_filter_map_take_succ(f, i as int);
            }
            let ghost before = delay_ids.deep_view();
            if keys[i].0 == *sender_user {
                delay_ids.push(keys[i].1.clone());
                assert(delay_ids.deep_view() =~= before + seq![keys[i as int].1@]);
            }
            i += 1;
        }
        assert(all.take(i as int) =~= all);
        delay_ids
    }

    /// The events of a user: `rows` are what is stored under the delay IDs of
    /// [`Service::delay_ids_by_sender`].
    pub fn get_by_sender(&self, rows: &Vec<Option<DelayedEvent>>) -> (events: Vec<DelayedEvent>)
        ensures
            events.deep_view() == found_among(rows.deep_view()),
    {
        let mut events: Vec<DelayedEvent> = Vec::new();
        let ghost f = |row: Option<DelayedEventView>| row;
        let ghost all = rows.deep_view();
        let mut i: usize = 0;
        assert(events.deep_view() =~= all.take(0).filter_map(f));
        while i < rows.len()
            invariant
                i <= rows.len(),
                all == rows.deep_view(),
                f == (|row: Option<DelayedEventView>| row),
                events.deep_view() == all.take(i as int).filter_map(f),
            decreases rows.len() - i,
        {
            proof {
                all.lemma_filter_map_take_succ(f, i as int);
            }
            let ghost before = events.deep_view();
            match &rows[i] {
                Some(event) => {
                    events.push(event.clone());
                    assert(events.deep_view() =~= before + seq![event@]);
                },
                None => {},
            }
            i += 1;
        }
        assert(all.take(i as int) =~= all);
        events
    }

    /// How many of a user's events are scheduled.
    pub fn count_scheduled_by_sender(&self, events: &Vec<DelayedEvent>) -> (count: usize)
        ensures
            count == scheduled_among(events.deep_view()).len(),
    {
        let ghost p = |event: DelayedEventView| event.scheduled();
        let ghost all = events.deep_view();
        let mut count: usize = 0;
        let mut i: usize = 0;
        proof {
            reveal(Seq::filter);
        }
        while i < events.len()
            invariant
                i <= events.len(),
                count <= i,
                all == events.deep_view(),
                p == (|event: DelayedEventView| event.scheduled()),
                count == all.take(i as int).filter(p).len(),
            decreases events.len() - i,
        {
            proof {
                reveal(Seq::filter);
                assert(all.take(i + 1).drop_last() =~= all.take(i as int));
            }
            if events[i].is_scheduled() {
                count += 1;
            }
            i += 1;
        }
        assert(all.take(i as int) =~= all);
        count
    }

    /// Forgets whatever is stored under the delay ID.
    pub fn remove(&self, delay_id: &str, stored: &Option<DelayedEvent>) -> (writes: Vec<Write>)
        ensures
            writes.deep_view() == remove_writes(delay_id@, stored.deep_view()),
    {
        match stored {
            Some(event) => Self::removal(delay_id, event),
            None => {
                let writes = vec![Write::RemoveEvent { delay_id: delay_id.to_owned() }];
                assert(writes.deep_view() =~= remove_writes(delay_id@, stored.deep_view()));
                writes
            },
        }
    }

    /// Cancels a scheduled event of the user. Cancelling an event that is gone
    /// or finalized succeeds without effect; another user's event is not found.
    pub fn cancel(
        &self,
        delay_id: &str,
        sender_user: &String,
        stored: &Option<DelayedEvent>,
    ) -> (outcome: (Result<(), Error>, Vec<Write>))
        ensures
            (seen(outcome.0), outcome.1.deep_view()) == cancel_outcome(
                delay_id@,
                sender_user@,
                stored.deep_view(),
            ),
    {
        let none: Vec<Write> = Vec::new();
        assert(none.deep_view() =~= Seq::<WriteView>::empty());
        let event = match stored {
            Some(event) => event,
            None => {
                return (Ok(()), none);
            },
        };
        if event.sender_user != *sender_user {
            return (Err(Error::new(ErrorKind::NotFound, "Delayed event not found")), none);
        }
        if !event.is_scheduled() {
            return (Ok(()), none);
        }
        (Ok(()), Self::removal(delay_id, event))
    }

    /// Starts the delay of a scheduled event of the user anew. The clock is
    /// read twice: `timeout_base` is what the delay is added to, and
    /// `running_since` is recorded as the start.
    pub fn restart(
        &self,
        delay_id: &str,
        sender_user: &String,
        stored: Option<DelayedEvent>,
        timeout_base: u64,
        running_since: u64,
    ) -> (outcome: (Result<(), Error>, Vec<Write>))
        ensures
            (seen(outcome.0), outcome.1.deep_view()) == restart_outcome(
                delay_id@,
                sender_user@,
                stored.deep_view(),
                timeout_base,
                running_since,
            ),
    {
        let none: Vec<Write> = Vec::new();
        assert(none.deep_view() =~= Seq::<WriteView>::empty());
        let mut event = match stored {
            Some(event) => event,
            None => {
                return (Err(Error::new(ErrorKind::NotFound, "Delayed event not found")), none);
            },
        };
        if event.sender_user != *sender_user {
            return (Err(Error::new(ErrorKind::NotFound, "Delayed event not found")), none);
        }
        if !event.is_scheduled() {
            return (
                Err(Error::new(ErrorKind::Unknown, "Delayed event has already been finalized")),
                none,
            );
        }
        let ghost before = event@;
        let old_timeout: u64 = event.timeout;
        let new_timeout: u64 = timeout_base.saturating_add(event.delay_ms);
        event.timeout = new_timeout;
        event.running_since = running_since;
        let ghost event_after = event@;
        assert(event_after == restarted(before, timeout_base, running_since));
        let writes = vec![
            Write::RemoveTimeout { timeout: old_timeout, delay_id: delay_id.to_owned() },
            Write::PutEvent { delay_id: delay_id.to_owned(), event },
            Write::PutTimeout { timeout: new_timeout, delay_id: delay_id.to_owned() },
        ];
        assert(writes.deep_view() =~= seq![
            WriteView::RemoveTimeout { timeout: before.timeout, delay_id: delay_id@ },
            WriteView::PutEvent { delay_id: delay_id@, event: event_after },
            WriteView::PutTimeout { timeout: event_after.timeout, delay_id: delay_id@ },
        ]);
        (Ok(()), writes)
    }

    /// The delayed events that are to be removed, as [`Service::remove`] does,
    /// when `sender_user` sends this state event: what others have scheduled
    /// for the same piece of room state. `rows` are the delay IDs with what is
    /// stored under them.
    pub fn cancel_matching_state_events(
        &self,
        rows: &Vec<(String, Option<DelayedEvent>)>,
        room_id: &String,
        event_type: &String,
        state_key: &String,
        sender_user: &String,
    ) -> (delay_ids: Vec<String>)
        ensures
            delay_ids.deep_view() == superseded_ids(
                rows.deep_view(),
                room_id@,
                event_type@,
                state_key@,
                sender_user@,
            ),
    {
        let ghost f = moot_id(room_id@, event_type@, state_key@, sender_user@);
        let ghost all = rows.deep_view();
        let mut delay_ids: Vec<String> = Vec::new();
        let mut i: usize = 0;
        assert(delay_ids.deep_view() =~= all.take(0).filter_map(f));
        while i < rows.len()
            invariant
                i <= rows.len(),
                all == rows.deep_view(),
                f == moot_id(room_id@, event_type@, state_key@, sender_user@),
                delay_ids.deep_view() == all.take(i as int).filter_map(f),
            decreases rows.len() - i,
        {
            proof {
                all.lemma_filter_map_take_succ(f, i as int);
            }
            let ghost before = delay_ids.deep_view();
            match &rows[i].1 {
                Some(event) => {
                    if Self::is_superseded(event, room_id, event_type, state_key, sender_user) {
                        delay_ids.push(rows[i].0.clone());
                        assert(delay_ids.deep_view() =~= before + seq![rows[i as int].0@]);
                    }
                },
                None => {},
            }
            i += 1;
        }
        assert(all.take(i as int) =~= all);
        delay_ids
    }

    /// Whether this state event makes the delayed event moot.
    fn is_superseded(
        event: &DelayedEvent,
        room_id: &String,
        event_type: &String,
        state_key: &String,
        sender_user: &String,
    ) -> (moot: bool)
        ensures
            moot == superseded(event@, room_id@, event_type@, state_key@, sender_user@),
    {
        let same_key = match &event.state_key {
            Some(key) => *key == *state_key,
            None => false,
        };
        event.is_scheduled() && event.room_id == *room_id && event.event_type == *event_type
            && same_key && event.sender_user != *sender_user
    }

    /// The delay IDs of the events that are due at `now`. `scan` is the queue
    /// in its order, or `None` where it could not be read; what follows the
    /// first timeout that lies ahead is not looked at.
    pub fn due_events(&self, scan: &Option<Vec<(u64, String)>>, now: u64) -> (delay_ids: Vec<
        String,
    >)
        ensures
            delay_ids.deep_view() == (match scan {
                Some(keys) => due_prefix(keys.deep_view(), now),
                None => Seq::empty(),
            }),
    {
        let mut delay_ids: Vec<String> = Vec::new();
        let keys = match scan {
            Some(keys) => keys,
            None => {
                assert(delay_ids.deep_view() =~= Seq::<Seq<char>>::empty());
                return delay_ids;
            },
        };
        let ghost all = keys.deep_view();
        let mut i: usize = 0;
        assert(all.skip(0) =~= all);
        while i < keys.len() && keys[i].0 <= now
            invariant
                i <= keys.len(),
                all == keys.deep_view(),
                due_prefix(all, now) =~= delay_ids.deep_view() + due_prefix(
                    all.skip(i as int),
                    now,
                ),
            decreases keys.len() - i,
        {
            let ghost before = delay_ids.deep_view();
            delay_ids.push(keys[i].1.clone());
            proof {
                assert(delay_ids.deep_view() =~= before + seq![keys[i as int].1@]);
                assert(all.skip(i as int).drop_first() =~= all.skip(i + 1));
                assert(all.skip(i as int)[0] == all[i as int]);
            }
            i += 1;
        }
        proof {
            assert(i < keys.len() ==> all.skip(i as int)[0] == all[i as int]);
            assert(due_prefix(all.skip(i as int), now) =~= Seq::empty());
        }
        delay_ids
    }

    /// Cleans up the events that were finalized a day or longer before `now`.
    /// `rows` are the delay IDs with what is stored under them. Gives the
    /// writes, and how many events they remove.
    pub fn cleanup_old_finalized(
        &self,
        rows: &Vec<(String, Option<DelayedEvent>)>,
        now: u64,
    ) -> (outcome: (Vec<Write>, usize))
        ensures
            outcome.0.deep_view() == cleanup_writes(rows.deep_view(), now),
            outcome.1 == rows.deep_view().filter(
                |row: (Seq<char>, Option<DelayedEventView>)| outlived_row(row, now),
            ).len(),
            outcome.0.len() == 3 * outcome.1,
    {
        let cutoff: u64 = now.saturating_sub(FINALIZED_RETENTION_MS);
        let ghost p = |row: (Seq<char>, Option<DelayedEventView>)| outlived_row(row, now);
        let ghost all = rows.deep_view();
        let mut writes: Vec<Write> = Vec::new();
        let mut removed: usize = 0;
        let mut i: usize = 0;
        proof {
            reveal(Seq::filter);
            assert(writes.deep_view() =~= cleanup_writes(all.take(0), now));
        }
        while i < rows.len()
            invariant
                i <= rows.len(),
                removed <= i,
                cutoff == cleanup_cutoff(now),
                all == rows.deep_view(),
                p == (|row: (Seq<char>, Option<DelayedEventView>)| outlived_row(row, now)),
                writes.deep_view() == cleanup_writes(all.take(i as int), now),
                removed == all.take(i as int).filter(p).len(),
                writes.len() == 3 * removed,
            decreases rows.len() - i,
        {
            proof {
                reveal(Seq::filter);
                assert(all.take(i + 1).drop_last() =~= all.take(i as int));
                assert(all.take(i + 1).last() == all[i as int]);
            }
            let ghost before = writes.deep_view();
            match &rows[i].1 {
                Some(event) => {
                    let expired = match event.finalised_ts {
                        Some(ts) => !event.is_scheduled() && ts <= cutoff,
                        None => false,
                    };
                    if expired {
                        let mut removal = Self::removal(rows[i].0.as_str(), event);
                        let ghost removal_view = removal.deep_view();
                        writes.append(&mut removal);
                        assert(writes.deep_view() =~= before + removal_view);
                        assert(writes.deep_view().len() == writes.len());
                        removed += 1;
                    }
                },
                None => {},
            }
            i += 1;
        }
        assert(all.take(i as int) =~= all);
        (writes, removed)
    }
}

} // verus!
