//! What holds over any number of operations, however they are interleaved.
//!
//! A [`World`] is the state of the server: the tables, and the operations that
//! are under way. A [`Step`] is the smallest part of an operation that nothing
//! interrupts: one read, or the writes of a decision. The steps of concurrent
//! operations may come in any order, but for two locks. While a user's request
//! to schedule an event is answered, no other of that user's is; and while an
//! event is sent, nobody else sends, cancels, restarts or removes it.

use crate::config::Config;
use crate::event::DelayedEventView;
use crate::json::raw_of;
use crate::laws::{
    cleaned_up, law_add, law_cancel, law_cleanup, law_list_is_complete, law_refusal, law_remove,
    law_restart, law_send_start, law_sent, lemma_own_ids_distinct, lemma_scheduled_stays,
    same_elsewhere, scheduled_ids,
};
use crate::policy::FactsView;
use crate::scheduling::{new_delayed_event, schedule_outcome, NewEventView};
use crate::sending::{
    refusal_writes, send_start, send_step, sent_writes, SendStartView, SendStepView, SendTrigger,
    SendView,
};
use crate::service::{
    cancel_outcome, cleanup_writes, found_among, ids_of_sender, outlived_row, remove_writes,
    restart_outcome, scheduled_among,
};
use crate::store::{applied, Tables};
use vstd::prelude::*;
use vstd::set_lib::lemma_len_subset;

verus! {

/// What a request to schedule an event has read so far of the user's delayed
/// events: their delay IDs, and what was stored under the first of them.
pub struct Listing {
    pub delay_ids: Seq<Seq<char>>,
    pub rows: Seq<Option<DelayedEventView>>,
}

/// A send that is under way. `appended` says whether the event has been appended
/// to its room.
pub struct Sending {
    pub attempt: SendView,
    pub appended: bool,
}

/// The state of the server.
pub struct World {
    pub tables: Tables,
    /// The delay IDs that have been given to events so far.
    pub used: Set<Seq<char>>,
    /// The requests to schedule an event that are being answered, by user.
    pub adding: Map<Seq<char>, Listing>,
    /// The sends that are under way, by delay ID.
    pub sending: Map<Seq<char>, Sending>,
    /// What the cleanup has read so far.
    pub swept: Seq<(Seq<char>, Option<DelayedEventView>)>,
    /// The delay IDs of the events that were appended to their rooms, one for
    /// each time.
    pub appended: Seq<Seq<char>>,
    /// The delay IDs of the sends that were answered with an event ID, one for
    /// each answer.
    pub answered: Seq<Seq<char>>,
}

/// One step of an operation.
pub enum Step {
    /// Scheduling: reads the sender lists.
    ReadList { user: Seq<char>, keys: Seq<(Seq<char>, Seq<char>)> },
    /// Scheduling: reads the next of the user's events.
    ReadRow { user: Seq<char> },
    /// Scheduling: refuses the request, or schedules the event.
    Add {
        new: NewEventView,
        delay_id: Seq<char>,
        content: Result<Seq<char>, Seq<char>>,
        now: u64,
    },
    Remove { delay_id: Seq<char> },
    Cancel { delay_id: Seq<char>, user: Seq<char> },
    Restart { delay_id: Seq<char>, user: Seq<char>, timeout_base: u64, running_since: u64 },
    /// Sending: finds that there is nothing to send, or begins.
    Start { delay_id: Seq<char>, user: Seq<char>, now: u64, trigger: SendTrigger },
    /// Sending: the policy refuses the event.
    Refuse { delay_id: Seq<char>, facts: FactsView, report: Seq<char>, now: u64 },
    /// Sending: the policy allows the event, and it is appended.
    Append { delay_id: Seq<char>, facts: FactsView },
    /// Sending: the event is not appended, because the room refuses it or the
    /// send is given up.
    GiveUp { delay_id: Seq<char> },
    /// Sending: the delayed event is forgotten, and the send is answered.
    Conclude { delay_id: Seq<char> },
    /// Cleaning up: reads what is stored under a delay ID.
    Sweep { delay_id: Seq<char> },
    /// Cleaning up: removes what was read and has been kept long enough.
    Cleanup { now: u64 },
}

/// The server before anything happened.
pub open spec fn empty_world() -> World {
    World {
        tables: Tables { events: Map::empty(), timeouts: Set::empty(), senders: Set::empty() },
        used: Set::empty(),
        adding: Map::empty(),
        sending: Map::empty(),
        swept: Seq::empty(),
        appended: Seq::empty(),
        answered: Seq::empty(),
    }
}

/// What the policy makes of a send that is under way.
pub open spec fn judged(config: Config, attempt: SendView, facts: FactsView) -> SendStepView {
    send_step(config, attempt, raw_of(attempt.event.content), facts)
}

/// The step can be taken: it is the next of its operation, and it does not wait
/// for a lock. A delay ID is given to one event only.
pub open spec fn possible(config: Config, world: World, step: Step) -> bool {
    match step {
        Step::ReadList { user, keys } => {
            &&& !world.adding.dom().contains(user)
            &&& keys.no_duplicates()
            &&& forall|key: (Seq<char>, Seq<char>)| #[trigger]
                keys.contains(key) <==> world.tables.senders.contains(key)
        },
        Step::ReadRow { user } => {
            &&& world.adding.dom().contains(user)
            &&& world.adding[user].rows.len() < world.adding[user].delay_ids.len()
        },
        Step::Add { new, delay_id, content, now } => {
            &&& world.adding.dom().contains(new.sender_user)
            &&& world.adding[new.sender_user].rows.len()
                == world.adding[new.sender_user].delay_ids.len()
            &&& !world.used.contains(delay_id)
        },
        Step::Remove { delay_id } => !world.sending.dom().contains(delay_id),
        Step::Cancel { delay_id, .. } => !world.sending.dom().contains(delay_id),
        Step::Restart { delay_id, .. } => !world.sending.dom().contains(delay_id),
        Step::Start { delay_id, .. } => !world.sending.dom().contains(delay_id),
        Step::Refuse { delay_id, facts, .. } => {
            &&& world.sending.dom().contains(delay_id)
            &&& !world.sending[delay_id].appended
            &&& judged(config, world.sending[delay_id].attempt, facts) is Refused
        },
        Step::Append { delay_id, facts } => {
            &&& world.sending.dom().contains(delay_id)
            &&& !world.sending[delay_id].appended
            &&& judged(config, world.sending[delay_id].attempt, facts) is Append
        },
        Step::GiveUp { delay_id } => {
            &&& world.sending.dom().contains(delay_id)
            &&& !world.sending[delay_id].appended
        },
        Step::Conclude { delay_id } => {
            &&& world.sending.dom().contains(delay_id)
            &&& world.sending[delay_id].appended
        },
        Step::Sweep { .. } => true,
        Step::Cleanup { .. } => true,
    }
}

/// The server after the step.
pub open spec fn stepped(config: Config, world: World, step: Step) -> World {
    let tables = world.tables;
    match step {
        Step::ReadList { user, keys } => World {
            adding: world.adding.insert(
                user,
                Listing { delay_ids: ids_of_sender(keys, user), rows: Seq::empty() },
            ),
            ..world
        },
        Step::ReadRow { user } => {
            let listing = world.adding[user];
            let delay_id = listing.delay_ids[listing.rows.len() as int];
            World {
                adding: world.adding.insert(
                    user,
                    Listing { rows: listing.rows.push(tables.stored(delay_id)), ..listing },
                ),
                ..world
            }
        },
        Step::Add { new, delay_id, content, now } => {
            let own_events = found_among(world.adding[new.sender_user].rows);
            let adding = world.adding.remove(new.sender_user);
            match schedule_outcome(config, new, delay_id, content, own_events, now) {
                Ok(scheduled) => World {
                    tables: applied(tables, scheduled.writes),
                    used: world.used.insert(delay_id),
                    adding,
                    ..world
                },
                Err(_) => World { adding, ..world },
            }
        },
        Step::Remove { delay_id } => World {
            tables: applied(tables, remove_writes(delay_id, tables.stored(delay_id))),
            ..world
        },
        Step::Cancel { delay_id, user } => World {
            tables: applied(tables, cancel_outcome(delay_id, user, tables.stored(delay_id)).1),
            ..world
        },
        Step::Restart { delay_id, user, timeout_base, running_since } => World {
            tables: applied(
                tables,
                restart_outcome(
                    delay_id,
                    user,
                    tables.stored(delay_id),
                    timeout_base,
                    running_since,
                ).1,
            ),
            ..world
        },
        Step::Start { delay_id, user, now, trigger } => match send_start(
            delay_id,
            user,
            tables.stored(delay_id),
            now,
            trigger,
        ) {
            SendStartView::Finished { result, writes } => World {
                tables: applied(tables, writes),
                answered: if result matches Ok(Some(_)) {
                    world.answered.push(delay_id)
                } else {
                    world.answered
                },
                ..world
            },
            SendStartView::Validate { attempt, writes } => World {
                tables: applied(tables, writes),
                sending: world.sending.insert(delay_id, Sending { attempt, appended: false }),
                ..world
            },
        },
        Step::Refuse { delay_id, facts, report, now } => World {
            tables: applied(
                tables,
                refusal_writes(world.sending[delay_id].attempt, report, now),
            ),
            sending: world.sending.remove(delay_id),
            ..world
        },
        Step::Append { delay_id, facts } => World {
            sending: world.sending.insert(
                delay_id,
                Sending { appended: true, ..world.sending[delay_id] },
            ),
            appended: world.appended.push(delay_id),
            ..world
        },
        Step::GiveUp { delay_id } => World { sending: world.sending.remove(delay_id), ..world },
        Step::Conclude { delay_id } => World {
            tables: applied(tables, sent_writes(world.sending[delay_id].attempt)),
            sending: world.sending.remove(delay_id),
            answered: world.answered.push(delay_id),
            ..world
        },
        Step::Sweep { delay_id } => World {
            swept: world.swept.push((delay_id, tables.stored(delay_id))),
            ..world
        },
        Step::Cleanup { now } => World {
            tables: applied(tables, cleanup_writes(world.swept, now)),
            swept: Seq::empty(),
            ..world
        },
    }
}

/// The server after the steps, taken one after the other from the beginning.
pub open spec fn history(config: Config, steps: Seq<Step>) -> World
    decreases steps.len(),
{
    if steps.len() == 0 {
        empty_world()
    } else {
        stepped(config, history(config, steps.drop_last()), steps.last())
    }
}

/// Each of the steps can be taken when it is.
pub open spec fn all_possible(config: Config, steps: Seq<Step>) -> bool
    decreases steps.len(),
{
    steps.len() > 0 ==> {
        &&& all_possible(config, steps.drop_last())
        &&& possible(config, history(config, steps.drop_last()), steps.last())
    }
}

/// Every stored event has a delay ID that was given to it.
pub open spec fn ids_are_used(tables: Tables, used: Set<Seq<char>>) -> bool {
    forall|id: Seq<char>| #[trigger] tables.stored(id) is Some ==> used.contains(id)
}

/// An event that is being sent is stored as it was when the send began, and it
/// is out of the queue.
pub open spec fn sends_are_current(tables: Tables, sending: Map<Seq<char>, Sending>) -> bool {
    forall|id: Seq<char>| #[trigger]
        sending.dom().contains(id) ==> {
            &&& sending[id].attempt.delay_id == id
            &&& tables.stored(id) == Some(sending[id].attempt.event)
            &&& sending[id].attempt.event.scheduled()
            &&& forall|timeout: u64| !tables.timeouts.contains((timeout, id))
        }
}

/// An event that was appended is gone, unless its send is not concluded yet; and
/// every answer with an event ID has an event that was appended.
pub open spec fn appends_are_final(world: World) -> bool {
    &&& world.appended.no_duplicates()
    &&& forall|id: Seq<char>| #[trigger]
        world.appended.contains(id) ==> {
            &&& world.used.contains(id)
            &&& if world.sending.dom().contains(id) {
                world.sending[id].appended
            } else {
                world.tables.stored(id) is None
            }
        }
    &&& forall|id: Seq<char>| #[trigger]
        world.sending.dom().contains(id) && world.sending[id].appended
            ==> world.appended.contains(id)
    &&& world.answered.no_duplicates()
    &&& forall|id: Seq<char>| #[trigger]
        world.answered.contains(id) ==> world.appended.contains(id)
            && !world.sending.dom().contains(id)
}

/// The listing has the delay ID, and does not say that its event is not
/// scheduled.
pub open spec fn counts(listing: Listing, delay_id: Seq<char>) -> bool {
    exists|k: int|
        0 <= k < listing.delay_ids.len() && #[trigger] listing.delay_ids[k] == delay_id && (k
            < listing.rows.len() ==> (listing.rows[k] matches Some(event) && event.scheduled()))
}

/// What was read for a user leaves out none of the user's scheduled events and
/// holds nobody else's.
pub open spec fn listing_covers(
    tables: Tables,
    used: Set<Seq<char>>,
    user: Seq<char>,
    listing: Listing,
) -> bool {
    &&& listing.delay_ids.no_duplicates()
    &&& listing.rows.len() <= listing.delay_ids.len()
    &&& forall|k: int|
        0 <= k < listing.delay_ids.len() ==> used.contains(#[trigger] listing.delay_ids[k]) && (
        tables.stored(listing.delay_ids[k]) matches Some(event) ==> event.sender_user == user)
    &&& forall|k: int|
        0 <= k < listing.rows.len() ==> ((#[trigger] listing.rows[k]) matches Some(event)
            ==> event.sender_user == user)
    &&& forall|id: Seq<char>| #[trigger]
        scheduled_ids(tables, user).contains(id) ==> counts(listing, id)
}

/// So it is for every user whose events are being read.
pub open spec fn listings_cover(
    tables: Tables,
    used: Set<Seq<char>>,
    adding: Map<Seq<char>, Listing>,
) -> bool {
    forall|user: Seq<char>| #[trigger]
        adding.dom().contains(user) ==> listing_covers(tables, used, user, adding[user])
}

/// A finalized event that the cleanup has read is still the same, or gone.
pub open spec fn sweep_is_current(
    tables: Tables,
    used: Set<Seq<char>>,
    swept: Seq<(Seq<char>, Option<DelayedEventView>)>,
) -> bool {
    forall|i: int|
        0 <= i < swept.len() ==> ((#[trigger] swept[i]).1 matches Some(event) && !event.scheduled()
            ==> used.contains(swept[i].0) && (tables.stored(swept[i].0) == swept[i].1
            || tables.stored(swept[i].0) is None))
}

/// No user has more scheduled events than the limit allows.
pub open spec fn limit_holds(config: Config, tables: Tables) -> bool {
    forall|user: Seq<char>|
        (#[trigger] scheduled_ids(tables, user)).finite() && (config.max_delayed_events_per_user
            != 0 ==> scheduled_ids(tables, user).len() <= config.max_delayed_events_per_user)
}

/// What every operation keeps.
pub open spec fn sound(config: Config, world: World) -> bool {
    &&& world.tables.consistent()
    &&& ids_are_used(world.tables, world.used)
    &&& sends_are_current(world.tables, world.sending)
    &&& appends_are_final(world)
    &&& listings_cover(world.tables, world.used, world.adding)
    &&& sweep_is_current(world.tables, world.used, world.swept)
    &&& limit_holds(config, world.tables)
}

/// At most one event changed, and it did not come into being, change its sender,
/// become scheduled, or change after it was finalized.
spec fn fades(before: Tables, after: Tables, delay_id: Seq<char>) -> bool {
    &&& after.consistent()
    &&& same_elsewhere(before, after, delay_id)
    &&& after.stored(delay_id) matches Some(event) ==> (before.stored(delay_id) matches Some(
        earlier,
    ) && earlier.sender_user == event.sender_user && (event.scheduled() ==> earlier.scheduled())
        && (!earlier.scheduled() ==> event == earlier))
}

/// Such a change keeps what does not speak of sends.
proof fn lemma_fading_is_sound(
    config: Config,
    world: World,
    after: Tables,
    delay_id: Seq<char>,
)
    requires
        sound(config, world),
        fades(world.tables, after, delay_id),
    ensures
        ids_are_used(after, world.used),
        listings_cover(after, world.used, world.adding),
        sweep_is_current(after, world.used, world.swept),
        limit_holds(config, after),
{
    let before = world.tables;
    assert forall|id: Seq<char>| #[trigger] after.stored(id) is Some implies world.used.contains(
        id,
    ) by {
        if id != delay_id {
            assert(before.stored(id) == after.stored(id));
        }
        assert(before.stored(id) is Some);
    }
    assert forall|user: Seq<char>|
        (#[trigger] scheduled_ids(after, user)).subset_of(scheduled_ids(before, user)) by {
        lemma_scheduled_stays(before, after, delay_id, user);
    }
    assert forall|user: Seq<char>| #[trigger]
        world.adding.dom().contains(user) implies listing_covers(
        after,
        world.used,
        user,
        world.adding[user],
    ) by {
        let listing = world.adding[user];
        assert(listing_covers(before, world.used, user, listing));
        assert forall|k: int| 0 <= k < listing.delay_ids.len() implies world.used.contains(
            #[trigger] listing.delay_ids[k],
        ) && (after.stored(listing.delay_ids[k]) matches Some(event) ==> event.sender_user
            == user) by {
            let id = listing.delay_ids[k];
            if id != delay_id {
                assert(before.stored(id) == after.stored(id));
            }
        }
        assert forall|id: Seq<char>| #[trigger]
            scheduled_ids(after, user).contains(id) implies counts(listing, id) by {
            assert(scheduled_ids(after, user).subset_of(scheduled_ids(before, user)));
            assert(scheduled_ids(before, user).contains(id));
        }
    }
    assert forall|i: int|
        0 <= i < world.swept.len() && ((#[trigger] world.swept[i]).1 matches Some(event)
            && !event.scheduled()) implies world.used.contains(world.swept[i].0) && (after.stored(
        world.swept[i].0,
    ) == world.swept[i].1 || after.stored(world.swept[i].0) is None) by {
        let id = world.swept[i].0;
        if id != delay_id {
            assert(before.stored(id) == after.stored(id));
        }
    }
    assert forall|user: Seq<char>|
        (#[trigger] scheduled_ids(after, user)).finite() && (config.max_delayed_events_per_user
            != 0 ==> scheduled_ids(after, user).len()
            <= config.max_delayed_events_per_user) by {
        assert(scheduled_ids(after, user).subset_of(scheduled_ids(before, user)));
        lemma_len_subset(scheduled_ids(after, user), scheduled_ids(before, user));
    }
}

/// A change of an event that is not being sent keeps what speaks of sends.
proof fn lemma_fading_keeps_sends(config: Config, world: World, after: Tables, delay_id: Seq<char>)
    requires
        sound(config, world),
        fades(world.tables, after, delay_id),
        !world.sending.dom().contains(delay_id),
    ensures
        sends_are_current(after, world.sending),
        appends_are_final(World { tables: after, ..world }),
{
    let before = world.tables;
    assert forall|id: Seq<char>| #[trigger] world.sending.dom().contains(id) implies {
        &&& world.sending[id].attempt.delay_id == id
        &&& after.stored(id) == Some(world.sending[id].attempt.event)
        &&& world.sending[id].attempt.event.scheduled()
        &&& forall|timeout: u64| !after.timeouts.contains((timeout, id))
    } by {
        assert(before.stored(id) == after.stored(id));
        assert forall|timeout: u64| !after.timeouts.contains((timeout, id)) by {
            assert(before.timeouts.contains((timeout, id)) == after.timeouts.contains(
                (timeout, id),
            ));
        }
    }
    assert forall|id: Seq<char>| #[trigger]
        world.appended.contains(id) && !world.sending.dom().contains(id) implies after.stored(
        id,
    ) is None by {
        assert(before.stored(id) is None);
        if id != delay_id {
            assert(before.stored(id) == after.stored(id));
        }
    }
}

/// Such a step keeps the world sound.
proof fn lemma_fading_step(config: Config, world: World, after: Tables, delay_id: Seq<char>)
    requires
        sound(config, world),
        fades(world.tables, after, delay_id),
        !world.sending.dom().contains(delay_id),
    ensures
        sound(config, World { tables: after, ..world }),
{
    lemma_fading_is_sound(config, world, after, delay_id);
    lemma_fading_keeps_sends(config, world, after, delay_id);
}

/// The end of a send keeps the world sound. `after` are the tables, `answered`
/// the answers afterwards.
proof fn lemma_send_ends(
    config: Config,
    world: World,
    after: Tables,
    answered: Seq<Seq<char>>,
    delay_id: Seq<char>,
)
    requires
        sound(config, world),
        world.sending.dom().contains(delay_id),
        fades(world.tables, after, delay_id),
        if world.sending[delay_id].appended {
            after.stored(delay_id) is None && answered == world.answered.push(delay_id)
        } else {
            answered == world.answered
        },
    ensures
        sound(
            config,
            World { tables: after, sending: world.sending.remove(delay_id), answered, ..world },
        ),
{
    lemma_fading_is_sound(config, world, after, delay_id);
    let before = world.tables;
    let sending = world.sending.remove(delay_id);
    let ended = World { tables: after, sending, answered, ..world };
    assert forall|id: Seq<char>| #[trigger] sending.dom().contains(id) implies {
        &&& sending[id].attempt.delay_id == id
        &&& after.stored(id) == Some(sending[id].attempt.event)
        &&& sending[id].attempt.event.scheduled()
        &&& forall|timeout: u64| !after.timeouts.contains((timeout, id))
    } by {
        assert(world.sending.dom().contains(id));
        assert(before.stored(id) == after.stored(id));
        assert forall|timeout: u64| !after.timeouts.contains((timeout, id)) by {
            assert(before.timeouts.contains((timeout, id)) == after.timeouts.contains(
                (timeout, id),
            ));
        }
    }
    assert forall|id: Seq<char>| #[trigger] ended.appended.contains(id) implies {
        &&& ended.used.contains(id)
        &&& if ended.sending.dom().contains(id) {
            ended.sending[id].appended
        } else {
            ended.tables.stored(id) is None
        }
    } by {
        assert(world.appended.contains(id));
        if id != delay_id {
            assert(before.stored(id) == after.stored(id));
        }
    }
    assert forall|id: Seq<char>| #[trigger]
        ended.sending.dom().contains(id)
            && ended.sending[id].appended implies ended.appended.contains(id) by {
        assert(world.sending.dom().contains(id));
    }
    assert(!world.answered.contains(delay_id));
    if world.sending[delay_id].appended {
        lemma_push_distinct(world.answered, delay_id);
    }
}

/// What is new in a sequence without duplicates, pushed to it, leaves it without
/// duplicates.
proof fn lemma_push_distinct(s: Seq<Seq<char>>, a: Seq<char>)
    requires
        s.no_duplicates(),
        !s.contains(a),
    ensures
        s.push(a).no_duplicates(),
        forall|b: Seq<char>| #[trigger] s.push(a).contains(b) <==> s.contains(b) || b == a,
{
    let longer = s.push(a);
    assert forall|b: Seq<char>| #[trigger] longer.contains(b) <==> s.contains(b) || b == a by {
        assert(longer[s.len() as int] == a);
        if s.contains(b) {
            let k = choose|k: int| 0 <= k < s.len() && s[k] == b;
            assert(longer[k] == b);
        }
        if longer.contains(b) {
            let k = choose|k: int| 0 <= k < longer.len() && longer[k] == b;
            if k < s.len() {
                assert(s[k] == b);
            }
        }
    }
    assert forall|i: int, j: int|
        0 <= i < longer.len() && 0 <= j < longer.len() && i != j implies longer[i] != longer[j] by {
        if i == s.len() {
            assert(s.contains(s[j]));
        } else if j == s.len() {
            assert(s.contains(s[i]));
        }
    }
}

/// The scheduled events of a complete listing, by their delay IDs.
spec fn counted_ids(listing: Listing) -> Set<Seq<char>> {
    Set::new(|id: Seq<char>| counts(listing, id))
}

/// A complete listing has as many scheduled events as are counted in it.
proof fn lemma_listing_counts(listing: Listing)
    requires
        listing.delay_ids.no_duplicates(),
        listing.rows.len() == listing.delay_ids.len(),
    ensures
        counted_ids(listing).finite(),
        counted_ids(listing).len() == scheduled_among(found_among(listing.rows)).len(),
    decreases listing.rows.len(),
{
    reveal(Seq::filter);
    let ids = counted_ids(listing);
    let n = listing.rows.len() - 1;
    if listing.rows.len() == 0 {
        assert(ids =~= Set::empty());
        assert(found_among(listing.rows) =~= Seq::empty());
    } else {
        let rest = Listing {
            delay_ids: listing.delay_ids.drop_last(),
            rows: listing.rows.drop_last(),
        };
        lemma_listing_counts(rest);
        let rest_ids = counted_ids(rest);
        let last_id = listing.delay_ids[n];
        let last_row = listing.rows[n];
        let is_counted = last_row matches Some(event) && event.scheduled();
        assert forall|id: Seq<char>| #[trigger]
            ids.contains(id) <==> rest_ids.contains(id) || (id == last_id && is_counted) by {
            if ids.contains(id) {
                let k = choose|k: int|
                    0 <= k < listing.delay_ids.len() && #[trigger] listing.delay_ids[k] == id && (k
                        < listing.rows.len() ==> (listing.rows[k] matches Some(event)
                        && event.scheduled()));
                if k < n {
                    assert(rest.delay_ids[k] == id);
                    assert(rest.rows[k] == listing.rows[k]);
                }
            }
            if rest_ids.contains(id) {
                let k = choose|k: int|
                    0 <= k < rest.delay_ids.len() && #[trigger] rest.delay_ids[k] == id && (k
                        < rest.rows.len() ==> (rest.rows[k] matches Some(event)
                        && event.scheduled()));
                assert(listing.delay_ids[k] == id);
                assert(rest.rows[k] == listing.rows[k]);
            }
            if id == last_id && is_counted {
                assert(listing.delay_ids[n] == id);
            }
        }
        assert(!rest_ids.contains(last_id)) by {
            if rest_ids.contains(last_id) {
                let k = choose|k: int|
                    0 <= k < rest.delay_ids.len() && #[trigger] rest.delay_ids[k] == last_id && (k
                        < rest.rows.len() ==> (rest.rows[k] matches Some(event)
                        && event.scheduled()));
                assert(listing.delay_ids[k] == listing.delay_ids[n]);
            }
        }
        let found = found_among(listing.rows);
        let rest_found = found_among(rest.rows);
        match last_row {
            Some(event) => {
                assert(found =~= rest_found + seq![event]);
                assert(found.drop_last() =~= rest_found);
                assert(found.last() == event);
            },
            None => {
                assert(found =~= rest_found);
            },
        }
        if is_counted {
            assert(ids =~= rest_ids.insert(last_id));
        } else {
            assert(ids =~= rest_ids);
        }
    }
}

/// Reading the sender lists.
proof fn lemma_read_list(
    config: Config,
    world: World,
    user: Seq<char>,
    keys: Seq<(Seq<char>, Seq<char>)>,
)
    requires
        sound(config, world),
        possible(config, world, Step::ReadList { user, keys }),
    ensures
        sound(config, stepped(config, world, Step::ReadList { user, keys })),
{
    let tables = world.tables;
    let ids = ids_of_sender(keys, user);
    let listing = Listing { delay_ids: ids, rows: Seq::empty() };
    lemma_own_ids_distinct(keys, user);
    assert forall|k: int| 0 <= k < ids.len() implies world.used.contains(#[trigger] ids[k]) && (
    tables.stored(ids[k]) matches Some(event) ==> event.sender_user == user) by {
        assert(ids.contains(ids[k]));
        law_list_is_complete(tables, keys, user, ids[k]);
        assert(tables.stored(ids[k]) is Some);
    }
    assert forall|id: Seq<char>| #[trigger]
        scheduled_ids(tables, user).contains(id) implies counts(listing, id) by {
        law_list_is_complete(tables, keys, user, id);
        let k = choose|k: int| 0 <= k < ids.len() && ids[k] == id;
        assert(listing.delay_ids[k] == id);
    }
    assert(listing_covers(tables, world.used, user, listing));
}

/// Reading the next of a user's events.
proof fn lemma_read_row(config: Config, world: World, user: Seq<char>)
    requires
        sound(config, world),
        possible(config, world, Step::ReadRow { user }),
    ensures
        sound(config, stepped(config, world, Step::ReadRow { user })),
{
    let tables = world.tables;
    let listing = world.adding[user];
    assert(listing_covers(tables, world.used, user, listing));
    let n = listing.rows.len() as int;
    let longer = Listing {
        rows: listing.rows.push(tables.stored(listing.delay_ids[n])),
        ..listing
    };
    assert forall|id: Seq<char>| #[trigger]
        scheduled_ids(tables, user).contains(id) implies counts(longer, id) by {
        assert(counts(listing, id));
        let k = choose|k: int|
            0 <= k < listing.delay_ids.len() && #[trigger] listing.delay_ids[k] == id && (k
                < listing.rows.len() ==> (listing.rows[k] matches Some(event)
                && event.scheduled()));
        assert(longer.delay_ids[k] == id);
        if k < n {
            assert(longer.rows[k] == listing.rows[k]);
        } else if k == n {
            assert(longer.rows[k] == tables.stored(id));
        }
    }
    assert forall|k: int| 0 <= k < longer.rows.len() implies ((#[trigger] longer.rows[k]) matches Some(
        event,
    ) ==> event.sender_user == user) by {
        if k < n {
            assert(longer.rows[k] == listing.rows[k]);
        } else {
            assert(longer.rows[k] == tables.stored(listing.delay_ids[n]));
        }
    }
    assert(listing_covers(tables, world.used, user, longer));
}

/// Scheduling an event.
proof fn lemma_scheduled(
    config: Config,
    world: World,
    new: NewEventView,
    delay_id: Seq<char>,
    content: Result<Seq<char>, Seq<char>>,
    now: u64,
)
    requires
        sound(config, world),
        possible(config, world, Step::Add { new, delay_id, content, now }),
    ensures
        sound(config, stepped(config, world, Step::Add { new, delay_id, content, now })),
{
    let user = new.sender_user;
    let listing = world.adding[user];
    let own_events = found_among(listing.rows);
    let outcome = schedule_outcome(config, new, delay_id, content, own_events, now);
    let after_world = stepped(config, world, Step::Add { new, delay_id, content, now });
    let before = world.tables;
    let after = after_world.tables;
    assert(listing_covers(before, world.used, user, listing));
    if outcome is Ok {
        let event = new_delayed_event(new, delay_id, content->Ok_0, now);
        assert(before.stored(delay_id) is None);
        law_add(before, event);
        assert forall|id: Seq<char>| #[trigger] after.stored(id) is Some implies after_world.used.contains(
            id,
        ) by {
            if id != delay_id {
                assert(before.stored(id) == after.stored(id));
            }
        }
        assert forall|id: Seq<char>| #[trigger] world.sending.dom().contains(id) implies {
            &&& world.sending[id].attempt.delay_id == id
            &&& after.stored(id) == Some(world.sending[id].attempt.event)
            &&& world.sending[id].attempt.event.scheduled()
            &&& forall|timeout: u64| !after.timeouts.contains((timeout, id))
        } by {
            assert(before.stored(id) is Some);
            assert(id != delay_id);
            assert(before.stored(id) == after.stored(id));
            assert forall|timeout: u64| !after.timeouts.contains((timeout, id)) by {
                assert(before.timeouts.contains((timeout, id)) == after.timeouts.contains(
                    (timeout, id),
                ));
            }
        }
        assert forall|id: Seq<char>| #[trigger] world.appended.contains(id) implies {
            &&& after_world.used.contains(id)
            &&& if world.sending.dom().contains(id) {
                world.sending[id].appended
            } else {
                after.stored(id) is None
            }
        } by {
            assert(id != delay_id);
            assert(before.stored(id) == after.stored(id));
        }
        assert forall|other: Seq<char>, id: Seq<char>| #[trigger]
            scheduled_ids(after, other).contains(id) <==> scheduled_ids(before, other).contains(id)
                || (other == user && id == delay_id) by {
            if id != delay_id {
                assert(before.stored(id) == after.stored(id));
            }
        }
        assert forall|other: Seq<char>| #[trigger]
            after_world.adding.dom().contains(other) implies listing_covers(
            after,
            after_world.used,
            other,
            after_world.adding[other],
        ) by {
            let theirs = world.adding[other];
            assert(world.adding.dom().contains(other));
            assert(listing_covers(before, world.used, other, theirs));
            assert forall|k: int| 0 <= k < theirs.delay_ids.len() implies after_world.used.contains(
                #[trigger] theirs.delay_ids[k],
            ) && (after.stored(theirs.delay_ids[k]) matches Some(event) ==> event.sender_user
                == other) by {
                let id = theirs.delay_ids[k];
                assert(id != delay_id);
                assert(before.stored(id) == after.stored(id));
            }
            assert forall|id: Seq<char>| #[trigger]
                scheduled_ids(after, other).contains(id) implies counts(theirs, id) by {
                assert(scheduled_ids(before, other).contains(id));
            }
        }
        assert forall|i: int|
            0 <= i < world.swept.len() && ((#[trigger] world.swept[i]).1 matches Some(event)
                && !event.scheduled()) implies after_world.used.contains(world.swept[i].0) && (
        after.stored(world.swept[i].0) == world.swept[i].1 || after.stored(
            world.swept[i].0,
        ) is None) by {
            let id = world.swept[i].0;
            if id != delay_id {
                assert(before.stored(id) == after.stored(id));
            }
        }
        assert forall|other: Seq<char>|
            (#[trigger] scheduled_ids(after, other)).finite() && (config.max_delayed_events_per_user
                != 0 ==> scheduled_ids(after, other).len()
                <= config.max_delayed_events_per_user) by {
            let theirs = scheduled_ids(before, other);
            assert(theirs.finite());
            if other == user {
                lemma_listing_counts(listing);
                assert(theirs.subset_of(counted_ids(listing))) by {
                    assert forall|id: Seq<char>| #[trigger]
                        theirs.contains(id) implies counted_ids(listing).contains(id) by {
                        assert(counts(listing, id));
                    }
                }
                lemma_len_subset(theirs, counted_ids(listing));
                assert(scheduled_ids(after, other) =~= theirs.insert(delay_id));
            } else {
                assert(scheduled_ids(after, other) =~= theirs);
            }
        }
    } else {
        assert(after == before);
        assert forall|other: Seq<char>| #[trigger]
            after_world.adding.dom().contains(other) implies listing_covers(
            after,
            after_world.used,
            other,
            after_world.adding[other],
        ) by {
            assert(world.adding.dom().contains(other));
        }
    }
}

/// Beginning a send.
proof fn lemma_started(
    config: Config,
    world: World,
    delay_id: Seq<char>,
    user: Seq<char>,
    now: u64,
    trigger: SendTrigger,
)
    requires
        sound(config, world),
        possible(config, world, Step::Start { delay_id, user, now, trigger }),
    ensures
        sound(config, stepped(config, world, Step::Start { delay_id, user, now, trigger })),
{
    let before = world.tables;
    law_send_start(before, delay_id, user, now, trigger);
    let start = send_start(delay_id, user, before.stored(delay_id), now, trigger);
    let after_world = stepped(config, world, Step::Start { delay_id, user, now, trigger });
    let after = after_world.tables;
    assert(fades(before, after, delay_id));
    lemma_fading_step(config, world, after, delay_id);
    match start {
        SendStartView::Finished { result, writes } => {
            assert(!(result matches Ok(Some(_)))) by {
                if before.stored(delay_id) is Some {
                    assert(before.events.dom().contains(delay_id));
                }
            }
        },
        SendStartView::Validate { attempt, writes } => {
            assert(before.stored(delay_id) is Some);
            assert(!world.appended.contains(delay_id));
            assert(!world.answered.contains(delay_id));
        },
    }
}

/// Appending an event.
proof fn lemma_appended(config: Config, world: World, delay_id: Seq<char>, facts: FactsView)
    requires
        sound(config, world),
        possible(config, world, Step::Append { delay_id, facts }),
    ensures
        sound(config, stepped(config, world, Step::Append { delay_id, facts })),
{
    assert(world.tables.stored(delay_id) is Some);
    assert(!world.appended.contains(delay_id));
    lemma_push_distinct(world.appended, delay_id);
    assert(!world.answered.contains(delay_id));
}

/// Cleaning up.
proof fn lemma_cleaned_up(config: Config, world: World, now: u64)
    requires
        sound(config, world),
    ensures
        sound(config, stepped(config, world, Step::Cleanup { now })),
{
    let before = world.tables;
    let after = applied(before, cleanup_writes(world.swept, now));
    let gone = cleaned_up(world.swept, now);
    law_cleanup(before, world.swept, now);
    assert forall|id: Seq<char>| gone.contains(id) implies !(#[trigger] before.stored(
        id,
    ) matches Some(event) && event.scheduled()) by {
        let i = choose|i: int|
            0 <= i < world.swept.len() && (#[trigger] world.swept[i]).0 == id && outlived_row(
                world.swept[i],
                now,
            );
        assert(world.swept[i].0 == id);
    }
    assert forall|id: Seq<char>| #[trigger] after.stored(id) is Some implies world.used.contains(
        id,
    ) by {
        assert(before.stored(id) is Some);
    }
    assert forall|id: Seq<char>| #[trigger] world.sending.dom().contains(id) implies {
        &&& world.sending[id].attempt.delay_id == id
        &&& after.stored(id) == Some(world.sending[id].attempt.event)
        &&& world.sending[id].attempt.event.scheduled()
        &&& forall|timeout: u64| !after.timeouts.contains((timeout, id))
    } by {
        assert(before.stored(id) == Some(world.sending[id].attempt.event));
        assert(!gone.contains(id));
        assert(after.stored(id) == before.stored(id));
        assert forall|timeout: u64| !after.timeouts.contains((timeout, id)) by {
            assert(!before.timeouts.contains((timeout, id)));
        }
    }
    assert forall|user: Seq<char>| #[trigger]
        world.adding.dom().contains(user) implies listing_covers(
        after,
        world.used,
        user,
        world.adding[user],
    ) by {
        let listing = world.adding[user];
        assert(listing_covers(before, world.used, user, listing));
        assert(scheduled_ids(after, user) == scheduled_ids(before, user));
        assert forall|k: int| 0 <= k < listing.delay_ids.len() implies world.used.contains(
            #[trigger] listing.delay_ids[k],
        ) && (after.stored(listing.delay_ids[k]) matches Some(event) ==> event.sender_user
            == user) by {
            let id = listing.delay_ids[k];
            assert(after.stored(id) == (if gone.contains(id) {
                None
            } else {
                before.stored(id)
            }));
        }
    }
    assert forall|user: Seq<char>|
        (#[trigger] scheduled_ids(after, user)).finite() && (config.max_delayed_events_per_user
            != 0 ==> scheduled_ids(after, user).len()
            <= config.max_delayed_events_per_user) by {
        assert(scheduled_ids(after, user) == scheduled_ids(before, user));
    }
    assert forall|id: Seq<char>| #[trigger]
        world.appended.contains(id) && !world.sending.dom().contains(id) implies after.stored(
        id,
    ) is None by {
        assert(before.stored(id) is None);
    }
}

/// Every step keeps what is sound: the tables are consistent, sends hold what is
/// stored, appends are final, and the limit holds.
pub proof fn law_every_step_is_sound(config: Config, world: World, step: Step)
    requires
        sound(config, world),
        possible(config, world, step),
    ensures
        sound(config, stepped(config, world, step)),
{
    let before = world.tables;
    let after = stepped(config, world, step).tables;
    match step {
        Step::ReadList { user, keys } => {
            lemma_read_list(config, world, user, keys);
        },
        Step::ReadRow { user } => {
            lemma_read_row(config, world, user);
        },
        Step::Add { new, delay_id, content, now } => {
            lemma_scheduled(config, world, new, delay_id, content, now);
        },
        Step::Remove { delay_id } => {
            law_remove(before, delay_id);
            assert(fades(before, after, delay_id));
            lemma_fading_step(config, world, after, delay_id);
        },
        Step::Cancel { delay_id, user } => {
            law_cancel(before, delay_id, user);
            assert(fades(before, after, delay_id));
            lemma_fading_step(config, world, after, delay_id);
        },
        Step::Restart { delay_id, user, timeout_base, running_since } => {
            law_restart(before, delay_id, user, timeout_base, running_since);
            assert(fades(before, after, delay_id));
            lemma_fading_step(config, world, after, delay_id);
        },
        Step::Start { delay_id, user, now, trigger } => {
            lemma_started(config, world, delay_id, user, now, trigger);
        },
        Step::Refuse { delay_id, facts, report, now } => {
            law_refusal(before, world.sending[delay_id].attempt, report, now);
            assert(fades(before, after, delay_id));
            lemma_send_ends(config, world, after, world.answered, delay_id);
        },
        Step::Append { delay_id, facts } => {
            lemma_appended(config, world, delay_id, facts);
        },
        Step::GiveUp { delay_id } => {
            assert(fades(before, after, delay_id));
            lemma_send_ends(config, world, after, world.answered, delay_id);
        },
        Step::Conclude { delay_id } => {
            law_sent(before, world.sending[delay_id].attempt);
            assert(fades(before, after, delay_id));
            lemma_send_ends(config, world, after, world.answered.push(delay_id), delay_id);
        },
        Step::Sweep { delay_id } => {
            let swept = world.swept.push((delay_id, before.stored(delay_id)));
            assert forall|i: int|
                0 <= i < swept.len() && ((#[trigger] swept[i]).1 matches Some(event)
                    && !event.scheduled()) implies world.used.contains(swept[i].0) && (
            before.stored(swept[i].0) == swept[i].1 || before.stored(swept[i].0) is None) by {
                if i < world.swept.len() {
                    assert(swept[i] == world.swept[i]);
                }
            }
        },
        Step::Cleanup { now } => {
            lemma_cleaned_up(config, world, now);
        },
    }
}

/// What was appended stays appended, and what was answered stays answered.
pub proof fn law_record_only_grows(config: Config, world: World, step: Step)
    ensures
        world.appended.is_prefix_of(stepped(config, world, step).appended),
        world.answered.is_prefix_of(stepped(config, world, step).answered),
{
}

/// Whatever happened on the server, in whatever order, it is sound.
pub proof fn law_every_history_is_sound(config: Config, steps: Seq<Step>)
    requires
        all_possible(config, steps),
    ensures
        sound(config, history(config, steps)),
    decreases steps.len(),
{
    if steps.len() == 0 {
        let world = empty_world();
        assert forall|user: Seq<char>| (#[trigger] scheduled_ids(world.tables, user)).finite()
            && scheduled_ids(world.tables, user).len() == 0 by {
            assert(scheduled_ids(world.tables, user) =~= Set::empty());
        }
    } else {
        law_every_history_is_sound(config, steps.drop_last());
        law_every_step_is_sound(config, history(config, steps.drop_last()), steps.last());
    }
}

/// An event is appended at most once, over any number of sends, cancellations,
/// restarts and scans that act on it, also concurrent ones. At most one of the
/// sends is answered with an event ID, and it is one that has appended the
/// event; every send that begins after it finds nothing to send.
pub proof fn law_appended_at_most_once(config: Config, steps: Seq<Step>)
    requires
        all_possible(config, steps),
    ensures
        ({
            let world = history(config, steps);
            &&& world.appended.no_duplicates()
            &&& world.answered.no_duplicates()
            &&& forall|id: Seq<char>| #[trigger]
                world.answered.contains(id) ==> world.appended.contains(id)
            &&& forall|id: Seq<char>, user: Seq<char>, now: u64, trigger: SendTrigger|
                world.appended.contains(id) && !world.sending.dom().contains(id)
                    ==> #[trigger] send_start(
                    id,
                    user,
                    world.tables.stored(id),
                    now,
                    trigger,
                ) == (SendStartView::Finished { result: Ok(None), writes: Seq::empty() })
        }),
{
    law_every_history_is_sound(config, steps);
}

/// At all times every user has at most as many scheduled events as the limit
/// allows, over any number of operations by any users, also concurrent ones. What
/// is counted when a user schedules an event is the user's alone, so nobody's
/// events count against another user.
pub proof fn law_limit_always_holds(config: Config, steps: Seq<Step>)
    requires
        all_possible(config, steps),
    ensures
        ({
            let world = history(config, steps);
            &&& config.max_delayed_events_per_user != 0 ==> forall|user: Seq<char>|
                (#[trigger] scheduled_ids(world.tables, user)).finite() && scheduled_ids(
                    world.tables,
                    user,
                ).len() <= config.max_delayed_events_per_user
            &&& forall|user: Seq<char>, k: int|
                world.adding.dom().contains(user) && 0 <= k < world.adding[user].rows.len() ==> ((
                #[trigger] world.adding[user].rows[k]) matches Some(event) ==> event.sender_user
                    == user)
        }),
{
    law_every_history_is_sound(config, steps);
    let world = history(config, steps);
    assert forall|user: Seq<char>, k: int|
        world.adding.dom().contains(user) && 0 <= k < world.adding[user].rows.len() implies ((
    #[trigger] world.adding[user].rows[k]) matches Some(event) ==> event.sender_user == user) by {
        assert(listing_covers(world.tables, world.used, user, world.adding[user]));
    }
}

/// Whatever happened, the tables agree with each other, and only delay IDs that
/// were given to events occur in them.
pub proof fn law_tables_stay_consistent(config: Config, steps: Seq<Step>)
    requires
        all_possible(config, steps),
    ensures
        history(config, steps).tables.consistent(),
        forall|id: Seq<char>| #[trigger]
            history(config, steps).tables.stored(id) is Some ==> history(
                config,
                steps,
            ).used.contains(id),
{
    law_every_history_is_sound(config, steps);
}

} // verus!
