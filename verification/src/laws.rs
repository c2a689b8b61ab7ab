//! What holds of the operations together, stated over the model of the tables.

use crate::config::Config;
use crate::event::DelayedEventView;
use crate::json::{raw_of, reads_as_itself};
use crate::policy::{FactsView, VerdictView};
use crate::scheduling::{new_delayed_event, NewEventView};
use crate::sending::{
    delayed_pdu, finalized, refusal_writes, send_start, send_step, send_time_verdict, sent_writes,
    unsigned_members, PduView, SendStartView, SendStepView, SendTrigger, SendView,
};
use crate::service::{
    add_refusal, add_writes, cancel_outcome, cleanup_writes, due_prefix, event_not_found,
    found_among, ids_of_sender, moot_id, outlived, outlived_row, own_id, removal_writes,
    remove_writes, restart_outcome, restarted, saturating_sum, scheduled_among, superseded,
    superseded_ids,
};
use crate::store::{applied, lemma_applied_in_a_row, well_formed, written, Tables, WriteView};
use crate::worker::sender_of;
use vstd::prelude::*;

verus! {

/// The effect of no write.
proof fn lemma_applied_none(tables: Tables)
    ensures
        applied(tables, Seq::empty()) == tables,
{
}

/// The effect of one write.
proof fn lemma_applied_one(tables: Tables, a: WriteView)
    ensures
        applied(tables, seq![a]) == written(tables, a),
{
    assert(seq![a].drop_last() =~= Seq::<WriteView>::empty());
    reveal_with_fuel(applied, 2);
}

/// The effect of two writes.
proof fn lemma_applied_two(tables: Tables, a: WriteView, b: WriteView)
    ensures
        applied(tables, seq![a, b]) == written(written(tables, a), b),
{
    lemma_applied_one(tables, a);
    assert(seq![a, b].drop_last() =~= seq![a]);
}

/// The effect of three writes.
proof fn lemma_applied_three(tables: Tables, a: WriteView, b: WriteView, c: WriteView)
    ensures
        applied(tables, seq![a, b, c]) == written(written(written(tables, a), b), c),
{
    lemma_applied_two(tables, a, b);
    assert(seq![a, b, c].drop_last() =~= seq![a, b]);
}

/// The tables without anything under the delay ID, where the tables are
/// consistent.
pub open spec fn without(tables: Tables, delay_id: Seq<char>) -> Tables {
    match tables.stored(delay_id) {
        Some(event) => Tables {
            events: tables.events.remove(delay_id),
            timeouts: tables.timeouts.remove((event.timeout, delay_id)),
            senders: tables.senders.remove((event.sender_user, delay_id)),
        },
        None => tables,
    }
}

/// The two tables hold the same under every other delay ID.
pub open spec fn same_elsewhere(before: Tables, after: Tables, delay_id: Seq<char>) -> bool {
    &&& forall|id: Seq<char>| id != delay_id ==> #[trigger] before.stored(id) == after.stored(id)
    &&& forall|timeout: u64, id: Seq<char>|
        id != delay_id ==> #[trigger] before.timeouts.contains((timeout, id))
            == after.timeouts.contains((timeout, id))
    &&& forall|sender: Seq<char>, id: Seq<char>|
        id != delay_id ==> #[trigger] before.senders.contains((sender, id))
            == after.senders.contains((sender, id))
}

/// Scheduling an event under a new delay ID keeps the tables consistent. The
/// event is stored as it was scheduled, it is in the queue with its timeout and
/// in its sender's list, and no other event is touched.
pub proof fn law_add(tables: Tables, event: DelayedEventView)
    requires
        tables.consistent(),
        tables.stored(event.delay_id) is None,
        event.scheduled(),
        well_formed(event),
    ensures
        applied(tables, add_writes(event)).consistent(),
        applied(tables, add_writes(event)).stored(event.delay_id) == Some(event),
        applied(tables, add_writes(event)).timeouts.contains((event.timeout, event.delay_id)),
        applied(tables, add_writes(event)).senders.contains((event.sender_user, event.delay_id)),
        same_elsewhere(tables, applied(tables, add_writes(event)), event.delay_id),
{
    let id = event.delay_id;
    lemma_applied_three(
        tables,
        WriteView::PutEvent { delay_id: id, event },
        WriteView::PutTimeout { timeout: event.timeout, delay_id: id },
        WriteView::PutSender { sender_user: event.sender_user, delay_id: id },
    );
    let after = applied(tables, add_writes(event));
    assert(after.events =~= tables.events.insert(id, event));
    assert forall|i: Seq<char>| #[trigger] after.events.dom().contains(i) implies {
        &&& after.events[i].delay_id == i
        &&& after.senders.contains((after.events[i].sender_user, i))
        &&& well_formed(after.events[i])
    } by {
        if i != id {
            assert(tables.events.dom().contains(i));
        }
    }
    assert forall|t: u64, i: Seq<char>| #[trigger] after.timeouts.contains((t, i)) implies {
        &&& after.events.dom().contains(i)
        &&& after.events[i].timeout == t
        &&& after.events[i].scheduled()
    } by {
        if (t, i) != (event.timeout, id) {
            assert(tables.timeouts.contains((t, i)));
        }
    }
    assert forall|s: Seq<char>, i: Seq<char>| #[trigger]
        after.senders.contains((s, i)) implies after.events.dom().contains(i)
        && after.events[i].sender_user == s by {
        if (s, i) != (event.sender_user, id) {
            assert(tables.senders.contains((s, i)));
        }
    }
}

/// Removing what is stored under a delay ID keeps the tables consistent, leaves
/// no trace of the delay ID in any of them, and touches no other event.
pub proof fn law_remove(tables: Tables, delay_id: Seq<char>)
    requires
        tables.consistent(),
    ensures
        applied(tables, remove_writes(delay_id, tables.stored(delay_id))) == without(
            tables,
            delay_id,
        ),
        without(tables, delay_id).consistent(),
        without(tables, delay_id).fresh(delay_id),
        same_elsewhere(tables, without(tables, delay_id), delay_id),
{
    let after = without(tables, delay_id);
    match tables.stored(delay_id) {
        Some(event) => {
            lemma_applied_three(
                tables,
                WriteView::RemoveTimeout { timeout: event.timeout, delay_id },
                WriteView::RemoveSender { sender_user: event.sender_user, delay_id },
                WriteView::RemoveEvent { delay_id },
            );
        },
        None => {
            lemma_applied_one(tables, WriteView::RemoveEvent { delay_id });
            assert(tables.events.remove(delay_id) =~= tables.events);
        },
    }
    assert forall|t: u64| !after.timeouts.contains((t, delay_id)) by {
        if tables.timeouts.contains((t, delay_id)) {
            assert(tables.events.dom().contains(delay_id));
        }
    }
    assert forall|s: Seq<char>| !after.senders.contains((s, delay_id)) by {
        if tables.senders.contains((s, delay_id)) {
            assert(tables.events.dom().contains(delay_id));
        }
    }
    assert forall|i: Seq<char>| #[trigger] after.events.dom().contains(i) implies {
        &&& after.events[i].delay_id == i
        &&& after.senders.contains((after.events[i].sender_user, i))
        &&& well_formed(after.events[i])
    } by {
        assert(tables.events.dom().contains(i));
    }
    assert forall|t: u64, i: Seq<char>| #[trigger] after.timeouts.contains((t, i)) implies {
        &&& after.events.dom().contains(i)
        &&& after.events[i].timeout == t
        &&& after.events[i].scheduled()
    } by {
        assert(tables.timeouts.contains((t, i)));
    }
    assert forall|s: Seq<char>, i: Seq<char>| #[trigger]
        after.senders.contains((s, i)) implies after.events.dom().contains(i)
        && after.events[i].sender_user == s by {
        assert(tables.senders.contains((s, i)));
    }
}

/// A cancellation keeps the tables consistent. It succeeds unless the event is
/// somebody else's, and then a scheduled event is gone without a trace; in
/// every other case nothing changes.
pub proof fn law_cancel(tables: Tables, delay_id: Seq<char>, sender_user: Seq<char>)
    requires
        tables.consistent(),
    ensures
        ({
            let (result, writes) = cancel_outcome(delay_id, sender_user, tables.stored(delay_id));
            let after = applied(tables, writes);
            &&& after.consistent()
            &&& same_elsewhere(tables, after, delay_id)
            &&& match tables.stored(delay_id) {
                Some(event) => if event.sender_user != sender_user {
                    result is Err && after == tables
                } else if event.scheduled() {
                    result is Ok && after.fresh(delay_id)
                } else {
                    result is Ok && after == tables
                },
                None => result is Ok && after == tables,
            }
        }),
{
    lemma_applied_none(tables);
    law_remove(tables, delay_id);
}

/// Cancelling is idempotent: the second cancellation succeeds like the first,
/// and changes nothing.
pub proof fn law_cancel_twice(tables: Tables, delay_id: Seq<char>, sender_user: Seq<char>)
    requires
        tables.consistent(),
        cancel_outcome(delay_id, sender_user, tables.stored(delay_id)).0 is Ok,
    ensures
        ({
            let once = applied(
                tables,
                cancel_outcome(delay_id, sender_user, tables.stored(delay_id)).1,
            );
            let again = cancel_outcome(delay_id, sender_user, once.stored(delay_id));
            again.0 is Ok && applied(once, again.1) == once
        }),
{
    law_cancel(tables, delay_id, sender_user);
    let once = applied(tables, cancel_outcome(delay_id, sender_user, tables.stored(delay_id)).1);
    law_cancel(once, delay_id, sender_user);
}

/// Cancelling undoes scheduling: the tables are as they were before.
pub proof fn law_cancel_undoes_add(tables: Tables, event: DelayedEventView)
    requires
        tables.consistent(),
        tables.stored(event.delay_id) is None,
        event.scheduled(),
        well_formed(event),
    ensures
        ({
            let added = applied(tables, add_writes(event));
            let outcome = cancel_outcome(
                event.delay_id,
                event.sender_user,
                added.stored(event.delay_id),
            );
            outcome.0 is Ok && applied(added, outcome.1) == tables
        }),
{
    law_add(tables, event);
    let id = event.delay_id;
    let added = applied(tables, add_writes(event));
    law_remove(added, id);
    lemma_applied_three(
        tables,
        WriteView::PutEvent { delay_id: id, event },
        WriteView::PutTimeout { timeout: event.timeout, delay_id: id },
        WriteView::PutSender { sender_user: event.sender_user, delay_id: id },
    );
    let back = without(added, id);
    assert(back.events =~= tables.events);
    assert(!tables.timeouts.contains((event.timeout, id)));
    assert(back.timeouts =~= tables.timeouts);
    assert(!tables.senders.contains((event.sender_user, id)));
    assert(back.senders =~= tables.senders);
}

/// A restart keeps the tables consistent and touches no other event. Where it
/// succeeds the event is the same but for its timeout and its start, and the
/// queue holds it with the new timeout only; where it fails nothing changes.
pub proof fn law_restart(
    tables: Tables,
    delay_id: Seq<char>,
    sender_user: Seq<char>,
    timeout_base: u64,
    running_since: u64,
)
    requires
        tables.consistent(),
    ensures
        ({
            let (result, writes) = restart_outcome(
                delay_id,
                sender_user,
                tables.stored(delay_id),
                timeout_base,
                running_since,
            );
            let after = applied(tables, writes);
            &&& after.consistent()
            &&& same_elsewhere(tables, after, delay_id)
            &&& match result {
                Ok(()) => {
                    let event = restarted(tables.events[delay_id], timeout_base, running_since);
                    &&& after.stored(delay_id) == Some(event)
                    &&& event.timeout == saturating_sum(timeout_base, event.delay_ms)
                    &&& forall|t: u64| #[trigger]
                        after.timeouts.contains((t, delay_id)) <==> t == event.timeout
                },
                Err(_) => after == tables,
            }
        }),
{
    lemma_applied_none(tables);
    let (result, writes) = restart_outcome(
        delay_id,
        sender_user,
        tables.stored(delay_id),
        timeout_base,
        running_since,
    );
    if result is Ok {
        let event = tables.events[delay_id];
        let event_after = restarted(event, timeout_base, running_since);
        lemma_applied_three(
            tables,
            WriteView::RemoveTimeout { timeout: event.timeout, delay_id },
            WriteView::PutEvent { delay_id, event: event_after },
            WriteView::PutTimeout { timeout: event_after.timeout, delay_id },
        );
        let after = applied(tables, writes);
        assert(tables.events.dom().contains(delay_id));
        assert(after.events =~= tables.events.insert(delay_id, event_after));
        assert forall|i: Seq<char>| #[trigger] after.events.dom().contains(i) implies {
            &&& after.events[i].delay_id == i
            &&& after.senders.contains((after.events[i].sender_user, i))
            &&& well_formed(after.events[i])
        } by {
            assert(tables.events.dom().contains(i));
        }
        assert forall|t: u64, i: Seq<char>| #[trigger] after.timeouts.contains((t, i)) implies {
            &&& after.events.dom().contains(i)
            &&& after.events[i].timeout == t
            &&& after.events[i].scheduled()
        } by {
            if (t, i) != (event_after.timeout, delay_id) {
                assert(tables.timeouts.contains((t, i)));
            }
        }
        assert forall|t: u64| #[trigger] after.timeouts.contains((t, delay_id)) implies t
            == event_after.timeout by {
            if t != event_after.timeout {
                assert(tables.timeouts.contains((t, delay_id)));
            }
        }
    }
}

/// What others may not touch they cannot tell from what is not there: to
/// everybody but its sender an event is not found, by a cancellation, a restart
/// and a send alike, and nothing changes.
pub proof fn law_strangers_find_nothing(
    tables: Tables,
    delay_id: Seq<char>,
    stranger: Seq<char>,
    now: u64,
    running_since: u64,
    trigger: SendTrigger,
)
    requires
        tables.stored(delay_id) matches Some(event) && event.sender_user != stranger,
    ensures
        cancel_outcome(delay_id, stranger, tables.stored(delay_id)) == (
            Err::<(), _>(event_not_found()),
            Seq::<WriteView>::empty(),
        ),
        restart_outcome(delay_id, stranger, tables.stored(delay_id), now, running_since)
            == restart_outcome(delay_id, stranger, None, now, running_since),
        send_start(delay_id, stranger, tables.stored(delay_id), now, trigger)
            == (SendStartView::Finished {
            result: Err(event_not_found()),
            writes: Seq::empty(),
        }),
        applied(tables, Seq::empty()) == tables,
{
    lemma_applied_none(tables);
}

/// Where its sender asks for it, a scheduled event is sent at once, whatever
/// its timeout: it leaves the queue and the policy is asked.
pub proof fn law_request_sends_at_once(
    tables: Tables,
    delay_id: Seq<char>,
    now: u64,
)
    requires
        tables.stored(delay_id) matches Some(event) && event.scheduled(),
    ensures
        ({
            let event = tables.events[delay_id];
            send_start(
                delay_id,
                event.sender_user,
                tables.stored(delay_id),
                now,
                SendTrigger::Request,
            ) == (SendStartView::Validate {
                attempt: SendView { delay_id, event },
                writes: seq![WriteView::RemoveTimeout { timeout: event.timeout, delay_id }],
            })
        }),
{
}

/// The worker never sends an event before its timeout: an event that was
/// restarted after the queue was scanned is left scheduled, and in the queue.
pub proof fn law_worker_waits(
    tables: Tables,
    delay_id: Seq<char>,
    sender_user: Seq<char>,
    now: u64,
)
    requires
        tables.consistent(),
        tables.stored(delay_id) matches Some(event) && event.timeout > now,
    ensures
        ({
            let event = tables.events[delay_id];
            let start = send_start(
                delay_id,
                sender_user,
                tables.stored(delay_id),
                now,
                SendTrigger::DueScan,
            );
            &&& start is Finished
            &&& applied(tables, start->Finished_writes).events == tables.events
            &&& sender_user == event.sender_user && event.scheduled() ==> applied(
                tables,
                start->Finished_writes,
            ).timeouts.contains((event.timeout, delay_id))
        }),
{
    let event = tables.events[delay_id];
    lemma_applied_none(tables);
    lemma_applied_one(tables, WriteView::PutTimeout { timeout: event.timeout, delay_id });
}

/// Beginning a send keeps the tables consistent and touches no other event; the
/// event itself stays as it is. Once it is on its way it is not in the queue
/// any more.
pub proof fn law_send_start(
    tables: Tables,
    delay_id: Seq<char>,
    sender_user: Seq<char>,
    now: u64,
    trigger: SendTrigger,
)
    requires
        tables.consistent(),
    ensures
        ({
            let start = send_start(
                delay_id,
                sender_user,
                tables.stored(delay_id),
                now,
                trigger,
            );
            let writes = match start {
                SendStartView::Finished { result, writes } => writes,
                SendStartView::Validate { attempt, writes } => writes,
            };
            let after = applied(tables, writes);
            &&& after.consistent()
            &&& same_elsewhere(tables, after, delay_id)
            &&& after.stored(delay_id) == tables.stored(delay_id)
            &&& start matches SendStartView::Validate { attempt, .. } ==> {
                &&& attempt.delay_id == delay_id
                &&& tables.stored(delay_id) == Some(attempt.event)
                &&& attempt.event.scheduled()
                &&& forall|t: u64| !after.timeouts.contains((t, delay_id))
            }
        }),
{
    lemma_applied_none(tables);
    match tables.stored(delay_id) {
        Some(event) => {
            lemma_applied_one(tables, WriteView::PutTimeout { timeout: event.timeout, delay_id });
            lemma_applied_one(
                tables,
                WriteView::RemoveTimeout { timeout: event.timeout, delay_id },
            );
            let put = written(tables, WriteView::PutTimeout { timeout: event.timeout, delay_id });
            assert(tables.events.dom().contains(delay_id));
            assert forall|t: u64, i: Seq<char>| #[trigger]
                put.timeouts.contains((t, i)) && event.scheduled() implies {
                &&& put.events.dom().contains(i)
                &&& put.events[i].timeout == t
                &&& put.events[i].scheduled()
            } by {
                if (t, i) != (event.timeout, delay_id) {
                    assert(tables.timeouts.contains((t, i)));
                }
            }
            let gone = written(
                tables,
                WriteView::RemoveTimeout { timeout: event.timeout, delay_id },
            );
            assert forall|t: u64, i: Seq<char>| #[trigger] gone.timeouts.contains((t, i)) implies {
                &&& gone.events.dom().contains(i)
                &&& gone.events[i].timeout == t
                &&& gone.events[i].scheduled()
            } by {
                assert(tables.timeouts.contains((t, i)));
            }
            assert forall|t: u64| !gone.timeouts.contains((t, delay_id)) by {
                if gone.timeouts.contains((t, delay_id)) {
                    assert(tables.timeouts.contains((t, delay_id)));
                }
            }
        },
        None => {},
    }
}

/// A refusal keeps the tables consistent and touches no other event. The event
/// is finalized with the error, and still in its sender's list; it is not sent
/// again, and it cannot be restarted.
pub proof fn law_refusal(tables: Tables, send: SendView, report: Seq<char>, now: u64)
    requires
        tables.consistent(),
        tables.stored(send.delay_id) == Some(send.event),
        forall|t: u64| !tables.timeouts.contains((t, send.delay_id)),
    ensures
        ({
            let after = applied(tables, refusal_writes(send, report, now));
            &&& after.consistent()
            &&& same_elsewhere(tables, after, send.delay_id)
            &&& after.stored(send.delay_id) == Some(finalized(send.event, report, now))
            &&& after.senders.contains((send.event.sender_user, send.delay_id))
            &&& forall|user: Seq<char>, at: u64, trigger: SendTrigger|
                #[trigger] send_start(
                    send.delay_id,
                    user,
                    after.stored(send.delay_id),
                    at,
                    trigger,
                ) is Finished
            &&& forall|user: Seq<char>, at: u64, since: u64|
                (#[trigger] restart_outcome(
                    send.delay_id,
                    user,
                    after.stored(send.delay_id),
                    at,
                    since,
                )).0 is Err
        }),
{
    let id = send.delay_id;
    let event_after = finalized(send.event, report, now);
    lemma_applied_one(tables, WriteView::PutEvent { delay_id: id, event: event_after });
    let after = applied(tables, refusal_writes(send, report, now));
    assert(tables.events.dom().contains(id));
    assert forall|i: Seq<char>| #[trigger] after.events.dom().contains(i) implies {
        &&& after.events[i].delay_id == i
        &&& after.senders.contains((after.events[i].sender_user, i))
        &&& well_formed(after.events[i])
    } by {
        assert(tables.events.dom().contains(i));
    }
}

/// A send that succeeds keeps the tables consistent, touches no other event and
/// leaves no trace of the delay ID. So the event is not sent again: whoever asks
/// for it, there is nothing to send and nothing to restart.
pub proof fn law_sent(tables: Tables, send: SendView)
    requires
        tables.consistent(),
        tables.stored(send.delay_id) == Some(send.event),
        forall|t: u64| !tables.timeouts.contains((t, send.delay_id)),
    ensures
        ({
            let after = applied(tables, sent_writes(send));
            &&& after.consistent()
            &&& same_elsewhere(tables, after, send.delay_id)
            &&& after.fresh(send.delay_id)
            &&& forall|user: Seq<char>, at: u64, trigger: SendTrigger|
                #[trigger] send_start(
                    send.delay_id,
                    user,
                    after.stored(send.delay_id),
                    at,
                    trigger,
                ) == (SendStartView::Finished { result: Ok(None), writes: Seq::empty() })
        }),
{
    let id = send.delay_id;
    lemma_applied_two(
        tables,
        WriteView::RemoveSender { sender_user: send.event.sender_user, delay_id: id },
        WriteView::RemoveEvent { delay_id: id },
    );
    law_remove(tables, id);
    let after = applied(tables, sent_writes(send));
    assert(tables.timeouts.remove((send.event.timeout, id)) =~= tables.timeouts);
    assert(after =~= without(tables, id));
}

/// An event is appended to its room only where the policy allows it at that
/// time, and then it is the event that was scheduled.
pub proof fn law_append_needs_permission(
    config: Config,
    attempt: SendView,
    raw: Result<Seq<char>, Seq<char>>,
    facts: FactsView,
)
    ensures
        send_step(config, attempt, raw, facts) matches SendStepView::Append { publication, pdu }
            ==> {
            &&& send_time_verdict(config, attempt.event, raw, facts) matches VerdictView::Decided(Ok(_))
            &&& raw is Ok
            &&& publication == attempt
            &&& pdu == delayed_pdu(attempt, raw->Ok_0)
        },
{
}

/// The worker finds exactly the events that are due: where the queue is read in
/// the order of the timeouts, the scan gives the delay IDs whose timeout has
/// come.
pub proof fn law_scan_finds_what_is_due(keys: Seq<(u64, Seq<char>)>, now: u64, delay_id: Seq<char>)
    requires
        forall|i: int, j: int| 0 <= i <= j < keys.len() ==> keys[i].0 <= keys[j].0,
    ensures
        due_prefix(keys, now).contains(delay_id) <==> exists|timeout: u64|
            timeout <= now && #[trigger] keys.contains((timeout, delay_id)),
    decreases keys.len(),
{
    if keys.len() > 0 && keys[0].0 <= now {
        let rest = keys.drop_first();
        assert forall|i: int, j: int| 0 <= i <= j < rest.len() implies rest[i].0 <= rest[j].0 by {
            assert(rest[i] == keys[i + 1]);
            assert(rest[j] == keys[j + 1]);
        }
        law_scan_finds_what_is_due(rest, now, delay_id);
        let found = due_prefix(keys, now);
        assert(found[0] == keys[0].1);
        if found.contains(delay_id) {
            let k = choose|k: int| 0 <= k < found.len() && found[k] == delay_id;
            if k == 0 {
                assert(keys.contains((keys[0].0, delay_id)));
            } else {
                assert(due_prefix(rest, now)[k - 1] == delay_id);
                assert(due_prefix(rest, now).contains(delay_id));
                let timeout = choose|timeout: u64|
                    timeout <= now && #[trigger] rest.contains((timeout, delay_id));
                let m = choose|m: int| 0 <= m < rest.len() && rest[m] == (timeout, delay_id);
                assert(keys[m + 1] == (timeout, delay_id));
                assert(keys.contains((timeout, delay_id)));
            }
        }
        if exists|timeout: u64| timeout <= now && #[trigger] keys.contains((timeout, delay_id)) {
            let timeout = choose|timeout: u64|
                timeout <= now && #[trigger] keys.contains((timeout, delay_id));
            let m = choose|m: int| 0 <= m < keys.len() && keys[m] == (timeout, delay_id);
            if m == 0 {
                assert(found[0] == delay_id);
            } else {
                assert(rest[m - 1] == (timeout, delay_id));
                assert(rest.contains((timeout, delay_id)));
                let k = choose|k: int|
                    0 <= k < due_prefix(rest, now).len() && due_prefix(rest, now)[k] == delay_id;
                assert(found[k + 1] == delay_id);
            }
        }
    } else if keys.len() > 0 {
        assert forall|timeout: u64| #[trigger] keys.contains((timeout, delay_id)) implies timeout
            > now by {
            let m = choose|m: int| 0 <= m < keys.len() && keys[m] == (timeout, delay_id);
            assert(keys[0].0 <= keys[m].0);
        }
    }
}

/// What a mapping keeps of a sequence is in the result.
proof fn lemma_filter_map_keeps<A, B>(s: Seq<A>, f: spec_fn(A) -> Option<B>, a: A)
    requires
        s.contains(a),
        f(a) is Some,
    ensures
        s.filter_map(f).contains(f(a)->0),
    decreases s.len(),
{
    let rest = s.drop_last();
    let k = choose|k: int| 0 <= k < s.len() && s[k] == a;
    if k == s.len() - 1 {
        let out = s.filter_map(f);
        assert(out == rest.filter_map(f) + seq![f(a)->0]);
        assert(out[out.len() - 1] == f(a)->0);
    } else {
        assert(rest[k] == a);
        lemma_filter_map_keeps(rest, f, a);
        let m = choose|m: int|
            0 <= m < rest.filter_map(f).len() && rest.filter_map(f)[m] == f(a)->0;
        assert(s.filter_map(f)[m] == f(a)->0);
    }
}

/// A user's list is complete and holds nothing else: where the sender lists are
/// read whole, the delay IDs of a user are those of the stored events that the
/// user has scheduled.
pub proof fn law_list_is_complete(
    tables: Tables,
    keys: Seq<(Seq<char>, Seq<char>)>,
    sender_user: Seq<char>,
    delay_id: Seq<char>,
)
    requires
        tables.consistent(),
        forall|key: (Seq<char>, Seq<char>)| #[trigger]
            keys.contains(key) <==> tables.senders.contains(key),
    ensures
        ids_of_sender(keys, sender_user).contains(delay_id) <==> (tables.stored(
            delay_id,
        ) matches Some(event) && event.sender_user == sender_user),
{
    let f = own_id(sender_user);
    let ids = ids_of_sender(keys, sender_user);
    if ids.contains(delay_id) {
        keys.lemma_filter_map_contains(f, delay_id);
        let key = choose|key: (Seq<char>, Seq<char>)| #[trigger]
            keys.contains(key) && f(key) == Some(delay_id);
        assert(tables.senders.contains((key.0, key.1)));
    }
    if tables.stored(delay_id) matches Some(event) && event.sender_user == sender_user {
        assert(tables.events.dom().contains(delay_id));
        assert(keys.contains((sender_user, delay_id)));
        lemma_filter_map_keeps(keys, f, (sender_user, delay_id));
    }
}

/// The user's scheduled events, by their delay IDs.
pub open spec fn scheduled_ids(tables: Tables, user: Seq<char>) -> Set<Seq<char>> {
    Set::new(
        |id: Seq<char>|
            tables.stored(id) matches Some(event) && event.sender_user == user
                && event.scheduled(),
    )
}

/// What is stored under the delay IDs, in order.
pub open spec fn rows_of(tables: Tables, delay_ids: Seq<Seq<char>>) -> Seq<
    Option<DelayedEventView>,
> {
    delay_ids.map_values(|id: Seq<char>| tables.stored(id))
}

/// In a user's list no delay ID occurs twice.
pub proof fn lemma_own_ids_distinct(keys: Seq<(Seq<char>, Seq<char>)>, user: Seq<char>)
    requires
        keys.no_duplicates(),
    ensures
        ids_of_sender(keys, user).no_duplicates(),
    decreases keys.len(),
{
    if keys.len() > 0 {
        let rest = keys.drop_last();
        lemma_own_ids_distinct(rest, user);
        let rest_ids = ids_of_sender(rest, user);
        let last = keys.last();
        if last.0 == user {
            if rest_ids.contains(last.1) {
                rest.lemma_filter_map_contains(own_id(user), last.1);
                let key = choose|key: (Seq<char>, Seq<char>)| #[trigger]
                    rest.contains(key) && own_id(user)(key) == Some(last.1);
                let k = choose|k: int| 0 <= k < rest.len() && rest[k] == key;
                assert(keys[k] == keys[keys.len() - 1]);
            }
            assert(ids_of_sender(keys, user) == rest_ids + seq![last.1]);
        }
    }
}

/// The scheduled ones among listed events are as many as their delay IDs.
proof fn lemma_count_scheduled(tables: Tables, delay_ids: Seq<Seq<char>>)
    requires
        delay_ids.no_duplicates(),
        forall|i: int| 0 <= i < delay_ids.len() ==> tables.stored(#[trigger] delay_ids[i]) is Some,
    ensures
        ({
            let ids = Set::new(
                |id: Seq<char>| delay_ids.contains(id) && tables.events[id].scheduled(),
            );
            &&& ids.finite()
            &&& ids.len() == scheduled_among(found_among(rows_of(tables, delay_ids))).len()
        }),
    decreases delay_ids.len(),
{
    reveal(Seq::filter);
    let ids = Set::new(|id: Seq<char>| delay_ids.contains(id) && tables.events[id].scheduled());
    let rows = rows_of(tables, delay_ids);
    if delay_ids.len() == 0 {
        assert(ids =~= Set::empty());
        assert(found_among(rows) =~= Seq::empty());
    } else {
        let rest = delay_ids.drop_last();
        let last = delay_ids.last();
        assert forall|i: int| 0 <= i < rest.len() implies tables.stored(
            #[trigger] rest[i],
        ) is Some by {
            assert(rest[i] == delay_ids[i]);
        }
        lemma_count_scheduled(tables, rest);
        let rest_ids = Set::new(
            |id: Seq<char>| rest.contains(id) && tables.events[id].scheduled(),
        );
        assert(delay_ids[delay_ids.len() - 1] == last);
        let event = tables.events[last];
        assert(rows.drop_last() =~= rows_of(tables, rest));
        assert(rows.last() == Some(event));
        let found = found_among(rows);
        let rest_found = found_among(rows_of(tables, rest));
        assert(found =~= rest_found + seq![event]);
        assert(found.drop_last() =~= rest_found);
        assert(found.last() == event);
        assert(!rest.contains(last)) by {
            if rest.contains(last) {
                let k = choose|k: int| 0 <= k < rest.len() && rest[k] == last;
                assert(delay_ids[k] == delay_ids[delay_ids.len() - 1]);
            }
        }
        assert forall|id: Seq<char>| #[trigger]
            delay_ids.contains(id) <==> rest.contains(id) || id == last by {
            if delay_ids.contains(id) {
                let k = choose|k: int| 0 <= k < delay_ids.len() && delay_ids[k] == id;
                if k < rest.len() {
                    assert(rest[k] == id);
                }
            }
            if rest.contains(id) {
                let k = choose|k: int| 0 <= k < rest.len() && rest[k] == id;
                assert(delay_ids[k] == id);
            }
        }
        if event.scheduled() {
            assert(ids =~= rest_ids.insert(last));
            assert(!rest_ids.contains(last));
        } else {
            assert(ids =~= rest_ids);
        }
    }
}

/// No user ever has more scheduled events than the limit allows: where the
/// sender lists are read whole before an event is scheduled, and it is not
/// refused, the user has no more than that afterwards.
pub proof fn law_limit_holds_in_the_tables(
    tables: Tables,
    config: Config,
    keys: Seq<(Seq<char>, Seq<char>)>,
    event: DelayedEventView,
)
    requires
        tables.consistent(),
        tables.stored(event.delay_id) is None,
        event.scheduled(),
        well_formed(event),
        keys.no_duplicates(),
        forall|key: (Seq<char>, Seq<char>)| #[trigger]
            keys.contains(key) <==> tables.senders.contains(key),
        config.max_delayed_events_per_user != 0,
        add_refusal(
            config,
            event.delay_ms,
            found_among(rows_of(tables, ids_of_sender(keys, event.sender_user))),
        ) is None,
    ensures
        scheduled_ids(applied(tables, add_writes(event)), event.sender_user).finite(),
        scheduled_ids(applied(tables, add_writes(event)), event.sender_user).len()
            <= config.max_delayed_events_per_user,
{
    let user = event.sender_user;
    let own = ids_of_sender(keys, user);
    assert forall|id: Seq<char>| #[trigger]
        own.contains(id) <==> (tables.stored(id) matches Some(stored) && stored.sender_user
            == user) by {
        law_list_is_complete(tables, keys, user, id);
    }
    assert forall|i: int| 0 <= i < own.len() implies tables.stored(#[trigger] own[i]) is Some by {
        assert(own.contains(own[i]));
    }
    lemma_own_ids_distinct(keys, user);
    lemma_count_scheduled(tables, own);
    let before = Set::new(|id: Seq<char>| own.contains(id) && tables.events[id].scheduled());
    law_add(tables, event);
    let after = applied(tables, add_writes(event));
    let ids = scheduled_ids(after, user);
    assert(ids =~= before.insert(event.delay_id)) by {
        assert forall|id: Seq<char>| #[trigger] ids.contains(id) <==> before.insert(
            event.delay_id,
        ).contains(id) by {
            if id != event.delay_id {
                assert(tables.stored(id) == after.stored(id));
            }
            assert(own.contains(id) <==> (tables.stored(id) matches Some(stored)
                && stored.sender_user == user));
        }
    }
    assert(!own.contains(event.delay_id));
}

/// Nothing but scheduling makes an event scheduled: a removal, a cancellation, a
/// restart, a send and its conclusion never give a user more scheduled events.
pub proof fn law_only_scheduling_schedules(
    tables: Tables,
    delay_id: Seq<char>,
    asking: Seq<char>,
    user: Seq<char>,
    now: u64,
    running_since: u64,
    trigger: SendTrigger,
    report: Seq<char>,
)
    requires
        tables.consistent(),
    ensures
        ({
            let before = scheduled_ids(tables, user);
            let stored = tables.stored(delay_id);
            let start = send_start(delay_id, asking, stored, now, trigger);
            &&& scheduled_ids(
                applied(tables, remove_writes(delay_id, stored)),
                user,
            ).subset_of(before)
            &&& scheduled_ids(
                applied(tables, cancel_outcome(delay_id, asking, stored).1),
                user,
            ).subset_of(before)
            &&& scheduled_ids(
                applied(
                    tables,
                    restart_outcome(delay_id, asking, stored, now, running_since).1,
                ),
                user,
            ).subset_of(before)
            &&& match start {
                SendStartView::Finished { result, writes } => scheduled_ids(
                    applied(tables, writes),
                    user,
                ).subset_of(before),
                SendStartView::Validate { attempt, writes } => {
                    let sending = applied(tables, writes);
                    &&& scheduled_ids(sending, user).subset_of(before)
                    &&& scheduled_ids(
                        applied(sending, refusal_writes(attempt, report, now)),
                        user,
                    ).subset_of(before)
                    &&& scheduled_ids(
                        applied(sending, sent_writes(attempt)),
                        user,
                    ).subset_of(before)
                },
            }
        }),
{
    law_remove(tables, delay_id);
    lemma_scheduled_stays(tables, without(tables, delay_id), delay_id, user);
    law_cancel(tables, delay_id, asking);
    law_restart(tables, delay_id, asking, now, running_since);
    law_send_start(tables, delay_id, asking, now, trigger);
    let stored = tables.stored(delay_id);
    let cancelled = applied(tables, cancel_outcome(delay_id, asking, stored).1);
    lemma_scheduled_stays(tables, cancelled, delay_id, user);
    let outcome = restart_outcome(delay_id, asking, stored, now, running_since);
    lemma_scheduled_stays(tables, applied(tables, outcome.1), delay_id, user);
    match send_start(delay_id, asking, stored, now, trigger) {
        SendStartView::Finished { result, writes } => {
            lemma_scheduled_stays(tables, applied(tables, writes), delay_id, user);
        },
        SendStartView::Validate { attempt, writes } => {
            let sending = applied(tables, writes);
            lemma_scheduled_stays(tables, sending, delay_id, user);
            law_refusal(sending, attempt, report, now);
            lemma_scheduled_stays(
                sending,
                applied(sending, refusal_writes(attempt, report, now)),
                delay_id,
                user,
            );
            law_sent(sending, attempt);
            lemma_scheduled_stays(
                sending,
                applied(sending, sent_writes(attempt)),
                delay_id,
                user,
            );
        },
    }
}

/// Where only one event changes, and it is scheduled afterwards only if it was
/// before, with the same sender, nobody gets more scheduled events.
pub proof fn lemma_scheduled_stays(
    before: Tables,
    after: Tables,
    delay_id: Seq<char>,
    user: Seq<char>,
)
    requires
        same_elsewhere(before, after, delay_id),
        after.stored(delay_id) matches Some(event) && event.scheduled() ==> (before.stored(
            delay_id,
        ) matches Some(earlier) && earlier.scheduled() && earlier.sender_user
            == after.stored(delay_id)->0.sender_user),
    ensures
        scheduled_ids(after, user).subset_of(scheduled_ids(before, user)),
{
    assert forall|id: Seq<char>| #[trigger]
        scheduled_ids(after, user).contains(id) implies scheduled_ids(before, user).contains(
        id,
    ) by {
        if id != delay_id {
            assert(before.stored(id) == after.stored(id));
        }
    }
}

/// The events with these delay IDs are gone from all three tables, and nothing
/// else has changed.
pub open spec fn only_removed(before: Tables, after: Tables, gone: Set<Seq<char>>) -> bool {
    &&& forall|id: Seq<char>| #[trigger]
        after.stored(id) == (if gone.contains(id) {
            None
        } else {
            before.stored(id)
        })
    &&& forall|timeout: u64, id: Seq<char>| #[trigger]
        after.timeouts.contains((timeout, id)) <==> before.timeouts.contains((timeout, id))
            && !gone.contains(id)
    &&& forall|sender: Seq<char>, id: Seq<char>| #[trigger]
        after.senders.contains((sender, id)) <==> before.senders.contains((sender, id))
            && !gone.contains(id)
}

/// Removing one more event.
proof fn lemma_one_more_removed(
    start: Tables,
    before: Tables,
    gone: Set<Seq<char>>,
    delay_id: Seq<char>,
)
    requires
        before.consistent(),
        only_removed(start, before, gone),
    ensures
        only_removed(start, without(before, delay_id), gone.insert(delay_id)),
{
    law_remove(before, delay_id);
    let after = without(before, delay_id);
    assert forall|id: Seq<char>| #[trigger]
        after.stored(id) == (if gone.insert(delay_id).contains(id) {
            None
        } else {
            start.stored(id)
        }) by {
        if id != delay_id {
            assert(before.stored(id) == after.stored(id));
        }
    }
    assert forall|timeout: u64, id: Seq<char>| #[trigger]
        after.timeouts.contains((timeout, id)) <==> start.timeouts.contains((timeout, id))
            && !gone.insert(delay_id).contains(id) by {
        assert(before.timeouts.contains((timeout, id)) <==> start.timeouts.contains((timeout, id))
            && !gone.contains(id));
    }
    assert forall|sender: Seq<char>, id: Seq<char>| #[trigger]
        after.senders.contains((sender, id)) <==> start.senders.contains((sender, id))
            && !gone.insert(delay_id).contains(id) by {
        assert(before.senders.contains((sender, id)) <==> start.senders.contains((sender, id))
            && !gone.contains(id));
    }
}

/// The delay IDs under which a cleanup has found an event to remove.
pub open spec fn cleaned_up(
    rows: Seq<(Seq<char>, Option<DelayedEventView>)>,
    now: u64,
) -> Set<Seq<char>> {
    Set::new(
        |id: Seq<char>|
            exists|i: int|
                0 <= i < rows.len() && (#[trigger] rows[i]).0 == id && outlived_row(rows[i], now),
    )
}

/// A cleanup keeps the tables consistent and removes exactly the events that
/// were finalized a day or longer ago: all others keep their places in the queue
/// and in the lists, and nobody has fewer scheduled events. `rows` lists delay
/// IDs with what was stored under them when they were read. In between, such an
/// event may have been removed; an event that is not listed stays.
pub proof fn law_cleanup(
    tables: Tables,
    rows: Seq<(Seq<char>, Option<DelayedEventView>)>,
    now: u64,
)
    requires
        tables.consistent(),
        forall|i: int|
            0 <= i < rows.len() && outlived_row(#[trigger] rows[i], now) ==> tables.stored(
                rows[i].0,
            ) == rows[i].1 || tables.stored(rows[i].0) is None,
    ensures
        applied(tables, cleanup_writes(rows, now)).consistent(),
        only_removed(tables, applied(tables, cleanup_writes(rows, now)), cleaned_up(rows, now)),
        forall|user: Seq<char>| #[trigger]
            scheduled_ids(applied(tables, cleanup_writes(rows, now)), user) == scheduled_ids(
                tables,
                user,
            ),
    decreases rows.len(),
{
    let after = applied(tables, cleanup_writes(rows, now));
    if rows.len() == 0 {
        lemma_applied_none(tables);
    } else {
        let rest = rows.drop_last();
        let last = rows.last();
        assert(rows[rows.len() - 1] == last);
        assert forall|i: int|
            0 <= i < rest.len() && outlived_row(#[trigger] rest[i], now) implies tables.stored(
            rest[i].0,
        ) == rest[i].1 || tables.stored(rest[i].0) is None by {
            assert(rest[i] == rows[i]);
        }
        law_cleanup(tables, rest, now);
        let before = applied(tables, cleanup_writes(rest, now));
        let gone = cleaned_up(rows, now);
        let gone_before = cleaned_up(rest, now);
        assert forall|id: Seq<char>| #[trigger]
            gone.contains(id) <==> gone_before.contains(id) || (id == last.0 && outlived_row(
                last,
                now,
            )) by {
            if gone.contains(id) {
                let i = choose|i: int|
                    0 <= i < rows.len() && (#[trigger] rows[i]).0 == id && outlived_row(
                        rows[i],
                        now,
                    );
                if i < rest.len() {
                    assert(rest[i] == rows[i]);
                }
            }
            if gone_before.contains(id) {
                let i = choose|i: int|
                    0 <= i < rest.len() && (#[trigger] rest[i]).0 == id && outlived_row(
                        rest[i],
                        now,
                    );
                assert(rows[i] == rest[i]);
            }
        }
        if outlived_row(last, now) {
            let event = last.1->0;
            assert(gone =~= gone_before.insert(last.0));
            lemma_applied_in_a_row(
                tables,
                cleanup_writes(rest, now),
                removal_writes(last.0, event),
            );
            law_remove(before, last.0);
            assert(before.stored(last.0) == Some(event) || before.stored(last.0) is None);
            if before.stored(last.0) is None {
                lemma_applied_three(
                    before,
                    WriteView::RemoveTimeout { timeout: event.timeout, delay_id: last.0 },
                    WriteView::RemoveSender {
                        sender_user: event.sender_user,
                        delay_id: last.0,
                    },
                    WriteView::RemoveEvent { delay_id: last.0 },
                );
                assert(!before.timeouts.contains((event.timeout, last.0)));
                assert(!before.senders.contains((event.sender_user, last.0)));
                assert(after =~= before);
            }
            assert(after == without(before, last.0));
            lemma_one_more_removed(tables, before, gone_before, last.0);
        } else {
            assert(gone =~= gone_before);
        }
    }
    assert forall|user: Seq<char>| #[trigger] scheduled_ids(after, user) == scheduled_ids(
        tables,
        user,
    ) by {
        let gone = cleaned_up(rows, now);
        assert forall|id: Seq<char>| #[trigger]
            scheduled_ids(after, user).contains(id) <==> scheduled_ids(tables, user).contains(
            id,
        ) by {
            assert(after.stored(id) == (if gone.contains(id) {
                None
            } else {
                tables.stored(id)
            }));
        }
        assert(scheduled_ids(after, user) =~= scheduled_ids(tables, user));
    }
}

/// A finalized event is kept for a day: it is cleaned up once a day has passed
/// since it was finalized, and not before, as long as the clock is past its
/// first day.
pub proof fn law_finalized_is_kept_a_day(event: DelayedEventView, report: Seq<char>, at: u64, now: u64)
    requires
        now >= crate::service::FINALIZED_RETENTION_MS,
    ensures
        outlived(finalized(event, report, at), now) <==> at
            + crate::service::FINALIZED_RETENTION_MS <= now,
{
}

/// The tables after the removal of what is stored under each of the delay IDs,
/// one after the other.
pub open spec fn removed_in_a_row(tables: Tables, delay_ids: Seq<Seq<char>>) -> Tables
    decreases delay_ids.len(),
{
    if delay_ids.len() == 0 {
        tables
    } else {
        let before = removed_in_a_row(tables, delay_ids.drop_last());
        let delay_id = delay_ids.last();
        applied(before, remove_writes(delay_id, before.stored(delay_id)))
    }
}

/// Removals in a row remove exactly the listed events.
proof fn lemma_removed_in_a_row(tables: Tables, delay_ids: Seq<Seq<char>>)
    requires
        tables.consistent(),
    ensures
        removed_in_a_row(tables, delay_ids).consistent(),
        only_removed(tables, removed_in_a_row(tables, delay_ids), delay_ids.to_set()),
    decreases delay_ids.len(),
{
    if delay_ids.len() > 0 {
        let rest = delay_ids.drop_last();
        let last = delay_ids.last();
        lemma_removed_in_a_row(tables, rest);
        let before = removed_in_a_row(tables, rest);
        law_remove(before, last);
        lemma_one_more_removed(tables, before, rest.to_set(), last);
        assert forall|id: Seq<char>| #[trigger]
            delay_ids.to_set().contains(id) <==> rest.to_set().insert(last).contains(id) by {
            assert(delay_ids[delay_ids.len() - 1] == last);
            if rest.contains(id) {
                let k = choose|k: int| 0 <= k < rest.len() && rest[k] == id;
                assert(delay_ids[k] == id);
            }
            if delay_ids.contains(id) && id != last {
                let k = choose|k: int| 0 <= k < delay_ids.len() && delay_ids[k] == id;
                assert(rest[k] == id);
            }
        }
        assert(delay_ids.to_set() =~= rest.to_set().insert(last));
    }
}

/// The rows are everything that is stored, with its delay IDs.
pub open spec fn lists_everything(
    tables: Tables,
    rows: Seq<(Seq<char>, Option<DelayedEventView>)>,
) -> bool {
    forall|row: (Seq<char>, Option<DelayedEventView>)| #[trigger]
        rows.contains(row) <==> row.1 is Some && tables.stored(row.0) == row.1
}

/// The delay IDs of the stored events that a state event makes moot.
pub open spec fn moot_in(
    tables: Tables,
    room_id: Seq<char>,
    event_type: Seq<char>,
    state_key: Seq<char>,
    sender_user: Seq<char>,
) -> Set<Seq<char>> {
    Set::new(
        |id: Seq<char>|
            tables.stored(id) matches Some(event) && superseded(
                event,
                room_id,
                event_type,
                state_key,
                sender_user,
            ),
    )
}

/// Among the delay IDs that are found moot, the stored ones are exactly those
/// that are.
proof fn lemma_finds_what_is_moot(
    tables: Tables,
    rows: Seq<(Seq<char>, Option<DelayedEventView>)>,
    room_id: Seq<char>,
    event_type: Seq<char>,
    state_key: Seq<char>,
    sender_user: Seq<char>,
)
    requires
        lists_everything(tables, rows),
    ensures
        superseded_ids(rows, room_id, event_type, state_key, sender_user).to_set() == moot_in(
            tables,
            room_id,
            event_type,
            state_key,
            sender_user,
        ),
{
    let f = moot_id(room_id, event_type, state_key, sender_user);
    let delay_ids = superseded_ids(rows, room_id, event_type, state_key, sender_user);
    let moot = moot_in(tables, room_id, event_type, state_key, sender_user);
    assert forall|id: Seq<char>| #[trigger] delay_ids.to_set().contains(id) <==> moot.contains(
        id,
    ) by {
        let row = (id, tables.stored(id));
        if delay_ids.contains(id) {
            rows.lemma_filter_map_contains(f, id);
            let found = choose|row: (Seq<char>, Option<DelayedEventView>)| #[trigger]
                rows.contains(row) && f(row) == Some(id);
            assert(found == row);
        }
        if moot.contains(id) {
            assert(rows.contains(row));
            lemma_filter_map_keeps(rows, f, row);
        }
    }
    assert(delay_ids.to_set() =~= moot);
}

/// Where nothing is listed twice, no delay ID is found moot twice.
proof fn lemma_moot_ids_distinct(
    tables: Tables,
    rows: Seq<(Seq<char>, Option<DelayedEventView>)>,
    room_id: Seq<char>,
    event_type: Seq<char>,
    state_key: Seq<char>,
    sender_user: Seq<char>,
)
    requires
        rows.no_duplicates(),
        forall|i: int| 0 <= i < rows.len() ==> (#[trigger] rows[i]).1 == tables.stored(rows[i].0),
    ensures
        superseded_ids(rows, room_id, event_type, state_key, sender_user).no_duplicates(),
    decreases rows.len(),
{
    if rows.len() > 0 {
        let f = moot_id(room_id, event_type, state_key, sender_user);
        let rest = rows.drop_last();
        let last = rows.last();
        assert(rows[rows.len() - 1] == last);
        assert forall|i: int| 0 <= i < rest.len() implies (#[trigger] rest[i]).1
            == tables.stored(rest[i].0) by {
            assert(rest[i] == rows[i]);
        }
        lemma_moot_ids_distinct(tables, rest, room_id, event_type, state_key, sender_user);
        let rest_ids = superseded_ids(rest, room_id, event_type, state_key, sender_user);
        if f(last) is Some && rest_ids.contains(last.0) {
            rest.lemma_filter_map_contains(f, last.0);
            let row = choose|row: (Seq<char>, Option<DelayedEventView>)| #[trigger]
                rest.contains(row) && f(row) == Some(last.0);
            let k = choose|k: int| 0 <= k < rest.len() && rest[k] == row;
            assert(rows[k] == rows[rows.len() - 1]);
        }
    }
}

/// When a user sends a state event, exactly the events that others have
/// scheduled for the same piece of room state go, each counted once. All others
/// keep their places in the queue and in the lists, the tables stay consistent,
/// and a second look finds nothing more. `rows` lists everything that is stored,
/// nothing of it twice.
pub proof fn law_state_event_supersedes(
    tables: Tables,
    rows: Seq<(Seq<char>, Option<DelayedEventView>)>,
    room_id: Seq<char>,
    event_type: Seq<char>,
    state_key: Seq<char>,
    sender_user: Seq<char>,
)
    requires
        tables.consistent(),
        lists_everything(tables, rows),
        rows.no_duplicates(),
    ensures
        ({
            let delay_ids = superseded_ids(rows, room_id, event_type, state_key, sender_user);
            let moot = moot_in(tables, room_id, event_type, state_key, sender_user);
            let after = removed_in_a_row(tables, delay_ids);
            &&& after.consistent()
            &&& delay_ids.no_duplicates()
            &&& delay_ids.to_set() == moot
            &&& only_removed(tables, after, moot)
            &&& forall|again: Seq<(Seq<char>, Option<DelayedEventView>)>|
                lists_everything(after, again) ==> (#[trigger] superseded_ids(
                    again,
                    room_id,
                    event_type,
                    state_key,
                    sender_user,
                )).len() == 0
        }),
{
    let delay_ids = superseded_ids(rows, room_id, event_type, state_key, sender_user);
    let moot = moot_in(tables, room_id, event_type, state_key, sender_user);
    let after = removed_in_a_row(tables, delay_ids);
    lemma_removed_in_a_row(tables, delay_ids);
    lemma_finds_what_is_moot(tables, rows, room_id, event_type, state_key, sender_user);
    assert forall|i: int| 0 <= i < rows.len() implies (#[trigger] rows[i]).1 == tables.stored(
        rows[i].0,
    ) by {
        assert(rows.contains(rows[i]));
    }
    lemma_moot_ids_distinct(tables, rows, room_id, event_type, state_key, sender_user);
    assert forall|again: Seq<(Seq<char>, Option<DelayedEventView>)>|
        lists_everything(after, again) implies (#[trigger] superseded_ids(
        again,
        room_id,
        event_type,
        state_key,
        sender_user,
    )).len() == 0 by {
        lemma_finds_what_is_moot(after, again, room_id, event_type, state_key, sender_user);
        let found = superseded_ids(again, room_id, event_type, state_key, sender_user);
        if found.len() > 0 {
            let id = found[0];
            assert(found.contains(id));
            assert(found.to_set().contains(id));
            assert(after.stored(id) == (if moot.contains(id) {
                None
            } else {
                tables.stored(id)
            }));
        }
    }
}

/// The worker deals with every event that is due: what it finds in the queue
/// with a timeout that has come is stored and scheduled, and in the name of its
/// sender the send begins.
pub proof fn law_worker_sends_what_is_due(
    tables: Tables,
    timeout: u64,
    delay_id: Seq<char>,
    now: u64,
)
    requires
        tables.consistent(),
        tables.timeouts.contains((timeout, delay_id)),
        timeout <= now,
    ensures
        sender_of(tables.stored(delay_id)) matches Some(sender) && send_start(
            delay_id,
            sender,
            tables.stored(delay_id),
            now,
            SendTrigger::DueScan,
        ) == (SendStartView::Validate {
            attempt: SendView { delay_id, event: tables.events[delay_id] },
            writes: seq![WriteView::RemoveTimeout { timeout, delay_id }],
        }),
{
}

/// A restart postpones an event: the worker does not send it before its whole
/// delay has passed once more.
pub proof fn law_restart_postpones(
    tables: Tables,
    delay_id: Seq<char>,
    sender_user: Seq<char>,
    timeout_base: u64,
    running_since: u64,
    now: u64,
)
    requires
        tables.consistent(),
        restart_outcome(
            delay_id,
            sender_user,
            tables.stored(delay_id),
            timeout_base,
            running_since,
        ).0 is Ok,
        now < saturating_sum(timeout_base, tables.events[delay_id].delay_ms),
    ensures
        ({
            let after = applied(
                tables,
                restart_outcome(
                    delay_id,
                    sender_user,
                    tables.stored(delay_id),
                    timeout_base,
                    running_since,
                ).1,
            );
            &&& forall|timeout: u64| #[trigger]
                after.timeouts.contains((timeout, delay_id)) ==> timeout > now
            &&& send_start(
                delay_id,
                sender_user,
                after.stored(delay_id),
                now,
                SendTrigger::DueScan,
            ) is Finished
        }),
{
    law_restart(tables, delay_id, sender_user, timeout_base, running_since);
}

/// A send that the room refuses keeps the tables consistent: the event is still
/// stored as it was, but no longer in the queue, so the worker does not try it
/// again by itself, while its sender can.
pub proof fn law_failed_append(tables: Tables, delay_id: Seq<char>, now: u64, again: u64)
    requires
        tables.consistent(),
        tables.stored(delay_id) matches Some(event) && event.scheduled(),
    ensures
        ({
            let event = tables.events[delay_id];
            let start = send_start(
                delay_id,
                event.sender_user,
                tables.stored(delay_id),
                now,
                SendTrigger::Request,
            );
            let after = applied(tables, start->Validate_writes);
            &&& after.consistent()
            &&& after.stored(delay_id) == Some(event)
            &&& forall|timeout: u64| !after.timeouts.contains((timeout, delay_id))
            &&& send_start(
                delay_id,
                event.sender_user,
                after.stored(delay_id),
                again,
                SendTrigger::Request,
            ) is Validate
        }),
{
    law_send_start(
        tables,
        delay_id,
        tables.events[delay_id].sender_user,
        now,
        SendTrigger::Request,
    );
}

/// A cancelled event is never sent: whoever asks for it, there is nothing to
/// send and nothing to restart.
pub proof fn law_cancelled_is_never_sent(tables: Tables, delay_id: Seq<char>)
    requires
        tables.consistent(),
        tables.stored(delay_id) matches Some(event) && event.scheduled(),
    ensures
        ({
            let outcome = cancel_outcome(
                delay_id,
                tables.events[delay_id].sender_user,
                tables.stored(delay_id),
            );
            let after = applied(tables, outcome.1);
            &&& outcome.0 is Ok
            &&& after.fresh(delay_id)
            &&& forall|user: Seq<char>, at: u64, trigger: SendTrigger|
                #[trigger] send_start(delay_id, user, after.stored(delay_id), at, trigger)
                    == (SendStartView::Finished { result: Ok(None), writes: Seq::empty() })
            &&& forall|user: Seq<char>, at: u64, since: u64|
                (#[trigger] restart_outcome(
                    delay_id,
                    user,
                    after.stored(delay_id),
                    at,
                    since,
                )).0 is Err
        }),
{
    law_cancel(tables, delay_id, tables.events[delay_id].sender_user);
}

/// The life of a delayed event that goes well: it is scheduled, found by the
/// worker once its timeout has come, allowed by the policy at that time and
/// appended to its room. What is appended, in the name of its sender, to its room
/// and with its type and state key, is what is read from the stored content, and
/// afterwards the tables are as they were before. From a content that a request
/// has stored, the content itself is read: see
/// [`crate::service::Service::handle_delayed_message_event`].
pub proof fn law_life_of_a_delayed_event(
    tables: Tables,
    config: Config,
    event: DelayedEventView,
    keys: Seq<(u64, Seq<char>)>,
    now: u64,
    raw: Seq<char>,
    facts: FactsView,
)
    requires
        tables.consistent(),
        tables.stored(event.delay_id) is None,
        event.scheduled(),
        well_formed(event),
        event.timeout <= now,
        forall|i: int, j: int| 0 <= i <= j < keys.len() ==> keys[i].0 <= keys[j].0,
        forall|key: (u64, Seq<char>)| #[trigger]
            keys.contains(key) <==> applied(tables, add_writes(event)).timeouts.contains(key),
        raw_of(event.content) == Ok::<Seq<char>, Seq<char>>(raw),
        send_time_verdict(config, event, raw_of(event.content), facts) matches VerdictView::Decided(Ok(_)),
    ensures
        ({
            let send = SendView { delay_id: event.delay_id, event };
            let added = applied(tables, add_writes(event));
            let start = send_start(
                event.delay_id,
                event.sender_user,
                added.stored(event.delay_id),
                now,
                SendTrigger::DueScan,
            );
            let sending = applied(added, start->Validate_writes);
            &&& due_prefix(keys, now).contains(event.delay_id)
            &&& start matches SendStartView::Validate { attempt, .. } && attempt == send
            &&& send_step(config, send, raw_of(event.content), facts) == (SendStepView::Append {
                publication: send,
                pdu: PduView {
                    sender_user: event.sender_user,
                    room_id: event.room_id,
                    event_type: event.event_type,
                    content: raw,
                    unsigned: Some(unsigned_members(event.txn_id, event.delay_id)),
                    state_key: event.state_key,
                    redacts: None,
                    timestamp: None,
                },
            })
            &&& reads_as_itself(event.content) ==> raw == event.content
            &&& applied(sending, sent_writes(send)) == tables
        }),
{
    let id = event.delay_id;
    let send = SendView { delay_id: id, event };
    law_add(tables, event);
    let added = applied(tables, add_writes(event));
    assert(keys.contains((event.timeout, id)));
    law_scan_finds_what_is_due(keys, now, id);
    law_worker_sends_what_is_due(added, event.timeout, id, now);
    law_send_start(added, id, event.sender_user, now, SendTrigger::DueScan);
    let remove = WriteView::RemoveTimeout { timeout: event.timeout, delay_id: id };
    let sending = applied(added, seq![remove]);
    lemma_applied_one(added, remove);
    lemma_applied_three(
        tables,
        WriteView::PutEvent { delay_id: id, event },
        WriteView::PutTimeout { timeout: event.timeout, delay_id: id },
        WriteView::PutSender { sender_user: event.sender_user, delay_id: id },
    );
    lemma_applied_two(
        sending,
        WriteView::RemoveSender { sender_user: event.sender_user, delay_id: id },
        WriteView::RemoveEvent { delay_id: id },
    );
    let after = applied(sending, sent_writes(send));
    assert(!tables.timeouts.contains((event.timeout, id)));
    assert(!tables.senders.contains((event.sender_user, id)));
    assert(after.events =~= tables.events);
    assert(after.timeouts =~= tables.timeouts);
    assert(after.senders =~= tables.senders);
}

/// A new event is well-formed, so that it can be entered into the tables: it is
/// due when its delay has passed.
pub proof fn law_new_event_is_scheduled(
    new: NewEventView,
    delay_id: Seq<char>,
    content: Seq<char>,
    now: u64,
)
    ensures
        ({
            let event = new_delayed_event(new, delay_id, content, now);
            &&& event.scheduled()
            &&& well_formed(event)
            &&& event.delay_id == delay_id
            &&& event.timeout == saturating_sum(event.running_since, event.delay_ms)
        }),
{
}

} // verus!
