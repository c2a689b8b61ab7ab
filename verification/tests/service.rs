use delayed_events::config::Config;
use delayed_events::error::ErrorKind;
use delayed_events::event::{DelayedEvent, DelayedEventStatus};
use delayed_events::policy::Facts;
use delayed_events::sending::{SendStart, SendStep, SendTrigger};
use delayed_events::service::{Service, FINALIZED_RETENTION_MS};
use delayed_events::store::Write;
use delayed_events::worker::{worker_action, WorkerAction, WorkerEvent};
use std::collections::{BTreeMap, BTreeSet};

#[derive(Default)]
struct Tables {
    events: BTreeMap<String, DelayedEvent>,
    timeouts: BTreeSet<(u64, String)>,
    senders: BTreeSet<(String, String)>,
}

impl Tables {
    fn apply(&mut self, writes: Vec<Write>) {
        for write in writes {
            match write {
                Write::PutEvent { delay_id, event } => {
                    self.events.insert(delay_id, event);
                }
                Write::RemoveEvent { delay_id } => {
                    self.events.remove(&delay_id);
                }
                Write::PutTimeout { timeout, delay_id } => {
                    self.timeouts.insert((timeout, delay_id));
                }
                Write::RemoveTimeout { timeout, delay_id } => {
                    self.timeouts.remove(&(timeout, delay_id));
                }
                Write::PutSender { sender_user, delay_id } => {
                    self.senders.insert((sender_user, delay_id));
                }
                Write::RemoveSender { sender_user, delay_id } => {
                    self.senders.remove(&(sender_user, delay_id));
                }
            }
        }
    }

    fn get(&self, delay_id: &str) -> Option<DelayedEvent> {
        self.events.get(delay_id).cloned()
    }

    fn by_sender(&self, service: &Service, user: &str) -> Vec<DelayedEvent> {
        let scan = Some(self.senders.iter().cloned().collect());
        let ids = service.delay_ids_by_sender(&scan, &user.to_owned());
        let rows = ids.iter().map(|id| self.get(id)).collect();
        service.get_by_sender(&rows)
    }

    fn rows(&self) -> Vec<(String, Option<DelayedEvent>)> {
        self.events.iter().map(|(id, event)| (id.clone(), Some(event.clone()))).collect()
    }
}

fn service(max_delay: u64, max_events: u64) -> Service {
    Service {
        config: Config {
            max_event_delay_ms: max_delay,
            max_delayed_events_per_user: max_events,
            disable_local_redactions: false,
            allow_encryption: true,
            server_name: "example.org".to_owned(),
        },
    }
}

fn schedule(
    service: &Service,
    tables: &mut Tables,
    delay_id: &str,
    user: &str,
    delay_ms: u64,
    now: u64,
) -> Result<(), ErrorKind> {
    let own = tables.by_sender(service, user);
    let result = service.add(
        delay_id,
        "!room:example.org",
        user,
        Some("DEVICE".to_owned()),
        "m.room.message",
        None,
        Some("txn".to_owned()),
        "{\"body\":\"hi\"}".to_owned(),
        delay_ms,
        &own,
        now,
    );
    match result {
        Ok(writes) => {
            tables.apply(writes);
            Ok(())
        }
        Err(error) => Err(error.kind),
    }
}

fn schedule_state(
    service: &Service,
    tables: &mut Tables,
    delay_id: &str,
    user: &str,
    state_key: &str,
) {
    let own = tables.by_sender(service, user);
    let writes = service
        .add(
            delay_id,
            "!room:example.org",
            user,
            None,
            "m.room.topic",
            Some(state_key.to_owned()),
            None,
            "{}".to_owned(),
            1000,
            &own,
            0,
        )
        .unwrap();
    tables.apply(writes);
}

fn finalize(tables: &mut Tables, delay_id: &str, at: u64) {
    let mut event = tables.get(delay_id).unwrap();
    tables.timeouts.remove(&(event.timeout, delay_id.to_owned()));
    event.status = DelayedEventStatus::Finalized;
    event.error = Some("{}".to_owned());
    event.finalised_ts = Some(at);
    tables.events.insert(delay_id.to_owned(), event);
}

#[test]
fn added_event_is_stored_queued_and_listed() {
    let service = service(10_000, 0);
    let mut tables = Tables::default();
    assert_eq!(schedule(&service, &mut tables, "d1", "@a:x", 5_000, 1_000), Ok(()));
    let event = tables.get("d1").unwrap();
    assert_eq!(event.delay_id, "d1");
    assert_eq!(event.room_id, "!room:example.org");
    assert_eq!(event.sender_user, "@a:x");
    assert_eq!(event.sender_device.as_deref(), Some("DEVICE"));
    assert_eq!(event.event_type, "m.room.message");
    assert_eq!(event.state_key, None);
    assert_eq!(event.txn_id.as_deref(), Some("txn"));
    assert_eq!(event.content, "{\"body\":\"hi\"}");
    assert_eq!(event.delay_ms, 5_000);
    assert_eq!(event.timeout, 6_000);
    assert_eq!(event.running_since, 1_000);
    assert!(event.is_scheduled());
    assert_eq!(event.error, None);
    assert_eq!(event.event_id, None);
    assert_eq!(event.finalised_ts, None);
    assert!(tables.timeouts.contains(&(6_000, "d1".to_owned())));
    assert!(tables.senders.contains(&("@a:x".to_owned(), "d1".to_owned())));
}

#[test]
fn timeout_saturates() {
    let service = service(u64::MAX, 0);
    let mut tables = Tables::default();
    assert_eq!(schedule(&service, &mut tables, "d1", "@a:x", u64::MAX, 7), Ok(()));
    assert_eq!(tables.get("d1").unwrap().timeout, u64::MAX);
}

#[test]
fn delayed_events_can_be_off() {
    let service = service(0, 0);
    let error = service
        .add("d", "!r:x", "@a:x", None, "t", None, None, "{}".to_owned(), 0, &vec![], 0)
        .unwrap_err();
    assert_eq!(error.kind, ErrorKind::Unknown);
    assert_eq!(error.message, "Delayed events are not supported on this server");
}

#[test]
fn delay_is_limited() {
    let service = service(10, 0);
    let mut tables = Tables::default();
    assert_eq!(schedule(&service, &mut tables, "d1", "@a:x", 10, 0), Ok(()));
    let error = service
        .add("d", "!r:x", "@a:x", None, "t", None, None, "{}".to_owned(), 11, &vec![], 0)
        .unwrap_err();
    assert_eq!(error.kind, ErrorKind::InvalidParam);
    assert_eq!(error.message, "Delay exceeds maximum allowed delay");
}

#[test]
fn number_of_scheduled_events_is_limited_per_user() {
    let service = service(1_000, 2);
    let mut tables = Tables::default();
    assert_eq!(schedule(&service, &mut tables, "d1", "@a:x", 10, 0), Ok(()));
    assert_eq!(schedule(&service, &mut tables, "d2", "@a:x", 10, 0), Ok(()));
    let own = tables.by_sender(&service, "@a:x");
    assert_eq!(service.count_scheduled_by_sender(&own), 2);
    let error = service.check_max_events(&own).unwrap_err();
    assert_eq!(error.kind, ErrorKind::LimitExceeded);
    assert_eq!(error.message, "Maximum number of scheduled delayed events reached.");
    assert_eq!(error.explicit_status(), Some(429));
    assert_eq!(
        schedule(&service, &mut tables, "d3", "@a:x", 10, 0),
        Err(ErrorKind::LimitExceeded)
    );
    assert_eq!(schedule(&service, &mut tables, "d3", "@b:x", 10, 0), Ok(()));
    finalize(&mut tables, "d1", 5);
    assert_eq!(schedule(&service, &mut tables, "d4", "@a:x", 10, 0), Ok(()));
}

#[test]
fn only_the_limit_asks_for_a_status() {
    let service = service(0, 0);
    let error = service
        .add("d", "!r:x", "@a:x", None, "t", None, None, "{}".to_owned(), 0, &vec![], 0)
        .unwrap_err();
    assert_eq!(error.explicit_status(), None);
}

#[test]
fn zero_allows_any_number() {
    let service = service(1_000, 0);
    let mut tables = Tables::default();
    for i in 0..20 {
        let id = format!("d{i}");
        assert_eq!(schedule(&service, &mut tables, &id, "@a:x", 10, 0), Ok(()));
    }
}

#[test]
fn list_holds_the_events_of_the_user_only() {
    let service = service(1_000, 0);
    let mut tables = Tables::default();
    schedule(&service, &mut tables, "d1", "@a:x", 10, 0).unwrap();
    schedule(&service, &mut tables, "d2", "@b:x", 10, 0).unwrap();
    schedule(&service, &mut tables, "d3", "@b:x", 10, 0).unwrap();
    schedule(&service, &mut tables, "d4", "@c:x", 10, 0).unwrap();
    let of_b = tables.by_sender(&service, "@b:x");
    let ids: Vec<&str> = of_b.iter().map(|event| event.delay_id.as_str()).collect();
    assert_eq!(ids, vec!["d2", "d3"]);
    assert!(tables.by_sender(&service, "@d:x").is_empty());
}

#[test]
fn unreadable_rows_are_left_out() {
    let service = service(1_000, 0);
    assert!(service.get::<()>(Err(())).is_none());
    let mut tables = Tables::default();
    schedule(&service, &mut tables, "d1", "@a:x", 10, 0).unwrap();
    let event = tables.get("d1").unwrap();
    assert!(service.get::<()>(Ok(event.clone())).is_some());
    let events = service.get_by_sender(&vec![None, Some(event), None]);
    assert_eq!(events.len(), 1);
    assert!(service.delay_ids_by_sender(&None, &"@a:x".to_owned()).is_empty());
    assert!(service.due_events(&None, 5).is_empty());
}

#[test]
fn cancel_undoes_add() {
    let service = service(1_000, 0);
    let mut tables = Tables::default();
    schedule(&service, &mut tables, "d1", "@a:x", 10, 0).unwrap();
    let (result, writes) = service.cancel("d1", &"@a:x".to_owned(), &tables.get("d1"));
    assert!(result.is_ok());
    tables.apply(writes);
    assert!(tables.events.is_empty() && tables.timeouts.is_empty() && tables.senders.is_empty());
    let (again, writes) = service.cancel("d1", &"@a:x".to_owned(), &tables.get("d1"));
    assert!(again.is_ok());
    assert!(writes.is_empty());
}

#[test]
fn strangers_find_nothing_to_cancel_or_restart() {
    let service = service(1_000, 0);
    let mut tables = Tables::default();
    schedule(&service, &mut tables, "d1", "@a:x", 10, 0).unwrap();
    let (result, writes) = service.cancel("d1", &"@b:x".to_owned(), &tables.get("d1"));
    let error = result.unwrap_err();
    assert_eq!(error.kind, ErrorKind::NotFound);
    assert_eq!(error.message, "Delayed event not found");
    assert!(writes.is_empty());
    let (result, writes) = service.restart("d1", &"@b:x".to_owned(), tables.get("d1"), 5, 5);
    let error = result.unwrap_err();
    assert_eq!(error.kind, ErrorKind::NotFound);
    assert_eq!(error.message, "Delayed event not found");
    assert!(writes.is_empty());
    let (result, _) = service.restart("d2", &"@b:x".to_owned(), None, 5, 5);
    assert_eq!(result.unwrap_err().kind, ErrorKind::NotFound);
}

#[test]
fn cancelling_a_finalized_event_changes_nothing() {
    let service = service(1_000, 0);
    let mut tables = Tables::default();
    schedule(&service, &mut tables, "d1", "@a:x", 10, 0).unwrap();
    finalize(&mut tables, "d1", 5);
    let (result, writes) = service.cancel("d1", &"@a:x".to_owned(), &tables.get("d1"));
    assert!(result.is_ok());
    assert!(writes.is_empty());
}

#[test]
fn restart_moves_the_timeout() {
    let service = service(1_000, 0);
    let mut tables = Tables::default();
    schedule(&service, &mut tables, "d1", "@a:x", 100, 1_000).unwrap();
    let (result, writes) =
        service.restart("d1", &"@a:x".to_owned(), tables.get("d1"), 1_050, 1_051);
    assert!(result.is_ok());
    tables.apply(writes);
    let event = tables.get("d1").unwrap();
    assert_eq!(event.timeout, 1_150);
    assert_eq!(event.running_since, 1_051);
    assert_eq!(event.delay_ms, 100);
    assert_eq!(event.content, "{\"body\":\"hi\"}");
    let queue: Vec<(u64, String)> = tables.timeouts.iter().cloned().collect();
    assert_eq!(queue, vec![(1_150, "d1".to_owned())]);
}

#[test]
fn finalized_events_cannot_be_restarted() {
    let service = service(1_000, 0);
    let mut tables = Tables::default();
    schedule(&service, &mut tables, "d1", "@a:x", 100, 1_000).unwrap();
    finalize(&mut tables, "d1", 5);
    let (result, writes) = service.restart("d1", &"@a:x".to_owned(), tables.get("d1"), 5, 5);
    let error = result.unwrap_err();
    assert_eq!(error.kind, ErrorKind::Unknown);
    assert_eq!(error.message, "Delayed event has already been finalized");
    assert!(writes.is_empty());
}

#[test]
fn remove_takes_the_event_out_of_every_table() {
    let service = service(1_000, 0);
    let mut tables = Tables::default();
    schedule(&service, &mut tables, "d1", "@a:x", 100, 0).unwrap();
    schedule(&service, &mut tables, "d2", "@a:x", 100, 0).unwrap();
    let writes = service.remove("d1", &tables.get("d1"));
    tables.apply(writes);
    assert!(tables.get("d1").is_none());
    assert_eq!(tables.timeouts.len(), 1);
    assert_eq!(tables.senders.len(), 1);
    let writes = service.remove("d1", &tables.get("d1"));
    assert_eq!(writes.len(), 1);
    assert!(matches!(&writes[0], Write::RemoveEvent { delay_id } if delay_id == "d1"));
}

#[test]
fn due_events_are_those_whose_timeout_has_come() {
    let service = service(1_000, 0);
    let mut tables = Tables::default();
    schedule(&service, &mut tables, "late", "@a:x", 300, 0).unwrap();
    schedule(&service, &mut tables, "early", "@a:x", 100, 0).unwrap();
    schedule(&service, &mut tables, "exact", "@b:x", 200, 0).unwrap();
    let scan = Some(tables.timeouts.iter().cloned().collect());
    assert_eq!(service.due_events(&scan, 200), vec!["early", "exact"]);
    assert_eq!(service.due_events(&scan, 99), Vec::<String>::new());
    assert_eq!(service.due_events(&scan, 300).len(), 3);
    assert_eq!(service.due_sender(&tables.get("exact")).as_deref(), Some("@b:x"));
    assert_eq!(service.due_sender(&None), None);
}

#[test]
fn state_event_supersedes_what_others_scheduled() {
    let service = service(1_000, 0);
    let mut tables = Tables::default();
    schedule_state(&service, &mut tables, "s1", "@a:x", "key");
    schedule_state(&service, &mut tables, "s2", "@b:x", "key");
    schedule_state(&service, &mut tables, "s3", "@b:x", "other");
    schedule_state(&service, &mut tables, "s4", "@c:x", "key");
    schedule(&service, &mut tables, "m1", "@b:x", 100, 0).unwrap();
    finalize(&mut tables, "s4", 5);
    let ids = service.cancel_matching_state_events(
        &tables.rows(),
        &"!room:example.org".to_owned(),
        &"m.room.topic".to_owned(),
        &"key".to_owned(),
        &"@a:x".to_owned(),
    );
    assert_eq!(ids, vec!["s2"]);
    for id in ids {
        let writes = service.remove(&id, &tables.get(&id));
        tables.apply(writes);
    }
    let left: Vec<&String> = tables.events.keys().collect();
    assert_eq!(left, vec!["m1", "s1", "s3", "s4"]);
    let elsewhere = service.cancel_matching_state_events(
        &tables.rows(),
        &"!elsewhere:example.org".to_owned(),
        &"m.room.topic".to_owned(),
        &"key".to_owned(),
        &"@z:x".to_owned(),
    );
    assert!(elsewhere.is_empty());
}

#[test]
fn cleanup_removes_what_was_finalized_a_day_ago() {
    let service = service(1_000, 0);
    let mut tables = Tables::default();
    for id in ["old", "exact", "young", "scheduled"] {
        schedule(&service, &mut tables, id, "@a:x", 100, 0).unwrap();
    }
    let now = FINALIZED_RETENTION_MS + 1_000;
    finalize(&mut tables, "old", 500);
    finalize(&mut tables, "exact", 1_000);
    finalize(&mut tables, "young", 1_001);
    let mut rows = tables.rows();
    rows.push(("gone".to_owned(), None));
    let (writes, removed) = service.cleanup_old_finalized(&rows, now);
    assert_eq!(removed, 2);
    tables.apply(writes);
    let left: Vec<&String> = tables.events.keys().collect();
    assert_eq!(left, vec!["scheduled", "young"]);
    assert_eq!(tables.senders.len(), 2);
    assert_eq!(tables.timeouts.len(), 1);
}

#[test]
fn day_has_its_milliseconds() {
    assert_eq!(FINALIZED_RETENTION_MS, 24 * 60 * 60 * 1000);
}

#[test]
fn worker_polls_cleans_up_and_stops() {
    assert_eq!(worker_action(WorkerEvent::PollElapsed), WorkerAction::ProcessDueEvents);
    assert_eq!(worker_action(WorkerEvent::CleanupDue), WorkerAction::CleanupOldFinalized);
    assert_eq!(worker_action(WorkerEvent::Shutdown), WorkerAction::Stop);
}

#[test]
fn delayed_event_lives_and_is_sent_once() {
    let service = service(1_000, 0);
    let mut tables = Tables::default();
    schedule(&service, &mut tables, "other", "@b:x", 900, 0).unwrap();
    let before = format!("{:?} {:?} {:?}", tables.events, tables.timeouts, tables.senders);
    schedule(&service, &mut tables, "d1", "@a:x", 100, 0).unwrap();
    let scan = Some(tables.timeouts.iter().cloned().collect());
    assert_eq!(service.due_events(&scan, 100), vec!["d1"]);
    let sender = service.due_sender(&tables.get("d1")).unwrap();
    let start = service.send_now("d1", &sender, tables.get("d1"), 100, SendTrigger::DueScan);
    let attempt = match start {
        SendStart::Validate { attempt, writes } => {
            tables.apply(writes);
            attempt
        }
        SendStart::Finished { .. } => panic!("not due"),
    };
    assert_eq!(tables.timeouts.len(), 1);
    let (publication, pdu) = match attempt.validate(&service.config, &Facts::unknown()) {
        SendStep::Append { publication, pdu } => (publication, pdu),
        _ => panic!("not allowed"),
    };
    assert_eq!(pdu.content, "{\"body\":\"hi\"}");
    let (result, writes) = publication.appended::<String>(Ok("$e".to_owned()));
    assert_eq!(result.unwrap().as_deref(), Some("$e"));
    tables.apply(writes);
    let after = format!("{:?} {:?} {:?}", tables.events, tables.timeouts, tables.senders);
    assert_eq!(before, after);
    for trigger in [SendTrigger::Request, SendTrigger::DueScan] {
        match service.send_now("d1", &sender, tables.get("d1"), 200, trigger) {
            SendStart::Finished { result, writes } => {
                assert_eq!(result.unwrap(), None);
                assert!(writes.is_empty());
            }
            SendStart::Validate { .. } => panic!("sent twice"),
        }
    }
}

#[test]
fn cancelled_event_is_never_sent() {
    let service = service(1_000, 0);
    let mut tables = Tables::default();
    schedule(&service, &mut tables, "d1", "@a:x", 100, 0).unwrap();
    let (_, writes) = service.cancel("d1", &"@a:x".to_owned(), &tables.get("d1"));
    tables.apply(writes);
    let start =
        service.send_now("d1", &"@a:x".to_owned(), tables.get("d1"), 500, SendTrigger::Request);
    assert!(matches!(start, SendStart::Finished { result: Ok(None), .. }));
}

#[test]
fn refused_event_stays_listed_for_a_day() {
    let service = service(1_000, 0);
    let mut tables = Tables::default();
    schedule_state(&service, &mut tables, "d1", "@a:x", "");
    let mut event = tables.get("d1").unwrap();
    event.event_type = "m.room.create".to_owned();
    tables.events.insert("d1".to_owned(), event);
    let start =
        service.send_now("d1", &"@a:x".to_owned(), tables.get("d1"), 5, SendTrigger::Request);
    let attempt = match start {
        SendStart::Validate { attempt, writes } => {
            tables.apply(writes);
            attempt
        }
        SendStart::Finished { .. } => panic!("nothing to send"),
    };
    let refusal = match attempt.validate(&service.config, &Facts::unknown()) {
        SendStep::Refused { refusal } => refusal,
        _ => panic!("not refused"),
    };
    let finalized_at = FINALIZED_RETENTION_MS;
    let (_, writes) = refusal.record("code", "text", finalized_at);
    tables.apply(writes);
    assert_eq!(tables.by_sender(&service, "@a:x").len(), 1);
    let (writes, removed) =
        service.cleanup_old_finalized(&tables.rows(), finalized_at + FINALIZED_RETENTION_MS - 1);
    assert!(writes.is_empty());
    assert_eq!(removed, 0);
    let (writes, removed) =
        service.cleanup_old_finalized(&tables.rows(), finalized_at + FINALIZED_RETENTION_MS);
    tables.apply(writes);
    assert_eq!(removed, 1);
    assert!(tables.by_sender(&service, "@a:x").is_empty());
    assert!(tables.events.is_empty() && tables.timeouts.is_empty() && tables.senders.is_empty());
}
