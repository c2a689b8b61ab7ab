use delayed_events::config::Config;
use delayed_events::error::{Error, ErrorKind};
use delayed_events::event::{DelayedEvent, DelayedEventStatus};
use delayed_events::json::JsonValue;
use delayed_events::policy::{Facts, Question};
use delayed_events::sending::{
    validate_send_time, write_error_report, Attempt, PduBuilder, SendStart, SendStep, SendTrigger,
};
use delayed_events::service::Service;
use delayed_events::store::Write;

fn config() -> Config {
    Config {
        max_event_delay_ms: 10_000,
        max_delayed_events_per_user: 0,
        disable_local_redactions: false,
        allow_encryption: false,
        server_name: "example.org".to_owned(),
    }
}

fn service() -> Service {
    Service { config: config() }
}

fn event(event_type: &str, content: &str) -> DelayedEvent {
    DelayedEvent {
        delay_id: "d1".to_owned(),
        room_id: "!room:example.org".to_owned(),
        sender_user: "@a:example.org".to_owned(),
        sender_device: None,
        event_type: event_type.to_owned(),
        state_key: None,
        txn_id: Some("txn".to_owned()),
        content: content.to_owned(),
        delay_ms: 500,
        timeout: 1_000,
        running_since: 500,
        status: DelayedEventStatus::Scheduled,
        error: None,
        event_id: None,
        finalised_ts: None,
    }
}

fn sender() -> String {
    "@a:example.org".to_owned()
}

fn attempt(event: DelayedEvent) -> Attempt {
    match service().send_now("d1", &sender(), Some(event), 0, SendTrigger::Request) {
        SendStart::Validate { attempt, .. } => attempt,
        SendStart::Finished { .. } => panic!("nothing to send"),
    }
}

fn finished(start: SendStart) -> (Result<Option<String>, Error>, Vec<Write>) {
    match start {
        SendStart::Finished { result, writes } => (result, writes),
        SendStart::Validate { .. } => panic!("there is something to send"),
    }
}

fn text_member(pdu: &PduBuilder, key: &str) -> Option<String> {
    pdu.unsigned.as_ref().unwrap().iter().find(|(name, _)| name == key).map(|(_, value)| {
        match value {
            JsonValue::Text(text) => text.clone(),
            _ => panic!("no text"),
        }
    })
}

#[test]
fn request_is_sent_before_its_timeout() {
    let start = service().send_now(
        "d1",
        &sender(),
        Some(event("m.room.message", "{}")),
        3,
        SendTrigger::Request,
    );
    match start {
        SendStart::Validate { attempt, writes } => {
            assert_eq!(attempt.event().delay_id, "d1");
            assert_eq!(writes.len(), 1);
            assert!(matches!(
                &writes[0],
                Write::RemoveTimeout { timeout: 1_000, delay_id } if delay_id == "d1"
            ));
        }
        SendStart::Finished { .. } => panic!("not sent"),
    }
}

#[test]
fn worker_waits_for_the_timeout() {
    let start = service().send_now(
        "d1",
        &sender(),
        Some(event("m.room.message", "{}")),
        999,
        SendTrigger::DueScan,
    );
    let (result, writes) = finished(start);
    assert_eq!(result.unwrap(), None);
    assert_eq!(writes.len(), 1);
    assert!(matches!(
        &writes[0],
        Write::PutTimeout { timeout: 1_000, delay_id } if delay_id == "d1"
    ));
}

#[test]
fn worker_sends_at_the_timeout() {
    let start = service().send_now(
        "d1",
        &sender(),
        Some(event("m.room.message", "{}")),
        1_000,
        SendTrigger::DueScan,
    );
    assert!(matches!(start, SendStart::Validate { .. }));
}

#[test]
fn sending_what_is_gone_succeeds() {
    let start = service().send_now("d1", &sender(), None, 5, SendTrigger::Request);
    let (result, writes) = finished(start);
    assert_eq!(result.unwrap(), None);
    assert!(writes.is_empty());
}

#[test]
fn strangers_find_nothing_to_send() {
    let start = service().send_now(
        "d1",
        &"@b:example.org".to_owned(),
        Some(event("m.room.message", "{}")),
        5_000,
        SendTrigger::Request,
    );
    let (result, writes) = finished(start);
    let error = result.unwrap_err();
    assert_eq!(error.kind, ErrorKind::NotFound);
    assert_eq!(error.message, "Delayed event not found");
    assert!(writes.is_empty());
}

#[test]
fn finalized_event_is_not_sent_again() {
    let mut finalized = event("m.room.message", "{}");
    finalized.status = DelayedEventStatus::Finalized;
    let start = service().send_now("d1", &sender(), Some(finalized), 5, SendTrigger::Request);
    let (result, writes) = finished(start);
    assert_eq!(result.unwrap(), None);
    assert!(writes.is_empty());
    let mut sent = event("m.room.message", "{}");
    sent.status = DelayedEventStatus::Finalized;
    sent.event_id = Some("$event".to_owned());
    let start = service().send_now("d1", &sender(), Some(sent), 5, SendTrigger::Request);
    assert_eq!(finished(start).0.unwrap().as_deref(), Some("$event"));
}

#[test]
fn accepted_event_is_appended_and_forgotten() {
    let step = attempt(event("m.room.message", " {\"body\": \"hi\"} "))
        .validate(&config(), &Facts::unknown());
    let (publication, pdu) = match step {
        SendStep::Append { publication, pdu } => (publication, pdu),
        _ => panic!("not accepted"),
    };
    assert_eq!(pdu.sender_user, "@a:example.org");
    assert_eq!(pdu.room_id, "!room:example.org");
    assert_eq!(pdu.event_type, "m.room.message");
    assert_eq!(pdu.content, "{\"body\": \"hi\"}");
    assert_eq!(pdu.state_key, None);
    assert_eq!(pdu.redacts, None);
    assert_eq!(pdu.timestamp, None);
    assert_eq!(pdu.unsigned.as_ref().unwrap().len(), 2);
    assert_eq!(text_member(&pdu, "transaction_id").as_deref(), Some("txn"));
    assert_eq!(text_member(&pdu, "org.matrix.msc4140.delay_id").as_deref(), Some("d1"));
    let (result, writes) = publication.appended::<String>(Ok("$event".to_owned()));
    assert_eq!(result, Ok(Some("$event".to_owned())));
    assert_eq!(writes.len(), 2);
    assert!(matches!(
        &writes[0],
        Write::RemoveSender { sender_user, delay_id }
            if sender_user == "@a:example.org" && delay_id == "d1"
    ));
    assert!(matches!(&writes[1], Write::RemoveEvent { delay_id } if delay_id == "d1"));
}

#[test]
fn event_stays_where_appending_fails() {
    let step =
        attempt(event("m.room.message", "{}")).validate(&config(), &Facts::unknown());
    let publication = match step {
        SendStep::Append { publication, .. } => publication,
        _ => panic!("not accepted"),
    };
    let (result, writes) = publication.appended::<String>(Err("auth".to_owned()));
    assert_eq!(result, Err("auth".to_owned()));
    assert!(writes.is_empty());
}

#[test]
fn state_event_keeps_its_state_key() {
    let mut state = event("m.room.topic", "{\"topic\":\"t\"}");
    state.state_key = Some("".to_owned());
    state.txn_id = None;
    let step = attempt(state).validate(&config(), &Facts::unknown());
    let pdu = match step {
        SendStep::Append { pdu, .. } => pdu,
        _ => panic!("not accepted"),
    };
    assert_eq!(pdu.state_key.as_deref(), Some(""));
    assert_eq!(text_member(&pdu, "transaction_id"), None);
    assert_eq!(text_member(&pdu, "org.matrix.msc4140.delay_id").as_deref(), Some("d1"));
}

#[test]
fn refused_event_is_finalized_and_kept() {
    let step =
        attempt(event("m.room.encrypted", "{}")).validate(&config(), &Facts::unknown());
    let refusal = match step {
        SendStep::Refused { refusal } => refusal,
        _ => panic!("not refused"),
    };
    assert_eq!(refusal.error().kind, ErrorKind::Forbidden);
    assert_eq!(refusal.error().message, "Encryption has been disabled");
    let (result, writes) = refusal.record("M_FORBIDDEN", "say \"no\"", 2_000);
    let error = result.unwrap_err();
    assert_eq!(error.kind, ErrorKind::Forbidden);
    assert_eq!(writes.len(), 1);
    match &writes[0] {
        Write::PutEvent { delay_id, event } => {
            assert_eq!(delay_id, "d1");
            assert_eq!(event.status, DelayedEventStatus::Finalized);
            assert_eq!(event.finalised_ts, Some(2_000));
            assert_eq!(
                event.error.as_deref(),
                Some("{\"errcode\":\"M_FORBIDDEN\",\"error\":\"say \\\"no\\\"\"}")
            );
            assert_eq!(event.timeout, 1_000);
            assert_eq!(event.event_id, None);
        }
        _ => panic!("not kept"),
    }
}

#[test]
fn policy_may_ask_before_it_decides() {
    let step =
        attempt(event("m.call.invite", "{}")).validate(&config(), &Facts::unknown());
    let attempt = match step {
        SendStep::Ask { attempt, question: Question::IsPublicRoom { room_id } } => {
            assert_eq!(room_id, "!room:example.org");
            attempt
        }
        _ => panic!("did not ask"),
    };
    let mut facts = Facts::unknown();
    facts.room_is_public = Some(true);
    match attempt.validate(&config(), &facts) {
        SendStep::Refused { refusal } => assert_eq!(
            refusal.error().message,
            "Room call invites are not allowed in public rooms"
        ),
        _ => panic!("not refused"),
    }
}

#[test]
fn content_that_is_no_json_is_refused() {
    let broken = Err("oops".to_owned());
    match attempt(event("m.room.message", "{")).validate_content(
        &config(),
        broken,
        &Facts::unknown(),
    ) {
        SendStep::Refused { refusal } => {
            assert_eq!(refusal.error().kind, ErrorKind::BadJson);
            assert_eq!(refusal.error().message, "Invalid raw content: oops");
        }
        _ => panic!("not refused"),
    }
    match attempt(event("m.room.message", "{")).validate(&config(), &Facts::unknown()) {
        SendStep::Refused { refusal } => {
            assert!(refusal.error().message.starts_with("Invalid raw content: EOF"));
        }
        _ => panic!("not refused"),
    }
}

#[test]
fn state_key_decides_which_policy_applies() {
    let mut state = event("m.room.create", "{}");
    let facts = Facts::unknown();
    let raw = Ok("{}".to_owned());
    let as_message = validate_send_time(&config(), &state, &raw, &facts);
    assert!(format!("{as_message:?}").contains("Ok"));
    state.state_key = Some("".to_owned());
    let as_state = validate_send_time(&config(), &state, &raw, &facts);
    assert!(format!("{as_state:?}")
        .contains("You cannot update m.room.create after a room has been created."));
}

#[test]
fn error_report_is_a_json_object() {
    assert_eq!(
        write_error_report("\"a\"", "\"b\""),
        "{\"errcode\":\"a\",\"error\":\"b\"}"
    );
}

#[test]
fn error_report_escapes_its_texts() {
    let step =
        attempt(event("m.room.encrypted", "{}")).validate(&config(), &Facts::unknown());
    let refusal = match step {
        SendStep::Refused { refusal } => refusal,
        _ => panic!("not refused"),
    };
    let (_, writes) =
        refusal.record("\u{8}\t\n\u{c}\r\u{0}\u{1f}", "a\\b/\u{7f}\u{e9}", 1);
    match &writes[0] {
        Write::PutEvent { event, .. } => assert_eq!(
            event.error.as_deref(),
            Some(
                "{\"errcode\":\"\\b\\t\\n\\f\\r\\u0000\\u001f\",\"error\":\"a\\\\b/\u{7f}\u{e9}\"}"
            )
        ),
        _ => panic!("not kept"),
    }
}

#[test]
fn whitespace_around_the_content_is_left_out() {
    let step = attempt(event("m.room.message", "\n\r\t {\"a\" : 1}\t\r\n "))
        .validate(&config(), &Facts::unknown());
    match step {
        SendStep::Append { pdu, .. } => assert_eq!(pdu.content, "{\"a\" : 1}"),
        _ => panic!("not accepted"),
    }
}
