use delayed_events::config::Config;
use delayed_events::error::ErrorKind;
use delayed_events::json::JsonValue;
use delayed_events::messages::{
    check_existing_txnid, effective_timestamp, judge_remembered_event, send_message_event_helper,
    AcceptedMessage, MessageRequest, MessageStep, Prepared,
};
use delayed_events::policy::{Facts, Question};
use delayed_events::room_state::{
    check_state_visible, get_state_event_for_key, send_state_event_for_key_helper,
    unreadable_state_request, StateEvent, StateFormat, StateReply, StateRequest, StateStep,
};
use delayed_events::sending::PduBuilder;

fn config() -> Config {
    Config {
        max_event_delay_ms: 0,
        max_delayed_events_per_user: 0,
        disable_local_redactions: false,
        allow_encryption: false,
        server_name: "example.org".to_owned(),
    }
}

fn request(event_type: &str, body: &str) -> MessageRequest {
    MessageRequest {
        room_id: "!r:x".to_owned(),
        sender_user: "@a:x".to_owned(),
        sender_device: Some("D".to_owned()),
        event_type: event_type.to_owned(),
        txn_id: "txn".to_owned(),
        from_appservice: false,
        timestamp: Some(5),
        body: body.to_owned(),
    }
}

fn accepted(request: MessageRequest) -> AcceptedMessage {
    match send_message_event_helper(&config(), request, None, &Facts::unknown()) {
        MessageStep::Accepted { message } => message,
        _ => panic!("not accepted"),
    }
}

fn pdu(prepared: Prepared) -> PduBuilder {
    match prepared {
        Prepared::Append { pdu, .. } => pdu,
        Prepared::Finished { .. } => panic!("nothing to append"),
    }
}

#[test]
fn message_is_appended_with_its_transaction() {
    let prepared = accepted(request("m.room.message", " {\"b\": 1} ")).prepare(None, "");
    let (pending, pdu) = match prepared {
        Prepared::Append { pending, pdu } => (pending, pdu),
        Prepared::Finished { .. } => panic!("nothing to append"),
    };
    assert_eq!(pdu.sender_user, "@a:x");
    assert_eq!(pdu.room_id, "!r:x");
    assert_eq!(pdu.event_type, "m.room.message");
    assert_eq!(pdu.content, "{\"b\": 1}");
    assert_eq!(pdu.state_key, None);
    assert_eq!(pdu.redacts, None);
    assert_eq!(pdu.timestamp, None);
    let unsigned = pdu.unsigned.unwrap();
    assert_eq!(unsigned.len(), 1);
    assert_eq!(unsigned[0].0, "transaction_id");
    assert!(matches!(&unsigned[0].1, JsonValue::Text(text) if text == "txn"));
    let (result, txn) = pending.appended::<String>(Ok("$e:x".to_owned()));
    assert_eq!(result, Ok("$e:x".to_owned()));
    let txn = txn.unwrap();
    assert_eq!(txn.sender_user, "@a:x");
    assert_eq!(txn.sender_device.as_deref(), Some("D"));
    assert_eq!(txn.txn_id, "txn");
    assert_eq!(txn.response, b"$e:x");
}

#[test]
fn failed_append_remembers_nothing() {
    let pending = match accepted(request("m.room.message", "{}")).prepare(None, "") {
        Prepared::Append { pending, .. } => pending,
        Prepared::Finished { .. } => panic!("nothing to append"),
    };
    let (result, txn) = pending.appended::<String>(Err("auth".to_owned()));
    assert_eq!(result, Err("auth".to_owned()));
    assert!(txn.is_none());
}

#[test]
fn repeated_message_is_not_sent() {
    let prepared =
        accepted(request("m.room.message", "{}")).prepare(Some(b"$e:x".to_vec()), "");
    match prepared {
        Prepared::Finished { result } => assert_eq!(result.unwrap(), "$e:x"),
        Prepared::Append { .. } => panic!("sent again"),
    }
}

#[test]
fn repeated_message_is_answered_whatever_the_policy_says() {
    let existing = check_existing_txnid(Some(b"$e:x".to_vec()), "");
    let step = send_message_event_helper(
        &config(),
        request("m.room.encrypted", "{}"),
        existing,
        &Facts::unknown(),
    );
    match step {
        MessageStep::Finished { result } => assert_eq!(result.unwrap(), "$e:x"),
        _ => panic!("not answered"),
    }
}

#[test]
fn transactions_of_other_endpoints_are_refused() {
    let error = check_existing_txnid(Some(vec![]), "").unwrap().unwrap_err();
    assert_eq!(error.kind, ErrorKind::InvalidParam);
    assert_eq!(
        error.message,
        "Tried to use txn_id already used for an incompatible endpoint."
    );
    for response in [vec![0xff], b"no event".to_vec()] {
        let error = check_existing_txnid(Some(response), "[1]").unwrap().unwrap_err();
        assert_eq!(error.kind, ErrorKind::Database);
        assert_eq!(error.message, "Invalid event_id in txn_id data: [1].");
    }
    assert!(check_existing_txnid(None, "").is_none());
    assert_eq!(
        judge_remembered_event(Some("t".to_owned()), true, "").unwrap(),
        "t"
    );
    assert!(judge_remembered_event(Some("t".to_owned()), false, "").is_err());
    assert!(judge_remembered_event(None, true, "").is_err());
}

#[test]
fn message_must_be_json() {
    match accepted(request("m.room.message", "{")).prepare(None, "") {
        Prepared::Finished { result } => {
            let error = result.unwrap_err();
            assert_eq!(error.kind, ErrorKind::BadJson);
            assert!(error.message.starts_with("Invalid JSON body: EOF"));
        }
        Prepared::Append { .. } => panic!("sent"),
    }
    match accepted(request("m.room.message", "{}")).compose(None, Err("why".to_owned()), None) {
        Prepared::Finished { result } => {
            assert_eq!(result.unwrap_err().message, "Invalid JSON body: why");
        }
        Prepared::Append { .. } => panic!("sent"),
    }
}

#[test]
fn redaction_is_lifted_from_the_content() {
    let body = "{\"redacts\":\"$other:x\"}";
    let lifted = pdu(accepted(request("m.room.redaction", body)).prepare(None, ""));
    assert_eq!(lifted.redacts.as_deref(), Some("$other:x"));
    let none = pdu(accepted(request("m.room.redaction", "{}")).prepare(None, ""));
    assert_eq!(none.redacts, None);
    let message = pdu(accepted(request("m.room.message", body)).prepare(None, ""));
    assert_eq!(message.redacts, None);
}

#[test]
fn only_application_services_choose_the_time() {
    let mut from_service = request("m.room.message", "{}");
    from_service.from_appservice = true;
    assert_eq!(pdu(accepted(from_service).prepare(None, "")).timestamp, Some(5));
    assert_eq!(effective_timestamp(true, Some(5)), Some(5));
    assert_eq!(effective_timestamp(true, None), None);
    assert_eq!(effective_timestamp(false, Some(5)), None);
}

#[test]
fn policy_holds_for_messages() {
    match send_message_event_helper(
        &config(),
        request("m.room.encrypted", "{}"),
        None,
        &Facts::unknown(),
    ) {
        MessageStep::Refused { error } => {
            assert_eq!(error.message, "Encryption has been disabled");
        }
        _ => panic!("not refused"),
    }
    match send_message_event_helper(
        &config(),
        request("m.call.invite", "{}"),
        None,
        &Facts::unknown(),
    ) {
        MessageStep::Ask { request, question: Question::IsPublicRoom { room_id } } => {
            assert_eq!(request.txn_id, "txn");
            assert_eq!(room_id, "!r:x");
        }
        _ => panic!("did not ask"),
    }
}

fn state_request(event_type: &str, body: &str) -> StateRequest {
    StateRequest {
        room_id: "!r:x".to_owned(),
        sender_user: "@a:x".to_owned(),
        event_type: event_type.to_owned(),
        state_key: "k".to_owned(),
        timestamp: Some(9),
        body: body.to_owned(),
    }
}

#[test]
fn state_event_is_appended_with_its_key() {
    let step = send_state_event_for_key_helper(
        &config(),
        state_request("m.room.topic", "{\"t\": 1}"),
        &Facts::unknown(),
    );
    let pdu = match step {
        StateStep::Accepted { state } => state.prepare().unwrap(),
        _ => panic!("not accepted"),
    };
    assert_eq!(pdu.sender_user, "@a:x");
    assert_eq!(pdu.room_id, "!r:x");
    assert_eq!(pdu.event_type, "m.room.topic");
    assert_eq!(pdu.content, "{\"t\": 1}");
    assert_eq!(pdu.state_key.as_deref(), Some("k"));
    assert_eq!(pdu.timestamp, Some(9));
    assert!(pdu.unsigned.is_none());
    assert_eq!(pdu.redacts, None);
}

#[test]
fn state_content_must_be_json() {
    let step = send_state_event_for_key_helper(
        &config(),
        state_request("m.room.topic", "{"),
        &Facts::unknown(),
    );
    match step {
        StateStep::Accepted { state } => {
            assert!(state.prepare().unwrap_err().starts_with("EOF"));
        }
        _ => panic!("not accepted"),
    }
    let step = send_state_event_for_key_helper(
        &config(),
        state_request("m.room.topic", "{}"),
        &Facts::unknown(),
    );
    match step {
        StateStep::Accepted { state } => {
            assert_eq!(state.compose(Err("why".to_owned())).unwrap_err(), "why");
        }
        _ => panic!("not accepted"),
    }
}

#[test]
fn policy_holds_for_state_events() {
    let step = send_state_event_for_key_helper(
        &config(),
        state_request("m.room.create", "{}"),
        &Facts::unknown(),
    );
    assert!(matches!(step, StateStep::Refused { .. }));
    let step = send_state_event_for_key_helper(
        &config(),
        state_request("m.room.join_rules", "{}"),
        &Facts::unknown(),
    );
    assert!(matches!(step, StateStep::Ask { question: Question::AdminRoom, .. }));
}

#[test]
fn unreadable_requests_are_bad_json() {
    let error = unreadable_state_request("why");
    assert_eq!(error.kind, ErrorKind::BadJson);
    assert_eq!(error.message, "Invalid state event request: why");
}

#[test]
fn state_is_shown_to_those_who_can_see_it() {
    assert!(check_state_visible(true).is_ok());
    let error = check_state_visible(false).unwrap_err();
    assert_eq!(error.kind, ErrorKind::Forbidden);
    assert_eq!(error.message, "You don't have permission to view the room state.");
}

fn state_event() -> StateEvent {
    StateEvent {
        content: "{\"topic\":\"t\"}".to_owned(),
        event_id: "$e".to_owned(),
        origin_server_ts: 12,
        room_id: "!r:x".to_owned(),
        sender: "@a:x".to_owned(),
        state_key: Some("".to_owned()),
        event_type: "m.room.topic".to_owned(),
        unsigned: None,
    }
}

#[test]
fn state_event_is_given_in_the_form_that_was_asked_for() {
    match get_state_event_for_key(true, Ok(state_event()), StateFormat::Content).unwrap() {
        StateReply::Content(json) => assert_eq!(json, "{\"topic\":\"t\"}"),
        StateReply::Event(_) => panic!("whole event"),
    }
    match get_state_event_for_key(true, Ok(state_event()), StateFormat::Event).unwrap() {
        StateReply::Event(members) => {
            let keys: Vec<&str> = members.iter().map(|(key, _)| key.as_str()).collect();
            assert_eq!(
                keys,
                vec![
                    "content",
                    "event_id",
                    "origin_server_ts",
                    "room_id",
                    "sender",
                    "state_key",
                    "type",
                    "unsigned"
                ]
            );
            assert!(matches!(&members[0].1, JsonValue::Json(json) if json == "{\"topic\":\"t\"}"));
            assert!(matches!(&members[2].1, JsonValue::Number(12)));
            assert!(matches!(&members[5].1, JsonValue::Text(text) if text.is_empty()));
            assert!(matches!(&members[6].1, JsonValue::Text(text) if text == "m.room.topic"));
            assert!(matches!(&members[7].1, JsonValue::Null));
        }
        StateReply::Content(_) => panic!("content only"),
    }
}

#[test]
fn state_event_may_not_be_found() {
    let error =
        get_state_event_for_key(false, Ok(state_event()), StateFormat::Content).unwrap_err();
    assert_eq!(error.kind, ErrorKind::NotFound);
    assert_eq!(error.message, "You don't have permission to view the room state.");
    let error =
        get_state_event_for_key(true, Err("gone".to_owned()), StateFormat::Content).unwrap_err();
    assert_eq!(error.kind, ErrorKind::NotFound);
    assert_eq!(error.message, "Failed to get state event: gone.");
}
