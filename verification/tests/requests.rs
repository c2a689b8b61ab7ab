use delayed_events::config::Config;
use delayed_events::delay_id::{delay_id_of, generate_delay_id};
use delayed_events::error::ErrorKind;
use delayed_events::event::{DelayedEvent, DelayedEventStatus};
use delayed_events::json::{JsonObject, JsonValue};
use delayed_events::query::{
    extract_token_from_request, find_user_from_token, has_delay_param, is_delayed_request,
    names_delay, pick_token, require_token,
};
use delayed_events::requests::{
    event_to_json, get_delayed_event, list_delayed_events, update_operation, Operation,
};
use delayed_events::scheduling::{check_existing_txnid, NewEvent};
use delayed_events::service::Service;
use delayed_events::store::Write;

fn service(max_delay: u64) -> Service {
    Service {
        config: Config {
            max_event_delay_ms: max_delay,
            max_delayed_events_per_user: 1,
            disable_local_redactions: false,
            allow_encryption: true,
            server_name: "example.org".to_owned(),
        },
    }
}

fn event() -> DelayedEvent {
    DelayedEvent {
        delay_id: "d1".to_owned(),
        room_id: "!r:x".to_owned(),
        sender_user: "@a:x".to_owned(),
        sender_device: Some("D".to_owned()),
        event_type: "m.room.message".to_owned(),
        state_key: None,
        txn_id: None,
        content: "{\"a\":1}".to_owned(),
        delay_ms: 10,
        timeout: 30,
        running_since: 20,
        status: DelayedEventStatus::Scheduled,
        error: None,
        event_id: None,
        finalised_ts: None,
    }
}

fn member<'a>(object: &'a JsonObject, key: &str) -> Option<&'a JsonValue> {
    object.iter().find(|(name, _)| name == key).map(|(_, value)| value)
}

fn is_text(object: &JsonObject, key: &str, expected: &str) -> bool {
    matches!(member(object, key), Some(JsonValue::Text(text)) if text == expected)
}

fn is_number(object: &JsonObject, key: &str, expected: u64) -> bool {
    matches!(member(object, key), Some(JsonValue::Number(number)) if *number == expected)
}

fn is_json(object: &JsonObject, key: &str, expected: &str) -> bool {
    matches!(member(object, key), Some(JsonValue::Json(json)) if json == expected)
}

fn message(
    service: &Service,
    millis: u128,
    body: &str,
    earlier: Option<(String, Option<DelayedEvent>)>,
) -> Result<delayed_events::scheduling::Scheduled, delayed_events::error::Error> {
    service.handle_delayed_message_event(
        "!r:x".to_owned(),
        "@a:x".to_owned(),
        Some("D".to_owned()),
        "m.room.message".to_owned(),
        "txn".to_owned(),
        millis,
        body.to_owned(),
        earlier,
        &vec![],
        1_000,
    )
}

#[test]
fn scheduled_event_shows_eight_members() {
    let object = event_to_json(event());
    assert_eq!(object.len(), 8);
    assert!(is_text(&object, "delay_id", "d1"));
    assert!(is_text(&object, "room_id", "!r:x"));
    assert!(is_text(&object, "type", "m.room.message"));
    assert!(is_number(&object, "delay", 10));
    assert!(is_number(&object, "send_ts", 30));
    assert!(is_number(&object, "running_since", 20));
    assert!(is_json(&object, "content", "{\"a\":1}"));
    assert!(is_text(&object, "status", "scheduled"));
}

#[test]
fn finalized_event_shows_its_outcome() {
    let mut finalized = event();
    finalized.status = DelayedEventStatus::Finalized;
    finalized.state_key = Some("k".to_owned());
    finalized.error = Some("{\"errcode\":\"x\"}".to_owned());
    finalized.event_id = Some("$e".to_owned());
    finalized.finalised_ts = Some(77);
    let object = event_to_json(finalized);
    assert_eq!(object.len(), 12);
    assert!(is_text(&object, "status", "finalized"));
    assert!(is_text(&object, "state_key", "k"));
    assert!(is_json(&object, "error", "{\"errcode\":\"x\"}"));
    assert!(is_text(&object, "event_id", "$e"));
    assert!(is_number(&object, "finalised_ts", 77));
    let mut keys: Vec<String> = object.iter().map(|(key, _)| key.clone()).collect();
    keys.sort();
    keys.dedup();
    assert_eq!(keys.len(), 12);
}

#[test]
fn only_the_sender_is_shown_an_event() {
    let object = get_delayed_event(Some(event()), &"@a:x".to_owned()).unwrap();
    assert!(is_text(&object, "delay_id", "d1"));
    for stored in [Some(event()), None] {
        let error = get_delayed_event(stored, &"@b:x".to_owned()).unwrap_err();
        assert_eq!(error.kind, ErrorKind::NotFound);
        assert_eq!(error.message, "Delayed event not found");
    }
}

#[test]
fn list_shows_every_event() {
    let mut second = event();
    second.delay_id = "d2".to_owned();
    let objects = list_delayed_events(&vec![event(), second]);
    assert_eq!(objects.len(), 2);
    assert!(is_text(&objects[0], "delay_id", "d1"));
    assert!(is_text(&objects[1], "delay_id", "d2"));
    assert!(list_delayed_events(&vec![]).is_empty());
}

#[test]
fn update_names_its_operation() {
    assert_eq!(update_operation("cancel").unwrap(), Operation::Cancel);
    assert_eq!(update_operation("send").unwrap(), Operation::Send);
    assert_eq!(update_operation("restart").unwrap(), Operation::Restart);
    for action in ["", "Cancel", "delete"] {
        let error = update_operation(action).unwrap_err();
        assert_eq!(error.kind, ErrorKind::InvalidParam);
        assert_eq!(error.message, "Unknown update action");
    }
}

#[test]
fn delay_parameter_is_found() {
    assert!(has_delay_param("org.matrix.msc4140.delay=1000"));
    assert!(has_delay_param("a=b&ORG.matrix.MSC4140.Delay=1"));
    assert!(has_delay_param("org.matrix.msc4140%2Edelay=1"));
    assert!(has_delay_param("org.matrix.msc4140.delay"));
    assert!(!has_delay_param("org.matrix.msc4140.delays=1"));
    assert!(!has_delay_param("a=org.matrix.msc4140.delay"));
    assert!(!has_delay_param(""));
    assert!(!is_delayed_request(&None));
    assert!(is_delayed_request(&Some("org.matrix.msc4140.delay=5".to_owned())));
    assert!(names_delay(&vec![
        ("x".to_owned(), "y".to_owned()),
        ("Org.Matrix.Msc4140.Delay".to_owned(), "".to_owned())
    ]));
    assert!(!names_delay(&vec![]));
}

#[test]
fn token_of_the_header_comes_first() {
    let query = Some("access_token=q&access_token=r".to_owned());
    let header = |text: &str| Some(text.as_bytes().to_vec());
    assert_eq!(
        extract_token_from_request(&header("Bearer abc"), &query).as_deref(),
        Some("abc")
    );
    assert_eq!(
        extract_token_from_request(&header("bEARER a b"), &query).as_deref(),
        Some("a b")
    );
    assert_eq!(extract_token_from_request(&header("Bearer "), &None).as_deref(), Some(""));
    for other in ["Basic abc", "Bearer", "", " Bearer abc", "Bearers abc", "Bearer abc\u{e9}"] {
        assert_eq!(
            extract_token_from_request(&header(other), &query).as_deref(),
            Some("q"),
            "{other}"
        );
    }
    assert_eq!(extract_token_from_request(&None, &query).as_deref(), Some("q"));
    assert_eq!(
        extract_token_from_request(&None, &Some("access%5Ftoken=a%20b+c".to_owned())).as_deref(),
        Some("a b c")
    );
    assert_eq!(extract_token_from_request(&None, &Some("Access_Token=q".to_owned())), None);
    assert_eq!(extract_token_from_request(&None, &None), None);
    assert_eq!(extract_token_from_request(&Some(b"Bearer a\x01".to_vec()), &None), None);
    assert_eq!(
        extract_token_from_request(&Some(b"Bearer a\tb".to_vec()), &None).as_deref(),
        Some("a\tb")
    );
    assert_eq!(
        pick_token(&None, &Some(vec![("access_token".to_owned(), "t".to_owned())])).as_deref(),
        Some("t")
    );
}

#[test]
fn token_is_required() {
    assert_eq!(require_token(Some("t".to_owned())).unwrap(), "t");
    let error = require_token(None).unwrap_err();
    assert_eq!(error.kind, ErrorKind::MissingToken);
    assert_eq!(error.message, "Missing access token");
}

#[test]
fn tokens_stand_for_users_until_they_expire() {
    let found = |expires| Some(("@a:x".to_owned(), expires));
    assert_eq!(find_user_from_token(found(None), 50).unwrap(), "@a:x");
    assert_eq!(find_user_from_token(found(Some(50)), 50).unwrap(), "@a:x");
    let error = find_user_from_token(found(Some(49)), 50).unwrap_err();
    assert_eq!(error.kind, ErrorKind::Forbidden);
    assert_eq!(error.message, "Access token has expired");
    let error = find_user_from_token(None, 50).unwrap_err();
    assert_eq!(error.kind, ErrorKind::Forbidden);
    assert_eq!(error.message, "Invalid access token");
}

#[test]
fn delay_id_is_url_safe_base64() {
    assert_eq!(delay_id_of([0; 16]), "AAAAAAAAAAAAAAAAAAAAAA");
    assert_eq!(delay_id_of([255; 16]), "_____________________w");
    assert_eq!(
        delay_id_of([0, 1, 2, 3, 4, 5, 6, 7, 8, 9, 10, 11, 12, 13, 14, 15]),
        "AAECAwQFBgcICQoLDA0ODw"
    );
    assert_eq!(
        delay_id_of([251, 239, 190, 251, 239, 190, 251, 239, 190, 251, 239, 190, 0, 0, 0, 1]),
        "----------------AAAAAQ"
    );
}

#[test]
fn generated_delay_ids_differ() {
    let a = generate_delay_id();
    let b = generate_delay_id();
    assert_eq!(a.len(), 22);
    assert!(a.chars().all(|c| c.is_ascii_alphanumeric() || c == '-' || c == '_'));
    assert_ne!(a, b);
}

#[test]
fn message_is_scheduled_with_its_transaction() {
    let scheduled = message(&service(5_000), 3_000, "{ \"b\" : [1, 2] }", None).unwrap();
    assert_eq!(scheduled.delay_id.len(), 22);
    assert_eq!(scheduled.writes.len(), 3);
    match &scheduled.writes[0] {
        Write::PutEvent { delay_id, event } => {
            assert_eq!(*delay_id, scheduled.delay_id);
            assert_eq!(event.delay_id, scheduled.delay_id);
            assert_eq!(event.content, "{\"b\":[1,2]}");
            assert_eq!(event.txn_id.as_deref(), Some("txn"));
            assert_eq!(event.state_key, None);
            assert_eq!(event.sender_device.as_deref(), Some("D"));
            assert_eq!(event.delay_ms, 3_000);
            assert_eq!(event.timeout, 4_000);
        }
        _ => panic!("no event"),
    }
    let txn = scheduled.txn.unwrap();
    assert_eq!(txn.sender_user, "@a:x");
    assert_eq!(txn.sender_device.as_deref(), Some("D"));
    assert_eq!(txn.txn_id, "txn");
    assert_eq!(txn.response, scheduled.delay_id.as_bytes());
    assert_eq!(check_existing_txnid(Some(txn.response)), Some(scheduled.delay_id));
}

#[test]
fn repeated_request_is_replayed_while_its_event_is_there() {
    let earlier = Some(("earlier".to_owned(), Some(event())));
    let replayed = message(&service(5_000), 3_000, "{}", earlier).unwrap();
    assert_eq!(replayed.delay_id, "earlier");
    assert!(replayed.writes.is_empty());
    assert!(replayed.txn.is_none());
    let gone = Some(("earlier".to_owned(), None));
    let fresh = message(&service(5_000), 3_000, "{}", gone).unwrap();
    assert_ne!(fresh.delay_id, "earlier");
    assert_eq!(fresh.writes.len(), 3);
}

#[test]
fn unusable_transactions_are_new() {
    assert_eq!(check_existing_txnid(None), None);
    assert_eq!(check_existing_txnid(Some(vec![])), None);
    assert_eq!(check_existing_txnid(Some(vec![0xff, 0xfe])), None);
    assert_eq!(
        check_existing_txnid(Some("h\u{e9}".as_bytes().to_vec())).as_deref(),
        Some("h\u{e9}")
    );
}

#[test]
fn delay_must_be_positive() {
    let error = message(&service(5_000), 0, "{}", None).unwrap_err();
    assert_eq!(error.kind, ErrorKind::InvalidParam);
    assert_eq!(error.message, "Delay must be greater than 0");
    let state = service(5_000).handle_delayed_state_event(
        "!r:x".to_owned(),
        "@a:x".to_owned(),
        None,
        "m.room.topic".to_owned(),
        "".to_owned(),
        0,
        "{".to_owned(),
        &vec![],
        0,
    );
    assert_eq!(state.unwrap_err().message, "Delay must be greater than 0");
}

#[test]
fn long_delays_saturate() {
    let scheduled = message(&service(u64::MAX), u128::MAX, "{}", None).unwrap();
    match &scheduled.writes[0] {
        Write::PutEvent { event, .. } => {
            assert_eq!(event.delay_ms, u64::MAX);
            assert_eq!(event.timeout, u64::MAX);
        }
        _ => panic!("no event"),
    }
    let error = message(&service(5_000), u128::MAX, "{}", None).unwrap_err();
    assert_eq!(error.message, "Delay exceeds maximum allowed delay");
}

#[test]
fn body_must_be_json() {
    let error = message(&service(5_000), 10, "{", None).unwrap_err();
    assert_eq!(error.kind, ErrorKind::BadJson);
    assert!(error.message.starts_with("Invalid JSON body: EOF while parsing an object"));
    let new = NewEvent {
        room_id: "!r:x".to_owned(),
        sender_user: "@a:x".to_owned(),
        sender_device: None,
        event_type: "t".to_owned(),
        state_key: None,
        txn_id: None,
        delay_millis: 10,
    };
    let error = service(5_000)
        .schedule(new, "d".to_owned(), Err("why".to_owned()), &vec![], 0)
        .unwrap_err();
    assert_eq!(error.message, "Invalid JSON body: why");
}

#[test]
fn state_event_is_scheduled_with_its_key_and_no_transaction() {
    let scheduled = service(5_000)
        .handle_delayed_state_event(
            "!r:x".to_owned(),
            "@a:x".to_owned(),
            None,
            "m.room.create".to_owned(),
            "key".to_owned(),
            10,
            "{}".to_owned(),
            &vec![],
            0,
        )
        .unwrap();
    assert!(scheduled.txn.is_none());
    match &scheduled.writes[0] {
        Write::PutEvent { event, .. } => {
            assert_eq!(event.state_key.as_deref(), Some("key"));
            assert_eq!(event.txn_id, None);
            assert_eq!(event.event_type, "m.room.create");
        }
        _ => panic!("no event"),
    }
}

#[test]
fn limit_holds_for_requests() {
    let result = service(5_000).handle_delayed_message_event(
        "!r:x".to_owned(),
        "@a:x".to_owned(),
        None,
        "m.room.message".to_owned(),
        "txn".to_owned(),
        10,
        "{}".to_owned(),
        None,
        &vec![event()],
        0,
    );
    assert_eq!(result.unwrap_err().kind, ErrorKind::LimitExceeded);
}
