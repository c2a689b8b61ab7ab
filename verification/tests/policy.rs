use delayed_events::config::Config;
use delayed_events::content::{AclContent, Membership};
use delayed_events::error::ErrorKind;
use delayed_events::policy::{
    allowed_to_send_state_event, check_duplicate_reaction, check_public_call_invite,
    judge_canonical_alias, judge_server_acl, list_current_aliases, validate_history_visibility,
    validate_join_rules, validate_member, validate_message_event_policy, Facts, Question,
    Resolution, Verdict,
};

const ROOM: &str = "!room:example.org";
const USER: &str = "@a:example.org";

fn config() -> Config {
    Config {
        max_event_delay_ms: 0,
        max_delayed_events_per_user: 0,
        disable_local_redactions: false,
        allow_encryption: true,
        server_name: "example.org".to_owned(),
    }
}

fn strict() -> Config {
    Config { disable_local_redactions: true, allow_encryption: false, ..config() }
}

fn message(config: &Config, event_type: &str, content: &str, facts: &Facts) -> Verdict {
    validate_message_event_policy(config, USER, event_type, content, ROOM, facts)
}

fn state(event_type: &str, state_key: &str, json: &str, facts: &Facts) -> Verdict {
    allowed_to_send_state_event(
        &config(),
        &ROOM.to_owned(),
        event_type,
        state_key,
        json,
        facts,
    )
}

fn accepted(verdict: Verdict) -> bool {
    matches!(verdict, Verdict::Decided(Ok(())))
}

fn refusal(verdict: Verdict) -> (ErrorKind, String) {
    match verdict {
        Verdict::Decided(Err(error)) => (error.kind, error.message),
        _ => panic!("not refused"),
    }
}

fn question(verdict: Verdict) -> Question {
    match verdict {
        Verdict::Ask(question) => question,
        Verdict::Decided(_) => panic!("decided"),
    }
}

#[test]
fn ordinary_messages_are_allowed() {
    assert!(accepted(message(&strict(), "m.room.message", "{}", &Facts::unknown())));
    assert!(accepted(message(&strict(), "M.ROOM.ENCRYPTED", "{}", &Facts::unknown())));
    assert!(accepted(message(&config(), "m.room.encrypted", "{}", &Facts::unknown())));
}

#[test]
fn only_administrators_redact_where_that_is_disabled() {
    let mut facts = Facts::unknown();
    assert!(accepted(message(&config(), "m.room.redaction", "{}", &facts)));
    match question(message(&strict(), "m.room.redaction", "{}", &facts)) {
        Question::IsAdmin { user } => assert_eq!(user, USER),
        _ => panic!("another question"),
    }
    facts.sender_is_admin = Some(true);
    assert!(accepted(message(&strict(), "m.room.redaction", "{}", &facts)));
    facts.sender_is_admin = Some(false);
    assert_eq!(
        refusal(message(&strict(), "m.room.redaction", "{}", &facts)),
        (ErrorKind::Forbidden, "Redactions are disabled on this server.".to_owned())
    );
}

#[test]
fn encrypted_messages_can_be_disabled() {
    assert_eq!(
        refusal(message(&strict(), "m.room.encrypted", "{}", &Facts::unknown())),
        (ErrorKind::Forbidden, "Encryption has been disabled".to_owned())
    );
}

#[test]
fn reactions_are_not_repeated() {
    let content = "{\"m.relates_to\":{\"rel_type\":\"m.annotation\",\"event_id\":\"$e:x\",\"key\":\"+1\"}}";
    let mut facts = Facts::unknown();
    match question(message(&config(), "m.reaction", content, &facts)) {
        Question::HasReacted { event_id, user, key } => {
            assert_eq!(event_id, "$e:x");
            assert_eq!(user, USER);
            assert_eq!(key, "+1");
        }
        _ => panic!("another question"),
    }
    facts.has_reacted = Some(false);
    assert!(accepted(message(&config(), "m.reaction", content, &facts)));
    facts.has_reacted = Some(true);
    assert_eq!(
        refusal(message(&config(), "m.reaction", content, &facts)),
        (ErrorKind::DuplicateAnnotation, "Duplicate reactions are not allowed.".to_owned())
    );
    assert!(accepted(message(&config(), "m.reaction", "{}", &facts)));
    assert!(accepted(check_duplicate_reaction(USER, None, &facts)));
    assert!(!accepted(check_duplicate_reaction(
        USER,
        Some(("$e".to_owned(), "k".to_owned())),
        &facts
    )));
}

#[test]
fn public_rooms_get_no_call_invites() {
    let mut facts = Facts::unknown();
    assert!(matches!(
        question(check_public_call_invite(ROOM, &facts)),
        Question::IsPublicRoom { room_id } if room_id == ROOM
    ));
    facts.room_is_public = Some(false);
    assert!(accepted(message(&config(), "m.call.invite", "{}", &facts)));
    facts.room_is_public = Some(true);
    assert_eq!(
        refusal(message(&config(), "m.call.invite", "{}", &facts)),
        (
            ErrorKind::Forbidden,
            "Room call invites are not allowed in public rooms".to_owned()
        )
    );
}

#[test]
fn rooms_are_created_once() {
    assert_eq!(
        refusal(state("m.room.create", "", "{}", &Facts::unknown())),
        (
            ErrorKind::BadJson,
            "You cannot update m.room.create after a room has been created.".to_owned()
        )
    );
    assert!(accepted(state("m.room.topic", "", "{}", &Facts::unknown())));
}

#[test]
fn encryption_of_rooms_can_be_disabled() {
    assert!(accepted(state("m.room.encryption", "", "{}", &Facts::unknown())));
    let verdict = allowed_to_send_state_event(
        &strict(),
        &ROOM.to_owned(),
        "m.room.encryption",
        "",
        "{}",
        &Facts::unknown(),
    );
    assert_eq!(
        refusal(verdict),
        (ErrorKind::Forbidden, "Encryption is disabled on this homeserver.".to_owned())
    );
}

fn acl(json: &str) -> Verdict {
    state("m.room.server_acl", "", json, &Facts::unknown())
}

#[test]
fn access_rules_must_allow_somebody() {
    let (kind, text) = refusal(acl("{\"allow\":[],\"deny\":[]}"));
    assert_eq!(kind, ErrorKind::BadJson);
    assert_eq!(text, "Sending an ACL event with an empty allow key will permanently brick the room for non-tuwunel's as this equates to no servers being allowed to participate in this room.");
}

#[test]
fn access_rules_must_not_allow_and_deny_everybody() {
    let (kind, text) = refusal(acl("{\"allow\":[\"*\"],\"deny\":[\"*\"]}"));
    assert_eq!(kind, ErrorKind::BadJson);
    assert_eq!(text, "Sending an ACL event with a deny and allow key value of \"*\" will permanently brick the room for non-tuwunel's as this equates to no servers being allowed to participate in this room.");
}

#[test]
fn access_rules_must_not_shut_this_server_out() {
    let (kind, text) = refusal(acl("{\"allow\":[\"other.org\"],\"deny\":[\"*\"]}"));
    assert_eq!(kind, ErrorKind::BadJson);
    assert_eq!(text, "Sending an ACL event with a deny key value of \"*\" and without your own server name in the allow key will result in you being unable to participate in this room.");
    let (kind, text) = refusal(acl("{\"allow\":[\"other.org\"]}"));
    assert_eq!(kind, ErrorKind::BadJson);
    assert_eq!(text, "Sending an ACL event for an allow key without \"*\" and without your own server name in the allow key will result in you being unable to participate in this room.");
}

#[test]
fn access_rules_may_name_this_server() {
    assert!(accepted(acl("{\"allow\":[\"*\"],\"deny\":[\"bad.org\"]}")));
    assert!(accepted(acl("{\"allow\":[\"example.org\"],\"deny\":[\"*\"]}")));
    assert!(accepted(acl("{\"allow\":[\"*.org\"]}")));
    assert!(refusal(acl("{\"allow\":5}")).1.starts_with("Room server ACL event is invalid: "));
}

#[test]
fn access_rules_that_were_read_are_judged() {
    let rules = |allow: Vec<&str>, deny: Vec<&str>| {
        Ok(AclContent {
            allow_ip_literals: true,
            allow: allow.into_iter().map(str::to_owned).collect(),
            deny: deny.into_iter().map(str::to_owned).collect(),
        })
    };
    assert!(accepted(judge_server_acl("x", rules(vec!["y"], vec![]), true)));
    assert!(accepted(judge_server_acl("x", rules(vec!["x"], vec!["*"]), false)));
    assert!(!accepted(judge_server_acl("x", rules(vec!["y"], vec![]), false)));
    assert_eq!(
        refusal(judge_server_acl("x", Err("why".to_owned()), false)),
        (ErrorKind::BadJson, "Room server ACL event is invalid: why".to_owned())
    );
}

#[test]
fn admin_room_is_not_made_public() {
    let mut facts = Facts::unknown();
    let public = "{\"join_rule\":\"public\"}";
    assert!(matches!(
        question(state("m.room.join_rules", "", public, &facts)),
        Question::AdminRoom
    ));
    facts.admin_room = Some(None);
    assert!(accepted(state("m.room.join_rules", "", public, &facts)));
    facts.admin_room = Some(Some("!other:x".to_owned()));
    assert!(accepted(state("m.room.join_rules", "", public, &facts)));
    facts.admin_room = Some(Some(ROOM.to_owned()));
    assert_eq!(
        refusal(state("m.room.join_rules", "", public, &facts)),
        (
            ErrorKind::Forbidden,
            "Admin room is a sensitive room, it cannot be made public".to_owned()
        )
    );
    assert!(accepted(state("m.room.join_rules", "", "{\"join_rule\":\"invite\"}", &facts)));
    assert_eq!(
        refusal(validate_join_rules(&ROOM.to_owned(), Err("why".to_owned()), &facts)),
        (ErrorKind::BadJson, "Room join rules event is invalid: why".to_owned())
    );
    assert!(refusal(state("m.room.join_rules", "", "[]", &facts))
        .1
        .starts_with("Room join rules event is invalid: "));
}

#[test]
fn admin_room_is_not_made_world_readable() {
    let mut facts = Facts::unknown();
    let readable = "{\"history_visibility\":\"world_readable\"}";
    assert!(matches!(
        question(state("m.room.history_visibility", "", readable, &facts)),
        Question::AdminRoom
    ));
    facts.admin_room = Some(None);
    assert!(accepted(state("m.room.history_visibility", "", "[]", &facts)));
    facts.admin_room = Some(Some("!other:x".to_owned()));
    assert!(accepted(state("m.room.history_visibility", "", readable, &facts)));
    assert!(refusal(state("m.room.history_visibility", "", "[]", &facts))
        .1
        .starts_with("Room history visibility event is invalid: "));
    facts.admin_room = Some(Some(ROOM.to_owned()));
    assert_eq!(
        refusal(state("m.room.history_visibility", "", readable, &facts)),
        (
            ErrorKind::Forbidden,
            "Admin room is a sensitive room, it cannot be made world readable (public room history).".to_owned()
        )
    );
    let shared = "{\"history_visibility\":\"shared\"}";
    assert!(accepted(state("m.room.history_visibility", "", shared, &facts)));
    assert_eq!(
        refusal(validate_history_visibility(&ROOM.to_owned(), Err("why".to_owned()), &facts)),
        (ErrorKind::BadJson, "Room history visibility event is invalid: why".to_owned())
    );
}

#[test]
fn new_aliases_must_lead_to_the_room() {
    let json = "{\"alias\":\"#a:example.org\",\"alt_aliases\":[\"#b:example.org\",\"#c:example.org\"]}";
    let mut facts = Facts::unknown();
    match question(state("m.room.canonical_alias", "", json, &facts)) {
        Question::AliasContent { room_id } => assert_eq!(room_id, ROOM),
        _ => panic!("another question"),
    }
    facts.alias_content = Some(Some("{\"alias\":\"#b:example.org\"}".to_owned()));
    match question(state("m.room.canonical_alias", "", json, &facts)) {
        Question::ResolveAlias { alias } => assert_eq!(alias, "#a:example.org"),
        _ => panic!("another question"),
    }
    facts.resolved.push(Resolution::Room(ROOM.to_owned()));
    match question(state("m.room.canonical_alias", "", json, &facts)) {
        Question::ResolveAlias { alias } => assert_eq!(alias, "#c:example.org"),
        _ => panic!("another question"),
    }
    facts.resolved.push(Resolution::Room(ROOM.to_owned()));
    assert!(accepted(state("m.room.canonical_alias", "", json, &facts)));
    facts.resolved[1] = Resolution::Room("!other:x".to_owned());
    assert_eq!(
        refusal(state("m.room.canonical_alias", "", json, &facts)),
        (
            ErrorKind::BadAlias,
            "Room alias #c:example.org does not belong to room !room:example.org".to_owned()
        )
    );
    facts.resolved[0] = Resolution::Failed("nowhere".to_owned());
    assert_eq!(
        refusal(state("m.room.canonical_alias", "", json, &facts)),
        (
            ErrorKind::BadAlias,
            "Failed resolving alias \"#a:example.org\": nowhere".to_owned()
        )
    );
}

#[test]
fn aliases_must_be_readable() {
    assert!(refusal(state("m.room.canonical_alias", "", "5", &Facts::unknown()))
        .1
        .starts_with("Room canonical alias event is invalid: "));
    assert_eq!(
        refusal(judge_canonical_alias(
            &ROOM.to_owned(),
            Err("why".to_owned()),
            None,
            &vec![]
        )),
        (ErrorKind::InvalidParam, "Room canonical alias event is invalid: why".to_owned())
    );
    let mut facts = Facts::unknown();
    facts.alias_content = Some(None);
    assert!(accepted(state("m.room.canonical_alias", "", "{}", &facts)));
    assert_eq!(list_current_aliases(None), Vec::<String>::new());
    assert_eq!(list_current_aliases(Some(Err("why".to_owned()))), Vec::<String>::new());
    assert_eq!(
        list_current_aliases(Some(Ok((
            Some("#a:x".to_owned()),
            vec!["#b:x".to_owned(), "#c:x".to_owned()]
        )))),
        vec!["#a:x", "#b:x", "#c:x"]
    );
}

const INVITE: &str = "{\"membership\":\"invite\"}";

#[test]
fn blocked_invites_are_refused() {
    let mut facts = Facts::unknown();
    match question(state("m.room.member", "@b:example.org", INVITE, &facts)) {
        Question::IsLocalTarget { user } => assert_eq!(user, "@b:example.org"),
        _ => panic!("another question"),
    }
    facts.target_is_local = Some(false);
    assert!(accepted(state("m.room.member", "@b:example.org", INVITE, &facts)));
    facts.target_is_local = Some(true);
    match question(state("m.room.member", "@b:example.org", INVITE, &facts)) {
        Question::InvitesBlocked { user } => assert_eq!(user, "@b:example.org"),
        _ => panic!("another question"),
    }
    facts.invites_blocked = Some(false);
    assert!(accepted(state("m.room.member", "@b:example.org", INVITE, &facts)));
    facts.invites_blocked = Some(true);
    assert_eq!(
        refusal(state("m.room.member", "@b:example.org", INVITE, &facts)),
        (ErrorKind::InviteBlocked, "@b:example.org has blocked invites.".to_owned())
    );
}

#[test]
fn memberships_are_for_users() {
    let facts = Facts::unknown();
    assert_eq!(
        refusal(state("m.room.member", "b", INVITE, &facts)),
        (
            ErrorKind::BadJson,
            "Membership event has invalid or non-existent state key".to_owned()
        )
    );
    assert!(refusal(state("m.room.member", "@b:example.org", "{}", &facts)).1.starts_with(
        "Membership content must have a valid JSON body with at least a valid membership state: "
    ));
    let leave = "{\"membership\":\"leave\"}";
    assert!(accepted(state("m.room.member", "@b:example.org", leave, &facts)));
}

#[test]
fn authorised_joins_are_checked() {
    let join = "{\"membership\":\"join\",\"join_authorised_via_users_server\":\"@c:example.org\"}";
    let leave = "{\"membership\":\"leave\",\"join_authorised_via_users_server\":\"@c:example.org\"}";
    let mut facts = Facts::unknown();
    assert_eq!(
        refusal(state("m.room.member", "@b:example.org", leave, &facts)),
        (
            ErrorKind::BadJson,
            "join_authorised_via_users_server is only for member joins".to_owned()
        )
    );
    match question(state("m.room.member", "@b:example.org", join, &facts)) {
        Question::IsLocalAuthoriser { user } => assert_eq!(user, "@c:example.org"),
        _ => panic!("another question"),
    }
    facts.authoriser_is_local = Some(false);
    assert_eq!(
        refusal(state("m.room.member", "@b:example.org", join, &facts)),
        (
            ErrorKind::InvalidParam,
            "Authorising user @c:example.org does not belong to this homeserver".to_owned()
        )
    );
    facts.authoriser_is_local = Some(true);
    match question(state("m.room.member", "@b:example.org", join, &facts)) {
        Question::IsJoined { user, room_id } => {
            assert_eq!(user, "@c:example.org");
            assert_eq!(room_id, ROOM);
        }
        _ => panic!("another question"),
    }
    facts.authoriser_is_joined = Some(true);
    assert!(accepted(state("m.room.member", "@b:example.org", join, &facts)));
    facts.authoriser_is_joined = Some(false);
    assert_eq!(
        refusal(state("m.room.member", "@b:example.org", join, &facts)),
        (
            ErrorKind::InvalidParam,
            "Authorising user @c:example.org is not in the room. They cannot authorise the join."
                .to_owned()
        )
    );
}

#[test]
fn invite_is_checked_before_the_authoriser() {
    let mut facts = Facts::unknown();
    facts.target_is_local = Some(true);
    facts.invites_blocked = Some(true);
    let verdict = validate_member(
        &ROOM.to_owned(),
        "@b:x",
        true,
        Ok((Membership::Invite, Some("@c:x".to_owned()))),
        &facts,
    );
    assert_eq!(refusal(verdict).0, ErrorKind::InviteBlocked);
    facts.invites_blocked = Some(false);
    let verdict = validate_member(
        &ROOM.to_owned(),
        "@b:x",
        true,
        Ok((Membership::Invite, Some("@c:x".to_owned()))),
        &facts,
    );
    assert_eq!(refusal(verdict).0, ErrorKind::BadJson);
    let verdict =
        validate_member(&ROOM.to_owned(), "@b:x", true, Ok((Membership::Other, None)), &facts);
    assert!(accepted(verdict));
}

#[test]
fn decision_does_not_depend_on_further_facts() {
    let mut facts = Facts::unknown();
    facts.room_is_public = Some(false);
    assert!(accepted(message(&config(), "m.call.invite", "{}", &facts)));
    facts.sender_is_admin = Some(false);
    facts.admin_room = Some(Some(ROOM.to_owned()));
    facts.resolved.push(Resolution::Failed("why".to_owned()));
    assert!(accepted(message(&config(), "m.call.invite", "{}", &facts)));
}
