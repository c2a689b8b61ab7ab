//! What holds of requests and their answers.

use crate::config::Config;
use crate::content::event_id_text;
use crate::delay_id::{law_delay_id_is_url_safe, url_safe_text};
use crate::error::{ErrorKind, ErrorView};
use crate::event::{DelayedEventStatus, DelayedEventView};
use crate::json::{distinct_keys, JsonValueView};
use crate::messages::{
    existing_answer, message_step, message_txn, prepared, MessageStepView, MessageView,
    PreparedView,
};
use crate::policy::{message_verdict, state_verdict, FactsView, VerdictView};
use crate::policy_laws::lemma_message_types;
use crate::query::{
    access_token, asks_for_delay, bearer_token, first_value, form_pairs_of, header_token,
    query_pairs, token_owner,
};
use crate::requests::{
    common_members, event_members, operation_named, optional_json, optional_member,
    optional_number, optional_text, shown_event, Operation,
};
use crate::room_state::{
    state_pdu, state_reply, state_step, StateEventView, StateFormat, StateReplyView,
    StateRequestView, StateStepView,
};
use crate::scheduling::{
    remembered_delay_id, replay, replayed, schedule_outcome, NewEventView,
};
use crate::sending::{delay_id_key, unsigned_members, PduView};
use crate::text::{folded, header_byte, header_text_of, lowered, split_at_space};
use crate::worker::sender_of;
use vstd::prelude::*;
use vstd::utf8::{
    decode_utf8, encode_utf8, encode_utf8_decode_utf8, encode_utf8_valid_utf8, valid_utf8,
};

verus! {

/// Requests are idempotent: when a request to send a message with a delay is
/// repeated with its transaction ID, as long as its event is there, it gets the
/// same delay ID and nothing is written.
pub proof fn law_repeated_request_is_replayed(
    config: Config,
    new: NewEventView,
    bytes: Seq<u8>,
    content: Result<Seq<char>, Seq<char>>,
    own_events: Seq<DelayedEventView>,
    now: u64,
    stored: DelayedEventView,
)
    requires
        new.txn_id is Some,
        schedule_outcome(config, new, url_safe_text(bytes), content, own_events, now) is Ok,
    ensures
        ({
            let scheduled = schedule_outcome(
                config,
                new,
                url_safe_text(bytes),
                content,
                own_events,
                now,
            )->Ok_0;
            let remembered = remembered_delay_id(Some(scheduled.txn->0.response));
            &&& scheduled.txn matches Some(txn) && Some(txn.txn_id) == new.txn_id
                && txn.sender_user == new.sender_user && txn.sender_device == new.sender_device
            &&& remembered == Some(scheduled.delay_id)
            &&& replayed(Some((remembered->0, Some(stored)))) == Some(scheduled.delay_id)
            &&& replay(scheduled.delay_id).writes.len() == 0
        }),
{
    let delay_id = url_safe_text(bytes);
    encode_utf8_valid_utf8(delay_id);
    encode_utf8_decode_utf8(delay_id);
    law_delay_id_is_url_safe(bytes);
    if encode_utf8(delay_id).len() == 0 {
        assert(decode_utf8(encode_utf8(delay_id)) =~= Seq::empty());
    }
}

/// Sending is idempotent: when a request to send a message is repeated with its
/// transaction ID, it gets the same event ID and nothing is appended, whatever
/// the event policy says by then. That holds at the beginning of the request
/// and, where an equal request was concluded in between, at its second step.
pub proof fn law_repeated_message_is_not_sent(
    config: Config,
    request: MessageView,
    event_id: Seq<char>,
    shown: Seq<char>,
    facts: FactsView,
    raw: Result<Seq<char>, Seq<char>>,
    redaction: Option<Option<Seq<char>>>,
)
    requires
        event_id.len() > 0,
        event_id_text(event_id),
    ensures
        ({
            let existing = existing_answer(
                Some(message_txn(request, event_id).response),
                shown,
            );
            &&& message_step(config, request, existing, facts) == (MessageStepView::Finished {
                result: Ok(event_id),
            })
            &&& prepared(request, existing, raw, redaction) == (PreparedView::Finished {
                result: Ok(event_id),
            })
        }),
{
    encode_utf8_valid_utf8(event_id);
    encode_utf8_decode_utf8(event_id);
    if encode_utf8(event_id).len() == 0 {
        assert(decode_utf8(encode_utf8(event_id)) =~= Seq::empty());
    }
}

/// A message whose transaction is new is accepted only where the policy allows
/// it.
pub proof fn law_message_needs_permission(
    config: Config,
    request: MessageView,
    existing: Option<Result<Seq<char>, ErrorView>>,
    facts: FactsView,
)
    ensures
        message_step(config, request, existing, facts) is Accepted <==> existing is None
            && (message_verdict(
            config,
            request.sender_user,
            request.event_type,
            request.body,
            request.room_id,
            facts,
        ) matches VerdictView::Decided(Ok(_))),
{
}

/// The position of a key among those that a client is shown of a delayed event.
spec fn rank(key: Seq<char>) -> int {
    if key == "delay_id"@ {
        0
    } else if key == "room_id"@ {
        1
    } else if key == "type"@ {
        2
    } else if key == "delay"@ {
        3
    } else if key == "send_ts"@ {
        4
    } else if key == "running_since"@ {
        5
    } else if key == "content"@ {
        6
    } else if key == "status"@ {
        7
    } else if key == "state_key"@ {
        8
    } else if key == "error"@ {
        9
    } else if key == "event_id"@ {
        10
    } else {
        11
    }
}

/// The keys are in the order of their ranks, and all rank below the bound.
spec fn ranked(members: Seq<(Seq<char>, JsonValueView)>, bound: int) -> bool {
    &&& forall|i: int| 0 <= i < members.len() ==> rank((#[trigger] members[i]).0) < bound
    &&& forall|i: int, j: int|
        0 <= i < j < members.len() ==> rank((#[trigger] members[i]).0) < rank(
            (#[trigger] members[j]).0,
        )
}

/// A member with a higher rank keeps the order.
proof fn lemma_ranked_append(
    members: Seq<(Seq<char>, JsonValueView)>,
    name: Seq<char>,
    value: Option<JsonValueView>,
)
    requires
        ranked(members, rank(name)),
    ensures
        ranked(members + optional_member(name, value), rank(name) + 1),
{
}

/// In what a client is shown of a delayed event, no key occurs twice.
pub proof fn law_shown_keys_are_distinct(event: DelayedEventView)
    ensures
        distinct_keys(event_members(event)),
{
    reveal_strlit("delay_id");
    reveal_strlit("room_id");
    reveal_strlit("type");
    reveal_strlit("delay");
    reveal_strlit("send_ts");
    reveal_strlit("running_since");
    reveal_strlit("content");
    reveal_strlit("status");
    reveal_strlit("state_key");
    reveal_strlit("error");
    reveal_strlit("event_id");
    reveal_strlit("finalised_ts");
    assert("delay_id"@.len() == 8 && "room_id"@.len() == 7 && "type"@.len() == 4);
    assert("delay"@.len() == 5 && "send_ts"@.len() == 7 && "running_since"@.len() == 13);
    assert("content"@.len() == 7 && "status"@.len() == 6 && "state_key"@.len() == 9);
    assert("error"@.len() == 5 && "event_id"@.len() == 8 && "finalised_ts"@.len() == 12);
    assert("delay_id"@[0] == 'd' && "event_id"@[0] == 'e');
    assert("room_id"@[0] == 'r' && "send_ts"@[0] == 's' && "content"@[0] == 'c');
    assert("delay"@[0] == 'd' && "error"@[0] == 'e');
    let common = common_members(event);
    assert(ranked(common, 8)) by {
        assert(rank(common[0].0) == 0);
        assert(rank(common[1].0) == 1);
        assert(rank(common[2].0) == 2);
        assert(rank(common[3].0) == 3);
        assert(rank(common[4].0) == 4);
        assert(rank(common[5].0) == 5);
        assert(rank(common[6].0) == 6);
        assert(rank(common[7].0) == 7);
        assert forall|i: int| 0 <= i < common.len() implies rank((#[trigger] common[i]).0) == i by {
            assert(i == 0 || i == 1 || i == 2 || i == 3 || i == 4 || i == 5 || i == 6 || i == 7);
        }
    }
    assert(rank("state_key"@) == 8);
    assert(rank("error"@) == 9);
    assert(rank("event_id"@) == 10);
    assert(rank("finalised_ts"@) == 11);
    let with_key = common + optional_member("state_key"@, optional_text(event.state_key));
    lemma_ranked_append(common, "state_key"@, optional_text(event.state_key));
    let with_error = with_key + optional_member("error"@, optional_json(event.error));
    lemma_ranked_append(with_key, "error"@, optional_json(event.error));
    let with_id = with_error + optional_member("event_id"@, optional_text(event.event_id));
    lemma_ranked_append(with_error, "event_id"@, optional_text(event.event_id));
    lemma_ranked_append(with_id, "finalised_ts"@, optional_number(event.finalised_ts));
}

/// A sent event carries its delay ID, and its transaction ID where it has one,
/// under different keys.
pub proof fn law_unsigned_keys_are_distinct(txn_id: Option<Seq<char>>, delay_id: Seq<char>)
    ensures
        distinct_keys(unsigned_members(txn_id, delay_id)),
        unsigned_members(txn_id, delay_id).contains(
            (delay_id_key(), JsonValueView::Text(delay_id)),
        ),
        txn_id matches Some(txn) ==> unsigned_members(txn_id, delay_id).contains(
            ("transaction_id"@, JsonValueView::Text(txn)),
        ),
{
    reveal_strlit("transaction_id");
    reveal_strlit("org.matrix.msc4140.delay_id");
    assert("transaction_id"@.len() == 14 && "org.matrix.msc4140.delay_id"@.len() == 27);
    let members = unsigned_members(txn_id, delay_id);
    assert(members[members.len() - 1] == (delay_id_key(), JsonValueView::Text(delay_id)));
    if txn_id is Some {
        assert(members[0] == ("transaction_id"@, JsonValueView::Text(txn_id->0)));
    }
}

/// The access token of the header comes first: where it holds one, the query
/// string does not matter.
pub proof fn law_header_token_comes_first(
    authorization: Option<Seq<u8>>,
    pairs: Option<Seq<(Seq<char>, Seq<char>)>>,
    others: Option<Seq<(Seq<char>, Seq<char>)>>,
)
    requires
        header_token(authorization) is Some,
    ensures
        access_token(authorization, pairs) == header_token(authorization),
        access_token(authorization, pairs) == access_token(authorization, others),
{
}

/// The characters differ in nothing but that one is the capital of the other,
/// and only ASCII letters have capitals here.
pub open spec fn same_letter(a: char, b: char) -> bool {
    ||| a == b
    ||| (65 <= a as u32 <= 90 && b as u32 == a as u32 + 32)
    ||| (65 <= b as u32 <= 90 && a as u32 == b as u32 + 32)
}

/// Two texts match if they have the same letters, character by character.
pub proof fn law_case_is_ignored(a: Seq<char>, b: Seq<char>)
    ensures
        folded(a) == folded(b) <==> a.len() == b.len() && forall|i: int|
            0 <= i < a.len() ==> #[trigger] same_letter(a[i], b[i]),
{
    if folded(a) == folded(b) {
        assert(folded(a).len() == a.len() && folded(b).len() == b.len());
        assert forall|i: int| 0 <= i < a.len() implies #[trigger] same_letter(a[i], b[i]) by {
            assert(folded(a)[i] == lowered(a[i]));
            assert(folded(b)[i] == lowered(b[i]));
        }
    }
    if a.len() == b.len() && forall|i: int|
        0 <= i < a.len() ==> #[trigger] same_letter(a[i], b[i]) {
        assert forall|i: int| 0 <= i < a.len() implies folded(a)[i] == folded(b)[i] by {
            assert(same_letter(a[i], b[i]));
        }
        assert(folded(a) =~= folded(b));
    }
}

/// A text is split at its first space.
pub proof fn law_split_at_the_first_space(before: Seq<char>, after: Seq<char>)
    requires
        !before.contains(' '),
    ensures
        split_at_space(before) is None,
        split_at_space(before + seq![' '] + after) == Some((before, after)),
    decreases before.len(),
{
    let text = before + seq![' '] + after;
    if before.len() == 0 {
        assert(text[0] == ' ');
        assert(text.drop_first() =~= after);
        assert(before =~= Seq::empty());
    } else {
        let rest = before.drop_first();
        assert(before[0] != ' ') by {
            assert(before.contains(before[0]));
        }
        assert(!rest.contains(' ')) by {
            if rest.contains(' ') {
                let k = choose|k: int| 0 <= k < rest.len() && rest[k] == ' ';
                assert(before[k + 1] == ' ');
            }
        }
        law_split_at_the_first_space(rest, after);
        assert(text.drop_first() =~= rest + seq![' '] + after);
        assert(text[0] == before[0]);
        assert(seq![before[0]] + rest =~= before);
    }
}

/// An authorization holds a token if it is the word "Bearer", in capitals or
/// not, a space and the token.
pub proof fn law_bearer_tokens(scheme: Seq<char>, token: Seq<char>)
    requires
        !scheme.contains(' '),
    ensures
        bearer_token(scheme) is None,
        folded(scheme) == folded("Bearer"@) ==> bearer_token(scheme + seq![' '] + token) == Some(
            token,
        ),
        folded(scheme) != folded("Bearer"@) ==> bearer_token(
            scheme + seq![' '] + token,
        ) is None,
{
    law_split_at_the_first_space(scheme, token);
}

/// The header is read byte by byte as ASCII; with any other byte in it, it holds
/// no token.
pub proof fn law_header_is_read_as_ascii(bytes: Seq<u8>, text: Seq<char>)
    requires
        text.len() == bytes.len(),
        forall|i: int| 0 <= i < bytes.len() ==> #[trigger] text[i] == bytes[i] as char,
    ensures
        header_token(None) is None,
        (forall|i: int|
            0 <= i < bytes.len() ==> #[trigger] bytes[i] == 9 || 32 <= bytes[i] <= 126)
            ==> header_token(Some(bytes)) == bearer_token(text),
        (exists|i: int|
            0 <= i < bytes.len() && #[trigger] bytes[i] != 9 && !(32 <= bytes[i] <= 126))
            ==> header_token(Some(bytes)) is None,
{
    if forall|i: int| 0 <= i < bytes.len() ==> #[trigger] bytes[i] == 9 || 32 <= bytes[i] <= 126 {
        assert forall|i: int| 0 <= i < bytes.len() implies #[trigger] header_byte(bytes[i]) by {}
        assert(header_text_of(bytes)->0 =~= text);
    }
    if exists|i: int|
        0 <= i < bytes.len() && #[trigger] bytes[i] != 9 && !(32 <= bytes[i] <= 126) {
        let i = choose|i: int|
            0 <= i < bytes.len() && #[trigger] bytes[i] != 9 && !(32 <= bytes[i] <= 126);
        assert(!header_byte(bytes[i]));
    }
}

/// The value of a parameter is that of the first with its name.
pub proof fn law_first_parameter_counts(
    pairs: Seq<(Seq<char>, Seq<char>)>,
    name: Seq<char>,
)
    ensures
        first_value(pairs, name) is None <==> forall|i: int|
            0 <= i < pairs.len() ==> (#[trigger] pairs[i]).0 != name,
        first_value(pairs, name) matches Some(value) ==> exists|i: int|
            0 <= i < pairs.len() && #[trigger] pairs[i] == (name, value) && forall|j: int|
                0 <= j < i ==> (#[trigger] pairs[j]).0 != name,
    decreases pairs.len(),
{
    if pairs.len() > 0 {
        let rest = pairs.drop_first();
        law_first_parameter_counts(rest, name);
        if pairs[0].0 == name {
            assert(pairs[0] == (name, pairs[0].1));
        } else {
            if first_value(rest, name) is None {
                assert forall|i: int| 0 <= i < pairs.len() implies (#[trigger] pairs[i]).0
                    != name by {
                    if i > 0 {
                        assert(rest[i - 1] == pairs[i]);
                    }
                }
            } else {
                let value = first_value(rest, name)->0;
                let i = choose|i: int|
                    0 <= i < rest.len() && #[trigger] rest[i] == (name, value) && forall|j: int|
                        0 <= j < i ==> (#[trigger] rest[j]).0 != name;
                assert(pairs[i + 1] == (name, value));
                assert forall|j: int| 0 <= j < i + 1 implies (#[trigger] pairs[j]).0 != name by {
                    if j > 0 {
                        assert(rest[j - 1] == pairs[j]);
                    }
                }
            }
        }
    }
}

/// Where the header holds no token, the first `access_token` parameter is the
/// token.
pub proof fn law_query_token_comes_second(
    authorization: Option<Seq<u8>>,
    pairs: Seq<(Seq<char>, Seq<char>)>,
)
    requires
        header_token(authorization) is None,
    ensures
        access_token(authorization, None) is None,
        access_token(authorization, Some(pairs)) == first_value(pairs, "access_token"@),
{
}

/// A request asks for a delay exactly if one of its parameters has the name of
/// the delay; the others, and the values, do not matter.
pub proof fn law_delay_is_asked_for_by_name(
    pairs: Seq<(Seq<char>, Seq<char>)>,
    name: Seq<char>,
    value: Seq<char>,
)
    ensures
        !asks_for_delay(Seq::empty()),
        asks_for_delay(pairs.push((name, value))) <==> asks_for_delay(pairs) || folded(name)
            == folded("org.matrix.msc4140.delay"@),
{
    let longer = pairs.push((name, value));
    assert(longer[pairs.len() as int].0 == name);
    if asks_for_delay(pairs) {
        let i = choose|i: int|
            0 <= i < pairs.len() && folded((#[trigger] pairs[i]).0) == folded(
                "org.matrix.msc4140.delay"@,
            );
        assert(longer[i] == pairs[i]);
    }
    if asks_for_delay(longer) {
        let i = choose|i: int|
            0 <= i < longer.len() && folded((#[trigger] longer[i]).0) == folded(
                "org.matrix.msc4140.delay"@,
            );
        if i < pairs.len() {
            assert(longer[i] == pairs[i]);
        }
    }
}

/// A token stands for the user that was found under it until it has expired.
pub proof fn law_tokens_expire(
    user_id: Seq<char>,
    expires_at: u128,
    now: u128,
)
    ensures
        token_owner(Some((user_id, None)), now) == Ok::<Seq<char>, ErrorView>(user_id),
        expires_at >= now ==> token_owner(Some((user_id, Some(expires_at))), now) == Ok::<
            Seq<char>,
            ErrorView,
        >(user_id),
        expires_at < now ==> token_owner(Some((user_id, Some(expires_at))), now) == Err::<
            Seq<char>,
            ErrorView,
        >(ErrorView { kind: ErrorKind::Forbidden, message: "Access token has expired"@ }),
        token_owner(None, now) == Err::<Seq<char>, ErrorView>(
            ErrorView { kind: ErrorKind::Forbidden, message: "Invalid access token"@ },
        ),
{
}

/// The operations have their names, and nothing else names one.
pub proof fn law_operations_have_names(action: Seq<char>)
    ensures
        operation_named("cancel"@) == Some(Operation::Cancel),
        operation_named("send"@) == Some(Operation::Send),
        operation_named("restart"@) == Some(Operation::Restart),
        operation_named(action) is Some ==> action == "cancel"@ || action == "send"@ || action
            == "restart"@,
{
    reveal_strlit("cancel");
    reveal_strlit("send");
    reveal_strlit("restart");
    assert("cancel"@.len() == 6 && "send"@.len() == 4 && "restart"@.len() == 7);
}

/// What a client is shown of a delayed event holds under each name the field of
/// that name, and nothing else: what the event does not have is not shown.
pub proof fn law_shown_event_is_the_event(event: DelayedEventView)
    ensures
        ({
            let shown = event_members(event);
            let optional = |present: bool|
                if present {
                    1int
                } else {
                    0
                };
            &&& shown.contains(("delay_id"@, JsonValueView::Text(event.delay_id)))
            &&& shown.contains(("room_id"@, JsonValueView::Text(event.room_id)))
            &&& shown.contains(("type"@, JsonValueView::Text(event.event_type)))
            &&& shown.contains(("delay"@, JsonValueView::Number(event.delay_ms)))
            &&& shown.contains(("send_ts"@, JsonValueView::Number(event.timeout)))
            &&& shown.contains(("running_since"@, JsonValueView::Number(event.running_since)))
            &&& shown.contains(("content"@, JsonValueView::Json(event.content)))
            &&& event.status == DelayedEventStatus::Scheduled ==> shown.contains(
                ("status"@, JsonValueView::Text("scheduled"@)),
            )
            &&& event.status == DelayedEventStatus::Finalized ==> shown.contains(
                ("status"@, JsonValueView::Text("finalized"@)),
            )
            &&& event.state_key matches Some(state_key) ==> shown.contains(
                ("state_key"@, JsonValueView::Text(state_key)),
            )
            &&& event.error matches Some(error) ==> shown.contains(
                ("error"@, JsonValueView::Json(error)),
            )
            &&& event.event_id matches Some(event_id) ==> shown.contains(
                ("event_id"@, JsonValueView::Text(event_id)),
            )
            &&& event.finalised_ts matches Some(ts) ==> shown.contains(
                ("finalised_ts"@, JsonValueView::Number(ts)),
            )
            &&& shown.len() == 8 + optional(event.state_key is Some) + optional(
                event.error is Some,
            ) + optional(event.event_id is Some) + optional(event.finalised_ts is Some)
        }),
{
    let shown = event_members(event);
    let common = common_members(event);
    let a = common + optional_member("state_key"@, optional_text(event.state_key));
    let b = a + optional_member("error"@, optional_json(event.error));
    let c = b + optional_member("event_id"@, optional_text(event.event_id));
    assert(shown == c + optional_member("finalised_ts"@, optional_number(event.finalised_ts)));
    assert(shown[0] == common[0] && shown[1] == common[1] && shown[2] == common[2]);
    assert(shown[3] == common[3] && shown[4] == common[4] && shown[5] == common[5]);
    assert(shown[6] == common[6] && shown[7] == common[7]);
    if event.state_key is Some {
        assert(shown[8] == ("state_key"@, JsonValueView::Text(event.state_key->0)));
    }
    if event.error is Some {
        assert(shown[a.len() as int] == ("error"@, JsonValueView::Json(event.error->0)));
    }
    if event.event_id is Some {
        assert(shown[b.len() as int] == ("event_id"@, JsonValueView::Text(event.event_id->0)));
    }
    if event.finalised_ts is Some {
        assert(shown[c.len() as int] == (
            "finalised_ts"@,
            JsonValueView::Number(event.finalised_ts->0),
        ));
    }
}

/// A user is shown exactly their own events; to others they are not found.
pub proof fn law_who_is_shown_an_event(stored: Option<DelayedEventView>, user: Seq<char>)
    ensures
        shown_event(stored, user) is Ok <==> (stored matches Some(event) && event.sender_user
            == user),
        shown_event(stored, user) matches Ok(shown) ==> shown == event_members(stored->0),
        shown_event(stored, user) is Err ==> shown_event(stored, user)->Err_0 == (ErrorView {
            kind: ErrorKind::NotFound,
            message: "Delayed event not found"@,
        }),
{
}

/// What is remembered of a transaction is the answer, if it is an event ID.
/// Nothing remembered is no answer; an empty response belongs to another kind of
/// request; anything else is an error.
pub proof fn law_remembered_answers(bytes: Seq<u8>, shown: Seq<char>)
    ensures
        existing_answer(None, shown) is None,
        bytes.len() == 0 ==> existing_answer(Some(bytes), shown) == Some(
            Err::<Seq<char>, ErrorView>(
                ErrorView {
                    kind: ErrorKind::InvalidParam,
                    message: "Tried to use txn_id already used for an incompatible endpoint."@,
                },
            ),
        ),
        bytes.len() > 0 && valid_utf8(bytes) && event_id_text(decode_utf8(bytes))
            ==> existing_answer(Some(bytes), shown) == Some(
            Ok::<Seq<char>, ErrorView>(decode_utf8(bytes)),
        ),
        bytes.len() > 0 && !(valid_utf8(bytes) && event_id_text(decode_utf8(bytes)))
            ==> existing_answer(Some(bytes), shown) == Some(
            Err::<Seq<char>, ErrorView>(
                ErrorView {
                    kind: ErrorKind::Database,
                    message: "Invalid event_id in txn_id data: "@ + shown + "."@,
                },
            ),
        ),
{
}

/// A message is refused, or asked about, as the policy says of an event of its
/// type and content, in its room and of its sender.
pub proof fn law_messages_are_judged(config: Config, request: MessageView, facts: FactsView)
    ensures
        ({
            let verdict = message_verdict(
                config,
                request.sender_user,
                request.event_type,
                request.body,
                request.room_id,
                facts,
            );
            match message_step(config, request, None, facts) {
                MessageStepView::Finished { .. } => false,
                MessageStepView::Ask { request: same, question } => same == request && verdict
                    == VerdictView::Ask(question),
                MessageStepView::Refused { error } => verdict == VerdictView::Decided(Err(error)),
                MessageStepView::Accepted { message } => message == request && (
                verdict matches VerdictView::Decided(Ok(_))),
            }
        }),
{
}

/// How an accepted message goes on: what is remembered is the answer; a content
/// that is no JSON is refused; in every other case the message is appended to
/// its room, in the name of its sender, with its type, the content that was read
/// and its transaction ID. Only a redaction names an event that it redacts, and
/// only an application service chooses the time.
pub proof fn law_accepted_messages(
    request: MessageView,
    existing: Option<Result<Seq<char>, ErrorView>>,
    raw: Result<Seq<char>, Seq<char>>,
    redaction: Option<Option<Seq<char>>>,
)
    ensures
        ({
            let step = prepared(request, existing, raw, redaction);
            &&& existing matches Some(result) ==> step == (PreparedView::Finished { result })
            &&& existing is None && raw is Err ==> step == (PreparedView::Finished {
                result: Err(
                    ErrorView {
                        kind: ErrorKind::BadJson,
                        message: "Invalid JSON body: "@ + raw->Err_0,
                    },
                ),
            })
            &&& existing is None && raw is Ok ==> (step matches PreparedView::Append {
                pending,
                pdu,
            } && pending == request && pdu.room_id == request.room_id && pdu.sender_user
                == request.sender_user && pdu.event_type == request.event_type && raw == Ok::<
                Seq<char>,
                Seq<char>,
            >(pdu.content) && pdu.state_key is None && pdu.unsigned == Some(
                seq![("transaction_id"@, JsonValueView::Text(request.txn_id))],
            ) && (request.from_appservice ==> pdu.timestamp == request.timestamp) && (
            !request.from_appservice ==> pdu.timestamp is None) && (request.event_type
                != "m.room.redaction"@ ==> pdu.redacts is None) && (request.event_type
                == "m.room.redaction"@ ==> (match redaction {
                Some(redacts) => pdu.redacts == redacts,
                None => pdu.redacts is None,
            })))
        }),
{
    lemma_message_types();
}

/// What is remembered of a message is the event ID, for its sender, device and
/// transaction ID.
pub proof fn law_what_is_remembered(request: MessageView, event_id: Seq<char>)
    ensures
        ({
            let txn = message_txn(request, event_id);
            &&& txn.sender_user == request.sender_user
            &&& txn.sender_device == request.sender_device
            &&& txn.txn_id == request.txn_id
            &&& txn.response == encode_utf8(event_id)
        }),
{
}

/// A state event is refused, asked about or accepted as the policy says of an
/// event of its type, state key and content in its room.
pub proof fn law_state_events_are_judged(
    config: Config,
    request: StateRequestView,
    facts: FactsView,
)
    ensures
        ({
            let verdict = state_verdict(
                config,
                request.room_id,
                request.event_type,
                request.state_key,
                request.body,
                facts,
            );
            match state_step(config, request, facts) {
                StateStepView::Ask { request: same, question } => same == request && verdict
                    == VerdictView::Ask(question),
                StateStepView::Refused { error } => verdict == VerdictView::Decided(Err(error)),
                StateStepView::Accepted { state } => state == request && (
                verdict matches VerdictView::Decided(Ok(_))),
            }
        }),
{
}

/// An accepted state event is appended to its room, in the name of its sender,
/// with its type, state key and time and the content that was read.
pub proof fn law_accepted_state_events(
    request: StateRequestView,
    raw: Result<Seq<char>, Seq<char>>,
)
    ensures
        raw matches Err(complaint) ==> state_pdu(request, raw) == Err::<PduView, Seq<char>>(
            complaint,
        ),
        raw matches Ok(content) ==> (state_pdu(request, raw) matches Ok(pdu) && pdu.room_id
            == request.room_id && pdu.sender_user == request.sender_user && pdu.event_type
            == request.event_type && pdu.state_key == Some(request.state_key) && pdu.timestamp
            == request.timestamp && pdu.content == content && pdu.unsigned is None
            && pdu.redacts is None),
{
}

/// Who can see the state of a room gets the event that was found: the reply in
/// the form of the whole event holds under each name the field of that name, and
/// nothing else; the other form is the content.
pub proof fn law_state_event_is_shown(event: StateEventView)
    ensures
        state_reply(true, Ok(event), StateFormat::Content) == Ok::<StateReplyView, ErrorView>(
            StateReplyView::Content(event.content),
        ),
        state_reply(true, Ok(event), StateFormat::Event) matches Ok(StateReplyView::Event(shown))
            && shown.len() == 8 && shown.contains(("content"@, JsonValueView::Json(event.content)))
            && shown.contains(("event_id"@, JsonValueView::Text(event.event_id)))
            && shown.contains(
            ("origin_server_ts"@, JsonValueView::Number(event.origin_server_ts)),
        ) && shown.contains(("room_id"@, JsonValueView::Text(event.room_id))) && shown.contains(
            ("sender"@, JsonValueView::Text(event.sender)),
        ) && shown.contains(("type"@, JsonValueView::Text(event.event_type))) && (match event.state_key {
            Some(state_key) => shown.contains(("state_key"@, JsonValueView::Text(state_key))),
            None => shown.contains(("state_key"@, JsonValueView::Null)),
        }) && (match event.unsigned {
            Some(unsigned) => shown.contains(("unsigned"@, JsonValueView::Json(unsigned))),
            None => shown.contains(("unsigned"@, JsonValueView::Null)),
        }),
{
    let shown = state_reply(true, Ok(event), StateFormat::Event)->Ok_0->Event_0;
    assert(shown.contains(shown[0]) && shown.contains(shown[1]) && shown.contains(shown[2]));
    assert(shown.contains(shown[3]) && shown.contains(shown[4]) && shown.contains(shown[5]));
    assert(shown.contains(shown[6]) && shown.contains(shown[7]));
}

/// Who cannot see the state of a room, and who asks for what is not there, is
/// told that it is not found.
pub proof fn law_state_event_may_be_hidden(
    found: Result<StateEventView, Seq<char>>,
    complaint: Seq<char>,
    format: StateFormat,
)
    ensures
        state_reply(false, found, format) == Err::<StateReplyView, ErrorView>(
            ErrorView {
                kind: ErrorKind::NotFound,
                message: "You don't have permission to view the room state."@,
            },
        ),
        state_reply(true, Err(complaint), format) == Err::<StateReplyView, ErrorView>(
            ErrorView {
                kind: ErrorKind::NotFound,
                message: "Failed to get state event: "@ + complaint + "."@,
            },
        ),
{
}

/// The worker sends a due event in the name of its sender, and passes over one
/// that is gone.
pub proof fn law_worker_acts_for_the_sender(event: DelayedEventView)
    ensures
        sender_of(Some(event)) == Some(event.sender_user),
        sender_of(None) is None,
{
}

/// A request whose transaction was answered before gets that answer, be it an
/// event ID or an error, whatever the policy says.
pub proof fn law_remembered_answer_is_given_again(
    config: Config,
    request: MessageView,
    result: Result<Seq<char>, ErrorView>,
    facts: FactsView,
)
    ensures
        message_step(config, request, Some(result), facts) == (MessageStepView::Finished {
            result,
        }),
{
}

/// The parameters of a request are those of its query string, where it has one.
pub proof fn law_parameters_come_from_the_query(query: Seq<char>)
    ensures
        query_pairs(None) is None,
        query_pairs(Some(query)) == Some(form_pairs_of(query)),
{
}

} // verus!
