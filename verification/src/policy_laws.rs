//! What holds of the event policy's questions and decisions.

use crate::config::Config;
use crate::content::{
    acl_admits, acl_of, alias_fields_of, member_of, message_kind_of, public_join_of, reaction_of,
    state_kind_of, user_id_text, world_readable_of, Membership, MessageKind, StateKind,
};
use crate::error::{ErrorKind, ErrorView};
use crate::policy::{
    aliases_verdict, all_aliases, canonical_alias_verdict, current_aliases, known_aliases,
    message_verdict, new_aliases, nothing_known, state_verdict, FactsView, QuestionView,
    ResolutionView, VerdictView,
};
use vstd::prelude::*;

verus! {

/// What was known stays known.
pub open spec fn keeps<T>(before: Option<T>, after: Option<T>) -> bool {
    before is Some ==> after == before
}

/// `after` says what `before` says, and possibly more.
pub open spec fn extends(before: FactsView, after: FactsView) -> bool {
    &&& keeps(before.sender_is_admin, after.sender_is_admin)
    &&& keeps(before.has_reacted, after.has_reacted)
    &&& keeps(before.room_is_public, after.room_is_public)
    &&& keeps(before.admin_room, after.admin_room)
    &&& keeps(before.alias_content, after.alias_content)
    &&& before.resolved.is_prefix_of(after.resolved)
    &&& keeps(before.target_is_local, after.target_is_local)
    &&& keeps(before.invites_blocked, after.invites_blocked)
    &&& keeps(before.authoriser_is_local, after.authoriser_is_local)
    &&& keeps(before.authoriser_is_joined, after.authoriser_is_joined)
}

/// The facts do not hold the answer. Aliases are asked for one by one, and their
/// answers are kept in order: see [`law_aliases_are_asked_in_order`].
pub open spec fn unanswered(question: QuestionView, facts: FactsView) -> bool {
    match question {
        QuestionView::IsAdmin { .. } => facts.sender_is_admin is None,
        QuestionView::HasReacted { .. } => facts.has_reacted is None,
        QuestionView::IsPublicRoom { .. } => facts.room_is_public is None,
        QuestionView::AdminRoom => facts.admin_room is None,
        QuestionView::AliasContent { .. } => facts.alias_content is None,
        QuestionView::ResolveAlias { .. } => true,
        QuestionView::IsLocalTarget { .. } => facts.target_is_local is None,
        QuestionView::InvitesBlocked { .. } => facts.invites_blocked is None,
        QuestionView::IsLocalAuthoriser { .. } => facts.authoriser_is_local is None,
        QuestionView::IsJoined { .. } => facts.authoriser_is_joined is None,
    }
}

/// More resolutions do not change what is decided of the aliases.
proof fn lemma_aliases_decided(
    aliases: Seq<Seq<char>>,
    before: Seq<ResolutionView>,
    after: Seq<ResolutionView>,
    room_id: Seq<char>,
)
    requires
        before.is_prefix_of(after),
        aliases_verdict(aliases, before, room_id) is Decided,
    ensures
        aliases_verdict(aliases, after, room_id) == aliases_verdict(aliases, before, room_id),
    decreases aliases.len(),
{
    if aliases.len() > 0 {
        assert(before.len() > 0);
        assert(before[0] == after[0]);
        if before[0] matches ResolutionView::Room(room) && room == room_id {
            assert(before.drop_first() =~= after.drop_first().subrange(
                0,
                before.drop_first().len() as int,
            ));
            lemma_aliases_decided(
                aliases.drop_first(),
                before.drop_first(),
                after.drop_first(),
                room_id,
            );
        }
    }
}

/// What the policy decides of a message-like event does not depend on facts that
/// it has not asked for.
pub proof fn law_message_decision_is_final(
    config: Config,
    sender_user: Seq<char>,
    event_type: Seq<char>,
    content: Seq<char>,
    room_id: Seq<char>,
    before: FactsView,
    after: FactsView,
)
    requires
        extends(before, after),
        message_verdict(config, sender_user, event_type, content, room_id, before) is Decided,
    ensures
        message_verdict(config, sender_user, event_type, content, room_id, after)
            == message_verdict(config, sender_user, event_type, content, room_id, before),
{
}

/// What the policy decides of a state event does not depend on facts that it has
/// not asked for.
pub proof fn law_state_decision_is_final(
    config: Config,
    room_id: Seq<char>,
    event_type: Seq<char>,
    state_key: Seq<char>,
    json: Seq<char>,
    before: FactsView,
    after: FactsView,
)
    requires
        extends(before, after),
        state_verdict(config, room_id, event_type, state_key, json, before) is Decided,
    ensures
        state_verdict(config, room_id, event_type, state_key, json, after) == state_verdict(
            config,
            room_id,
            event_type,
            state_key,
            json,
            before,
        ),
{
    let fields = alias_fields_of(json);
    if fields is Ok && before.alias_content is Some {
        let aliases = new_aliases(all_aliases(fields->Ok_0), known_aliases(before)->0);
        if aliases_verdict(aliases, before.resolved, room_id) is Decided {
            lemma_aliases_decided(aliases, before.resolved, after.resolved, room_id);
        }
    }
}

/// The policy asks about a message-like event only what is not known yet, and
/// one question at most: whatever the answer is, it then decides.
pub proof fn law_message_asks_once(
    config: Config,
    sender_user: Seq<char>,
    event_type: Seq<char>,
    content: Seq<char>,
    room_id: Seq<char>,
    before: FactsView,
    after: FactsView,
)
    requires
        message_verdict(config, sender_user, event_type, content, room_id, before) is Ask,
    ensures
        ({
            let question = message_verdict(
                config,
                sender_user,
                event_type,
                content,
                room_id,
                before,
            )->Ask_0;
            &&& unanswered(question, before)
            &&& !unanswered(question, after) ==> message_verdict(
                config,
                sender_user,
                event_type,
                content,
                room_id,
                after,
            ) is Decided
        }),
{
}

/// The policy asks about a state event only what is not known yet.
pub proof fn law_state_asks_what_is_unknown(
    config: Config,
    room_id: Seq<char>,
    event_type: Seq<char>,
    state_key: Seq<char>,
    json: Seq<char>,
    facts: FactsView,
)
    ensures
        state_verdict(config, room_id, event_type, state_key, json, facts) matches VerdictView::Ask(
            question,
        ) ==> unanswered(question, facts),
{
    let fields = alias_fields_of(json);
    if fields is Ok && facts.alias_content is Some {
        let aliases = new_aliases(all_aliases(fields->Ok_0), known_aliases(facts)->0);
        law_aliases_are_asked_in_order(aliases, facts.resolved, room_id);
    }
}

/// Aliases are asked for in order, one by one: the one that is asked for is the
/// first whose answer is not known. So there is no question left once there are
/// as many answers as aliases.
pub proof fn law_aliases_are_asked_in_order(
    aliases: Seq<Seq<char>>,
    resolved: Seq<ResolutionView>,
    room_id: Seq<char>,
)
    ensures
        aliases_verdict(aliases, resolved, room_id) matches VerdictView::Ask(question) ==> {
            &&& resolved.len() < aliases.len()
            &&& question == (QuestionView::ResolveAlias { alias: aliases[resolved.len() as int] })
        },
    decreases aliases.len(),
{
    if aliases.len() > 0 && resolved.len() > 0 {
        law_aliases_are_asked_in_order(aliases.drop_first(), resolved.drop_first(), room_id);
    }
}

/// A canonical alias is accepted exactly if each alias that is new in it leads
/// to the room. Here everything that the policy asks for is known.
pub proof fn law_new_aliases_lead_to_the_room(
    room_id: Seq<char>,
    fields: (Option<Seq<char>>, Seq<Seq<char>>),
    current: Seq<Seq<char>>,
    resolved: Seq<ResolutionView>,
)
    requires
        resolved.len() == new_aliases(all_aliases(fields), current).len(),
    ensures
        canonical_alias_verdict(room_id, Ok(fields), Some(current), resolved) is Decided,
        canonical_alias_verdict(
            room_id,
            Ok(fields),
            Some(current),
            resolved,
        )->Decided_0 is Ok <==> forall|i: int|
            0 <= i < resolved.len() ==> #[trigger] resolved[i] == ResolutionView::Room(room_id),
{
    lemma_aliases_lead(new_aliases(all_aliases(fields), current), resolved, room_id);
}

/// The aliases are accepted exactly if each leads to the room.
proof fn lemma_aliases_lead(
    aliases: Seq<Seq<char>>,
    resolved: Seq<ResolutionView>,
    room_id: Seq<char>,
)
    requires
        resolved.len() == aliases.len(),
    ensures
        aliases_verdict(aliases, resolved, room_id) is Decided,
        aliases_verdict(aliases, resolved, room_id)->Decided_0 is Ok <==> forall|i: int|
            0 <= i < resolved.len() ==> #[trigger] resolved[i] == ResolutionView::Room(room_id),
    decreases aliases.len(),
{
    if aliases.len() > 0 {
        let rest = resolved.drop_first();
        lemma_aliases_lead(aliases.drop_first(), rest, room_id);
        if resolved[0] == ResolutionView::Room(room_id) {
            if forall|i: int|
                0 <= i < rest.len() ==> #[trigger] rest[i] == ResolutionView::Room(room_id) {
                assert forall|i: int| 0 <= i < resolved.len() implies #[trigger] resolved[i]
                    == ResolutionView::Room(room_id) by {
                    if i > 0 {
                        assert(rest[i - 1] == resolved[i]);
                    }
                }
            } else {
                let i = choose|i: int|
                    0 <= i < rest.len() && #[trigger] rest[i] != ResolutionView::Room(room_id);
                assert(resolved[i + 1] == rest[i]);
            }
        }
    }
}

/// The state event types that the policy tells apart are different texts.
pub proof fn lemma_state_types()
    ensures
        state_kind_of("m.room.create"@) == StateKind::Create,
        state_kind_of("m.room.server_acl"@) == StateKind::ServerAcl,
        state_kind_of("m.room.encryption"@) == StateKind::Encryption,
        state_kind_of("m.room.join_rules"@) == StateKind::JoinRules,
        state_kind_of("m.room.history_visibility"@) == StateKind::HistoryVisibility,
        state_kind_of("m.room.canonical_alias"@) == StateKind::CanonicalAlias,
        state_kind_of("m.room.member"@) == StateKind::Member,
{
    reveal_strlit("m.room.create");
    reveal_strlit("m.room.server_acl");
    reveal_strlit("m.room.encryption");
    reveal_strlit("m.room.join_rules");
    reveal_strlit("m.room.history_visibility");
    reveal_strlit("m.room.canonical_alias");
    reveal_strlit("m.room.member");
    assert("m.room.create"@.len() == 13 && "m.room.member"@.len() == 13);
    assert("m.room.server_acl"@.len() == 17 && "m.room.encryption"@.len() == 17);
    assert("m.room.join_rules"@.len() == 17 && "m.room.history_visibility"@.len() == 25);
    assert("m.room.canonical_alias"@.len() == 22);
    assert("m.room.create"@[7] == 'c' && "m.room.member"@[7] == 'm');
    assert("m.room.server_acl"@[7] == 's' && "m.room.encryption"@[7] == 'e');
    assert("m.room.join_rules"@[7] == 'j');
}

/// The message-like event types that the policy tells apart are different texts.
pub proof fn lemma_message_types()
    ensures
        message_kind_of("m.room.redaction"@) == MessageKind::Redaction,
        message_kind_of("m.room.encrypted"@) == MessageKind::Encrypted,
        message_kind_of("m.reaction"@) == MessageKind::Reaction,
        message_kind_of("m.call.invite"@) == MessageKind::CallInvite,
{
    reveal_strlit("m.room.redaction");
    reveal_strlit("m.room.encrypted");
    reveal_strlit("m.reaction");
    reveal_strlit("m.call.invite");
    assert("m.room.redaction"@.len() == 16 && "m.room.encrypted"@.len() == 16);
    assert("m.reaction"@.len() == 10 && "m.call.invite"@.len() == 13);
    assert("m.room.redaction"@[7] == 'r' && "m.room.encrypted"@[7] == 'e');
}

/// The verdict that refuses an event with this error.
pub open spec fn refusal_of(kind: ErrorKind, message: Seq<char>) -> VerdictView {
    VerdictView::Decided(Err(ErrorView { kind, message }))
}

/// A room is created once: a later `m.room.create` is always refused.
pub proof fn law_rooms_are_created_once(
    config: Config,
    room_id: Seq<char>,
    state_key: Seq<char>,
    json: Seq<char>,
    facts: FactsView,
)
    ensures
        state_verdict(config, room_id, "m.room.create"@, state_key, json, facts)
            == VerdictView::Decided(
            Err(
                ErrorView {
                    kind: ErrorKind::BadJson,
                    message: "You cannot update m.room.create after a room has been created."@,
                },
            ),
        ),
{
    lemma_state_types();
}

/// A room can be encrypted exactly if encryption is allowed.
pub proof fn law_rooms_are_encrypted_if_allowed(
    config: Config,
    room_id: Seq<char>,
    state_key: Seq<char>,
    json: Seq<char>,
    facts: FactsView,
)
    ensures
        ({
            let verdict = state_verdict(
                config,
                room_id,
                "m.room.encryption"@,
                state_key,
                json,
                facts,
            );
            &&& (verdict matches VerdictView::Decided(Ok(_))) <==> config.allow_encryption
            &&& !config.allow_encryption ==> verdict == VerdictView::Decided(
                Err(
                    ErrorView {
                        kind: ErrorKind::Forbidden,
                        message: "Encryption is disabled on this homeserver."@,
                    },
                ),
            )
        }),
{
    lemma_state_types();
}

/// The policy has nothing against state events of other types.
pub proof fn law_other_state_events_are_allowed(
    config: Config,
    room_id: Seq<char>,
    event_type: Seq<char>,
    state_key: Seq<char>,
    json: Seq<char>,
    facts: FactsView,
)
    requires
        event_type != "m.room.create"@,
        event_type != "m.room.server_acl"@,
        event_type != "m.room.encryption"@,
        event_type != "m.room.join_rules"@,
        event_type != "m.room.history_visibility"@,
        event_type != "m.room.canonical_alias"@,
        event_type != "m.room.member"@,
    ensures
        state_verdict(config, room_id, event_type, state_key, json, facts) matches VerdictView::Decided(
            Ok(_),
        ),
{
}

/// Access rules are accepted exactly if they allow somebody and do not shut this
/// server out: they allow everybody and do not deny everybody, or they admit or
/// name this server.
pub proof fn law_access_rules_keep_this_server_in(
    config: Config,
    room_id: Seq<char>,
    state_key: Seq<char>,
    json: Seq<char>,
    facts: FactsView,
)
    ensures
        ({
            let verdict = state_verdict(
                config,
                room_id,
                "m.room.server_acl"@,
                state_key,
                json,
                facts,
            );
            match acl_of(json) {
                Err(complaint) => verdict == refusal_of(
                    ErrorKind::BadJson,
                    "Room server ACL event is invalid: "@ + complaint,
                ),
                Ok(acl) => {
                    let allows_all = acl.allow.contains("*"@);
                    let denies_all = acl.deny.contains("*"@);
                    let this_server = acl_admits(acl, config.server_name@)
                        || acl.allow.contains(config.server_name@);
                    &&& verdict is Decided
                    &&& (verdict matches VerdictView::Decided(Ok(_))) <==> acl.allow.len() > 0 && (
                    if allows_all {
                        !denies_all
                    } else {
                        this_server
                    })
                    &&& acl.allow.len() == 0 ==> verdict == refusal_of(
                        ErrorKind::BadJson,
                        "Sending an ACL event with an empty allow key will permanently brick the room for non-tuwunel's as this equates to no servers being allowed to participate in this room."@,
                    )
                    &&& acl.allow.len() > 0 && allows_all && denies_all ==> verdict == refusal_of(
                        ErrorKind::BadJson,
                        "Sending an ACL event with a deny and allow key value of \"*\" will permanently brick the room for non-tuwunel's as this equates to no servers being allowed to participate in this room."@,
                    )
                    &&& acl.allow.len() > 0 && !allows_all && denies_all && !this_server
                        ==> verdict == refusal_of(
                        ErrorKind::BadJson,
                        "Sending an ACL event with a deny key value of \"*\" and without your own server name in the allow key will result in you being unable to participate in this room."@,
                    )
                    &&& acl.allow.len() > 0 && !allows_all && !denies_all && !this_server
                        ==> verdict == refusal_of(
                        ErrorKind::BadJson,
                        "Sending an ACL event for an allow key without \"*\" and without your own server name in the allow key will result in you being unable to participate in this room."@,
                    )
                },
            }
        }),
{
    lemma_state_types();
}

/// The administrators' room, and no other, is kept from being made public. Which
/// room it is, is asked first.
pub proof fn law_admin_room_stays_private(
    config: Config,
    room_id: Seq<char>,
    state_key: Seq<char>,
    json: Seq<char>,
    facts: FactsView,
)
    ensures
        ({
            let verdict = state_verdict(
                config,
                room_id,
                "m.room.join_rules"@,
                state_key,
                json,
                facts,
            );
            let is_admin_room = facts.admin_room == Some(Some(room_id));
            &&& facts.admin_room is None ==> verdict == VerdictView::Ask(QuestionView::AdminRoom)
            &&& facts.admin_room is Some ==> verdict is Decided
            &&& facts.admin_room is Some && !is_admin_room ==> (verdict matches VerdictView::Decided(
                Ok(_),
            ))
            &&& is_admin_room && public_join_of(json) == Ok::<bool, Seq<char>>(false) ==> (
            verdict matches VerdictView::Decided(Ok(_)))
            &&& is_admin_room && public_join_of(json) == Ok::<bool, Seq<char>>(true) ==> verdict
                == refusal_of(
                ErrorKind::Forbidden,
                "Admin room is a sensitive room, it cannot be made public"@,
            )
            &&& is_admin_room && public_join_of(json) is Err ==> verdict == refusal_of(
                ErrorKind::BadJson,
                "Room join rules event is invalid: "@ + public_join_of(json)->Err_0,
            )
        }),
{
    lemma_state_types();
}

/// The administrators' room, and no other, is kept from being made world
/// readable. Where there is such a room, every room's content must be readable.
pub proof fn law_admin_room_stays_unreadable(
    config: Config,
    room_id: Seq<char>,
    state_key: Seq<char>,
    json: Seq<char>,
    facts: FactsView,
)
    ensures
        ({
            let verdict = state_verdict(
                config,
                room_id,
                "m.room.history_visibility"@,
                state_key,
                json,
                facts,
            );
            let is_admin_room = facts.admin_room == Some(Some(room_id));
            let has_admin_room = facts.admin_room matches Some(Some(_));
            &&& facts.admin_room is None ==> verdict == VerdictView::Ask(QuestionView::AdminRoom)
            &&& facts.admin_room is Some ==> verdict is Decided
            &&& facts.admin_room == Some(None::<Seq<char>>) ==> (
            verdict matches VerdictView::Decided(Ok(_)))
            &&& has_admin_room && world_readable_of(json) is Err ==> verdict == refusal_of(
                ErrorKind::BadJson,
                "Room history visibility event is invalid: "@ + world_readable_of(json)->Err_0,
            )
            &&& has_admin_room && world_readable_of(json) is Ok ==> ((
            verdict matches VerdictView::Decided(Ok(_))) <==> !(is_admin_room
                && world_readable_of(json)->Ok_0))
            &&& is_admin_room && world_readable_of(json) == Ok::<bool, Seq<char>>(true)
                ==> verdict == refusal_of(
                ErrorKind::Forbidden,
                "Admin room is a sensitive room, it cannot be made world readable (public room history)."@,
            )
        }),
{
    lemma_state_types();
}

/// A membership is accepted exactly if it can be read, its state key is a user
/// ID, an invite goes to a user of another server or to one who has not blocked
/// invites, and, where a user has authorised it, it is a join and that user
/// belongs to this server and is in the room.
pub proof fn law_memberships_that_are_accepted(
    config: Config,
    room_id: Seq<char>,
    state_key: Seq<char>,
    json: Seq<char>,
    facts: FactsView,
)
    ensures
        (state_verdict(config, room_id, "m.room.member"@, state_key, json, facts)
            matches VerdictView::Decided(Ok(_))) <==> {
            &&& user_id_text(state_key)
            &&& member_of(json) matches Ok((membership, authoriser)) && (membership
                == Membership::Invite ==> facts.target_is_local == Some(false) || (
            facts.target_is_local == Some(true) && facts.invites_blocked == Some(false))) && (
            authoriser is Some ==> membership == Membership::Join && facts.authoriser_is_local
                == Some(true) && facts.authoriser_is_joined == Some(true))
        },
{
    lemma_state_types();
}

/// Why a membership is refused, and what is asked about it: the user of the
/// state key, and the user who has authorised a join into the room.
pub proof fn law_memberships_that_are_not_accepted(
    config: Config,
    room_id: Seq<char>,
    state_key: Seq<char>,
    json: Seq<char>,
    facts: FactsView,
)
    ensures
        ({
            let verdict = state_verdict(
                config,
                room_id,
                "m.room.member"@,
                state_key,
                json,
                facts,
            );
            match member_of(json) {
                Err(complaint) => verdict == refusal_of(
                    ErrorKind::BadJson,
                    "Membership content must have a valid JSON body with at least a valid membership state: "@
                        + complaint,
                ),
                Ok((membership, authoriser)) => {
                    let invite = membership == Membership::Invite;
                    let open = user_id_text(state_key) && (!invite || facts.target_is_local
                        == Some(false) || (facts.target_is_local == Some(true)
                        && facts.invites_blocked == Some(false)));
                    &&& !user_id_text(state_key) ==> verdict == refusal_of(
                        ErrorKind::BadJson,
                        "Membership event has invalid or non-existent state key"@,
                    )
                    &&& user_id_text(state_key) && invite && facts.target_is_local is None
                        ==> verdict == VerdictView::Ask(
                        QuestionView::IsLocalTarget { user: state_key },
                    )
                    &&& user_id_text(state_key) && invite && facts.target_is_local == Some(true)
                        && facts.invites_blocked is None ==> verdict == VerdictView::Ask(
                        QuestionView::InvitesBlocked { user: state_key },
                    )
                    &&& user_id_text(state_key) && invite && facts.target_is_local == Some(true)
                        && facts.invites_blocked == Some(true) ==> verdict == refusal_of(
                        ErrorKind::InviteBlocked,
                        state_key + " has blocked invites."@,
                    )
                    &&& open ==> (authoriser matches Some(user) ==> {
                        &&& membership != Membership::Join ==> verdict == refusal_of(
                            ErrorKind::BadJson,
                            "join_authorised_via_users_server is only for member joins"@,
                        )
                        &&& membership == Membership::Join && facts.authoriser_is_local is None
                            ==> verdict == VerdictView::Ask(
                            QuestionView::IsLocalAuthoriser { user },
                        )
                        &&& membership == Membership::Join && facts.authoriser_is_local == Some(
                            false,
                        ) ==> verdict == refusal_of(
                            ErrorKind::InvalidParam,
                            "Authorising user "@ + user + " does not belong to this homeserver"@,
                        )
                        &&& membership == Membership::Join && facts.authoriser_is_local == Some(
                            true,
                        ) && facts.authoriser_is_joined is None ==> verdict == VerdictView::Ask(
                            QuestionView::IsJoined { user, room_id },
                        )
                        &&& membership == Membership::Join && facts.authoriser_is_local == Some(
                            true,
                        ) && facts.authoriser_is_joined == Some(false) ==> verdict == refusal_of(
                            ErrorKind::InvalidParam,
                            "Authorising user "@ + user
                                + " is not in the room. They cannot authorise the join."@,
                        )
                    })
                },
            }
        }),
{
    lemma_state_types();
}

/// A text is among the aliases of a content exactly if it is the canonical one
/// or one of the alternative ones.
pub proof fn law_aliases_of_a_content(
    fields: (Option<Seq<char>>, Seq<Seq<char>>),
    alias: Seq<char>,
)
    ensures
        all_aliases(fields).contains(alias) <==> fields.0 == Some(alias) || fields.1.contains(
            alias,
        ),
        current_aliases(Some(Ok(fields))).contains(alias) <==> fields.0 == Some(alias)
            || fields.1.contains(alias),
{
    if let Some(first) = fields.0 {
        let all = seq![first] + fields.1;
        assert(all[0] == first);
        if fields.1.contains(alias) {
            let k = choose|k: int| 0 <= k < fields.1.len() && fields.1[k] == alias;
            assert(all[k + 1] == alias);
        }
        if all.contains(alias) {
            let k = choose|k: int| 0 <= k < all.len() && all[k] == alias;
            if k > 0 {
                assert(fields.1[k - 1] == alias);
            }
        }
    }
}

/// The room's aliases are those of its canonical alias event; where it has none,
/// or none that can be read, it has no aliases.
pub proof fn law_current_aliases(facts: FactsView, alias: Seq<char>)
    ensures
        known_aliases(facts) is Some <==> facts.alias_content is Some,
        known_aliases(facts) matches Some(current) ==> (current.contains(alias) <==> (
        facts.alias_content->0 matches Some(json) && alias_fields_of(json) matches Ok(fields) && (
        fields.0 == Some(alias) || fields.1.contains(alias)))),
{
    if let Some(Some(json)) = facts.alias_content {
        if let Ok(fields) = alias_fields_of(json) {
            law_aliases_of_a_content(fields, alias);
        }
    }
}

/// The aliases that have to be checked are those that are the canonical one or
/// among the alternative ones, and are not among the current ones.
pub proof fn law_aliases_to_be_checked(
    fields: (Option<Seq<char>>, Seq<Seq<char>>),
    current: Seq<Seq<char>>,
    alias: Seq<char>,
)
    ensures
        new_aliases(all_aliases(fields), current).contains(alias) <==> (fields.0 == Some(alias)
            || fields.1.contains(alias)) && !current.contains(alias),
{
    law_aliases_of_a_content(fields, alias);
    lemma_new_aliases(all_aliases(fields), current, alias);
}

/// What is new is what is there and not current.
proof fn lemma_new_aliases(aliases: Seq<Seq<char>>, current: Seq<Seq<char>>, alias: Seq<char>)
    ensures
        new_aliases(aliases, current).contains(alias) <==> aliases.contains(alias)
            && !current.contains(alias),
    decreases aliases.len(),
{
    if aliases.len() > 0 {
        let rest = aliases.drop_last();
        let last = aliases.last();
        lemma_new_aliases(rest, current, alias);
        assert(aliases[aliases.len() - 1] == last);
        assert(aliases.contains(alias) <==> rest.contains(alias) || alias == last) by {
            if aliases.contains(alias) {
                let k = choose|k: int| 0 <= k < aliases.len() && aliases[k] == alias;
                if k < rest.len() {
                    assert(rest[k] == alias);
                }
            }
            if rest.contains(alias) {
                let k = choose|k: int| 0 <= k < rest.len() && rest[k] == alias;
                assert(aliases[k] == alias);
            }
        }
        let before = new_aliases(rest, current);
        let after = new_aliases(aliases, current);
        if current.contains(last) {
            assert(after =~= before);
        } else {
            assert(after =~= before + seq![last]);
            assert(after[before.len() as int] == last);
            if before.contains(alias) {
                let k = choose|k: int| 0 <= k < before.len() && before[k] == alias;
                assert(after[k] == alias);
            }
            if after.contains(alias) {
                let k = choose|k: int| 0 <= k < after.len() && after[k] == alias;
                if k < before.len() {
                    assert(before[k] == alias);
                }
            }
        }
    }
}

/// As long as every answer is the room, the next alias is asked for.
proof fn lemma_next_alias_is_asked(
    aliases: Seq<Seq<char>>,
    resolved: Seq<ResolutionView>,
    room_id: Seq<char>,
    k: int,
)
    requires
        0 <= k < aliases.len(),
        k <= resolved.len(),
        forall|i: int| 0 <= i < k ==> #[trigger] resolved[i] == ResolutionView::Room(room_id),
    ensures
        aliases_verdict(aliases, resolved.take(k), room_id) == VerdictView::Ask(
            QuestionView::ResolveAlias { alias: aliases[k] },
        ),
    decreases k,
{
    if k > 0 {
        let rest = resolved.drop_first();
        assert forall|i: int| 0 <= i < k - 1 implies #[trigger] rest[i] == ResolutionView::Room(
            room_id,
        ) by {
            assert(rest[i] == resolved[i + 1]);
        }
        lemma_next_alias_is_asked(aliases.drop_first(), rest, room_id, k - 1);
        assert(resolved.take(k).drop_first() =~= rest.take(k - 1));
        assert(resolved.take(k)[0] == resolved[0]);
    }
}

/// What is accepted was answered with the room throughout.
proof fn lemma_accepted_aliases_lead(
    aliases: Seq<Seq<char>>,
    resolved: Seq<ResolutionView>,
    room_id: Seq<char>,
)
    requires
        aliases_verdict(aliases, resolved, room_id) matches VerdictView::Decided(Ok(_)),
    ensures
        aliases.len() <= resolved.len(),
        forall|i: int|
            0 <= i < aliases.len() ==> #[trigger] resolved[i] == ResolutionView::Room(room_id),
    decreases aliases.len(),
{
    if aliases.len() > 0 {
        let rest = resolved.drop_first();
        lemma_accepted_aliases_lead(aliases.drop_first(), rest, room_id);
        assert forall|i: int| 0 <= i < aliases.len() implies #[trigger] resolved[i]
            == ResolutionView::Room(room_id) by {
            if i > 0 {
                assert(rest[i - 1] == resolved[i]);
            }
        }
    }
}

/// The facts, with no more than the first answers about aliases.
pub open spec fn with_answers(facts: FactsView, count: int) -> FactsView {
    FactsView { resolved: facts.resolved.take(count), ..facts }
}

/// A canonical alias event is accepted only if every alias in it, the canonical
/// one or an alternative one, that the room does not have yet was asked for and
/// the answer was the room: after the answers that came before, the policy asked
/// for that alias.
pub proof fn law_every_new_alias_was_asked_for(
    config: Config,
    room_id: Seq<char>,
    state_key: Seq<char>,
    json: Seq<char>,
    fields: (Option<Seq<char>>, Seq<Seq<char>>),
    facts: FactsView,
    alias: Seq<char>,
)
    requires
        alias_fields_of(json) == Ok::<(Option<Seq<char>>, Seq<Seq<char>>), Seq<char>>(fields),
        state_verdict(config, room_id, "m.room.canonical_alias"@, state_key, json, facts)
            matches VerdictView::Decided(Ok(_)),
        fields.0 == Some(alias) || fields.1.contains(alias),
        !(facts.alias_content matches Some(Some(current)) && alias_fields_of(current) matches Ok(
            current_fields,
        ) && (current_fields.0 == Some(alias) || current_fields.1.contains(alias))),
    ensures
        exists|i: int|
            0 <= i < facts.resolved.len() && #[trigger] facts.resolved[i] == ResolutionView::Room(
                room_id,
            ) && state_verdict(
                config,
                room_id,
                "m.room.canonical_alias"@,
                state_key,
                json,
                with_answers(facts, i),
            ) == VerdictView::Ask(QuestionView::ResolveAlias { alias }),
{
    lemma_state_types();
    law_current_aliases(facts, alias);
    let current = known_aliases(facts)->0;
    law_aliases_to_be_checked(fields, current, alias);
    let aliases = new_aliases(all_aliases(fields), current);
    lemma_accepted_aliases_lead(aliases, facts.resolved, room_id);
    let i = choose|i: int| 0 <= i < aliases.len() && aliases[i] == alias;
    lemma_next_alias_is_asked(aliases, facts.resolved, room_id, i);
    assert(facts.resolved[i] == ResolutionView::Room(room_id));
}

/// The policy asks only for aliases that are in the event and that the room does
/// not have yet.
pub proof fn law_only_new_aliases_are_asked_for(
    config: Config,
    room_id: Seq<char>,
    state_key: Seq<char>,
    json: Seq<char>,
    fields: (Option<Seq<char>>, Seq<Seq<char>>),
    facts: FactsView,
    alias: Seq<char>,
)
    requires
        alias_fields_of(json) == Ok::<(Option<Seq<char>>, Seq<Seq<char>>), Seq<char>>(fields),
        state_verdict(config, room_id, "m.room.canonical_alias"@, state_key, json, facts)
            == VerdictView::Ask(QuestionView::ResolveAlias { alias }),
    ensures
        fields.0 == Some(alias) || fields.1.contains(alias),
        !(facts.alias_content matches Some(Some(current)) && alias_fields_of(current) matches Ok(
            current_fields,
        ) && (current_fields.0 == Some(alias) || current_fields.1.contains(alias))),
{
    lemma_state_types();
    law_current_aliases(facts, alias);
    let current = known_aliases(facts)->0;
    law_aliases_to_be_checked(fields, current, alias);
    let aliases = new_aliases(all_aliases(fields), current);
    law_aliases_are_asked_in_order(aliases, facts.resolved, room_id);
    assert(aliases.contains(aliases[facts.resolved.len() as int]));
}

/// One more answer.
pub open spec fn answered(facts: FactsView, answer: ResolutionView) -> FactsView {
    FactsView { resolved: facts.resolved.push(answer), ..facts }
}

/// Where an alias that is asked for cannot be resolved, or leads to another room,
/// the event is refused; where it leads to the room, it is not.
pub proof fn law_answer_about_an_alias_decides(
    config: Config,
    room_id: Seq<char>,
    state_key: Seq<char>,
    json: Seq<char>,
    facts: FactsView,
    alias: Seq<char>,
    reason: Seq<char>,
    other: Seq<char>,
)
    requires
        state_verdict(config, room_id, "m.room.canonical_alias"@, state_key, json, facts)
            == VerdictView::Ask(QuestionView::ResolveAlias { alias }),
        other != room_id,
    ensures
        state_verdict(
            config,
            room_id,
            "m.room.canonical_alias"@,
            state_key,
            json,
            answered(facts, ResolutionView::Failed(reason)),
        ) == refusal_of(
            ErrorKind::BadAlias,
            "Failed resolving alias \""@ + alias + "\": "@ + reason,
        ),
        state_verdict(
            config,
            room_id,
            "m.room.canonical_alias"@,
            state_key,
            json,
            answered(facts, ResolutionView::Room(other)),
        ) == refusal_of(
            ErrorKind::BadAlias,
            "Room alias "@ + alias + " does not belong to room "@ + room_id,
        ),
        !(state_verdict(
            config,
            room_id,
            "m.room.canonical_alias"@,
            state_key,
            json,
            answered(facts, ResolutionView::Room(room_id)),
        ) matches VerdictView::Decided(Err(_))),
{
    lemma_state_types();
    let fields = alias_fields_of(json)->Ok_0;
    let aliases = new_aliases(all_aliases(fields), known_aliases(facts)->0);
    law_aliases_are_asked_in_order(aliases, facts.resolved, room_id);
    lemma_alias_answer(aliases, facts.resolved, room_id, ResolutionView::Failed(reason));
    lemma_alias_answer(aliases, facts.resolved, room_id, ResolutionView::Room(other));
    lemma_alias_answer(aliases, facts.resolved, room_id, ResolutionView::Room(room_id));
}

/// What one more answer comes to.
proof fn lemma_alias_answer(
    aliases: Seq<Seq<char>>,
    resolved: Seq<ResolutionView>,
    room_id: Seq<char>,
    answer: ResolutionView,
)
    requires
        aliases_verdict(aliases, resolved, room_id) is Ask,
        resolved.len() < aliases.len(),
    ensures
        ({
            let alias = aliases[resolved.len() as int];
            let verdict = aliases_verdict(aliases, resolved.push(answer), room_id);
            match answer {
                ResolutionView::Failed(reason) => verdict == refusal_of(
                    ErrorKind::BadAlias,
                    "Failed resolving alias \""@ + alias + "\": "@ + reason,
                ),
                ResolutionView::Room(room) => if room == room_id {
                    !(verdict matches VerdictView::Decided(Err(_)))
                } else {
                    verdict == refusal_of(
                        ErrorKind::BadAlias,
                        "Room alias "@ + alias + " does not belong to room "@ + room_id,
                    )
                },
            }
        }),
    decreases aliases.len(),
{
    let longer = resolved.push(answer);
    if resolved.len() > 0 {
        assert(longer[0] == resolved[0]);
        assert(longer.drop_first() =~= resolved.drop_first().push(answer));
        lemma_alias_answer(aliases.drop_first(), resolved.drop_first(), room_id, answer);
        assert(aliases.drop_first()[resolved.len() - 1] == aliases[resolved.len() as int]);
    } else {
        reveal_with_fuel(aliases_verdict, 2);
        assert(longer[0] == answer);
        assert(longer.drop_first() =~= Seq::empty());
    }
}

/// A canonical alias event that cannot be read is refused, and the room's own is
/// asked for before anything else.
pub proof fn law_aliases_must_be_readable(
    config: Config,
    room_id: Seq<char>,
    state_key: Seq<char>,
    json: Seq<char>,
    facts: FactsView,
)
    ensures
        alias_fields_of(json) matches Err(complaint) ==> state_verdict(
            config,
            room_id,
            "m.room.canonical_alias"@,
            state_key,
            json,
            facts,
        ) == refusal_of(
            ErrorKind::InvalidParam,
            "Room canonical alias event is invalid: "@ + complaint,
        ),
        alias_fields_of(json) is Ok && facts.alias_content is None ==> state_verdict(
            config,
            room_id,
            "m.room.canonical_alias"@,
            state_key,
            json,
            facts,
        ) == VerdictView::Ask(QuestionView::AliasContent { room_id }),
{
    lemma_state_types();
}

/// Redactions are allowed unless they are disabled and the sender is no
/// administrator.
pub proof fn law_redactions(
    config: Config,
    sender_user: Seq<char>,
    content: Seq<char>,
    room_id: Seq<char>,
    facts: FactsView,
)
    ensures
        ({
            let verdict = message_verdict(
                config,
                sender_user,
                "m.room.redaction"@,
                content,
                room_id,
                facts,
            );
            &&& (verdict matches VerdictView::Decided(Ok(_))) <==> !config.disable_local_redactions
                || facts.sender_is_admin == Some(true)
            &&& config.disable_local_redactions && facts.sender_is_admin is None ==> verdict
                == VerdictView::Ask(QuestionView::IsAdmin { user: sender_user })
            &&& config.disable_local_redactions && facts.sender_is_admin == Some(false)
                ==> verdict == refusal_of(
                ErrorKind::Forbidden,
                "Redactions are disabled on this server."@,
            )
        }),
{
    lemma_message_types();
}

/// Encrypted messages are allowed exactly if encryption is.
pub proof fn law_encrypted_messages(
    config: Config,
    sender_user: Seq<char>,
    content: Seq<char>,
    room_id: Seq<char>,
    facts: FactsView,
)
    ensures
        ({
            let verdict = message_verdict(
                config,
                sender_user,
                "m.room.encrypted"@,
                content,
                room_id,
                facts,
            );
            &&& (verdict matches VerdictView::Decided(Ok(_))) <==> config.allow_encryption
            &&& !config.allow_encryption ==> verdict == refusal_of(
                ErrorKind::Forbidden,
                "Encryption has been disabled"@,
            )
        }),
{
    lemma_message_types();
}

/// A reaction is refused exactly if its sender has put the same key on the same
/// event before.
pub proof fn law_reactions(
    config: Config,
    sender_user: Seq<char>,
    content: Seq<char>,
    room_id: Seq<char>,
    facts: FactsView,
)
    ensures
        ({
            let verdict = message_verdict(
                config,
                sender_user,
                "m.reaction"@,
                content,
                room_id,
                facts,
            );
            &&& (verdict matches VerdictView::Decided(Ok(_))) <==> reaction_of(content) is None
                || facts.has_reacted == Some(false)
            &&& reaction_of(content) matches Some((event_id, key)) ==> (facts.has_reacted is None
                ==> verdict == VerdictView::Ask(
                QuestionView::HasReacted { event_id, user: sender_user, key },
            ))
            &&& reaction_of(content) is Some && facts.has_reacted == Some(true) ==> verdict
                == refusal_of(
                ErrorKind::DuplicateAnnotation,
                "Duplicate reactions are not allowed."@,
            )
        }),
{
    lemma_message_types();
}

/// A call invite is refused exactly in public rooms.
pub proof fn law_call_invites(
    config: Config,
    sender_user: Seq<char>,
    content: Seq<char>,
    room_id: Seq<char>,
    facts: FactsView,
)
    ensures
        ({
            let verdict = message_verdict(
                config,
                sender_user,
                "m.call.invite"@,
                content,
                room_id,
                facts,
            );
            &&& (verdict matches VerdictView::Decided(Ok(_))) <==> facts.room_is_public == Some(
                false,
            )
            &&& facts.room_is_public is None ==> verdict == VerdictView::Ask(
                QuestionView::IsPublicRoom { room_id },
            )
            &&& facts.room_is_public == Some(true) ==> verdict == refusal_of(
                ErrorKind::Forbidden,
                "Room call invites are not allowed in public rooms"@,
            )
        }),
{
    lemma_message_types();
}

/// The policy has nothing against messages of other types.
pub proof fn law_other_messages_are_allowed(
    config: Config,
    sender_user: Seq<char>,
    event_type: Seq<char>,
    content: Seq<char>,
    room_id: Seq<char>,
    facts: FactsView,
)
    requires
        event_type != "m.room.redaction"@,
        event_type != "m.room.encrypted"@,
        event_type != "m.reaction"@,
        event_type != "m.call.invite"@,
    ensures
        message_verdict(config, sender_user, event_type, content, room_id, facts)
            matches VerdictView::Decided(Ok(_)),
{
}

/// At the start nothing is known.
pub proof fn law_nothing_is_known_at_the_start()
    ensures
        ({
            let facts = nothing_known();
            &&& facts.sender_is_admin is None
            &&& facts.has_reacted is None
            &&& facts.room_is_public is None
            &&& facts.admin_room is None
            &&& facts.alias_content is None
            &&& facts.resolved.len() == 0
            &&& facts.target_is_local is None
            &&& facts.invites_blocked is None
            &&& facts.authoriser_is_local is None
            &&& facts.authoriser_is_joined is None
        }),
{
}

} // verus!
