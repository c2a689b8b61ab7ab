//! Event types and event contents, as the `ruma` crate reads them.
//!
//! Everything here takes and gives plain values. The functions that call `ruma`
//! are trusted: their contracts are believed, not proved. What a content type
//! of `ruma` makes of a JSON text is a long story, so it only gets a name here;
//! what the names stand for is the function of the text that `ruma` computes.

use ruma::events::reaction::ReactionEventContent;
use ruma::events::room::canonical_alias::RoomCanonicalAliasEventContent;
use ruma::events::room::history_visibility::{HistoryVisibility, RoomHistoryVisibilityEventContent};
use ruma::events::room::join_rules::{JoinRule, RoomJoinRulesEventContent};
use ruma::events::room::member::{MembershipState, RoomMemberEventContent};
use ruma::events::room::redaction::RoomRedactionEventContent;
use ruma::events::room::server_acl::RoomServerAclEventContent;
use ruma::events::{
    AnyMessageLikeEventContent, AnyStateEventContent, MessageLikeEventType, StateEventType,
};
use ruma::serde::Raw;
use vstd::prelude::*;

verus! {

/// The message-like event types that the server has a policy on.
#[derive(Clone, Copy, Debug, PartialEq, Eq, Structural)]
pub enum MessageKind {
    Redaction,
    Encrypted,
    Reaction,
    CallInvite,
    Other,
}

/// The state event types that the server has a policy on.
#[derive(Clone, Copy, Debug, PartialEq, Eq, Structural)]
pub enum StateKind {
    Create,
    ServerAcl,
    Encryption,
    JoinRules,
    HistoryVisibility,
    CanonicalAlias,
    Member,
    Other,
}

/// The memberships that the policy tells apart.
#[derive(Clone, Copy, Debug, PartialEq, Eq, Structural)]
pub enum Membership {
    Invite,
    Join,
    Other,
}

impl DeepView for Membership {
    type V = Membership;

    open spec fn deep_view(&self) -> Membership {
        *self
    }
}

/// Which servers may take part in a room.
#[derive(Debug)]
pub struct AclContent {
    pub allow_ip_literals: bool,
    pub allow: Vec<String>,
    pub deny: Vec<String>,
}

/// What an [`AclContent`] says.
pub struct AclView {
    pub allow_ip_literals: bool,
    pub allow: Seq<Seq<char>>,
    pub deny: Seq<Seq<char>>,
}

impl DeepView for AclContent {
    type V = AclView;

    open spec fn deep_view(&self) -> AclView {
        AclView {
            allow_ip_literals: self.allow_ip_literals,
            allow: self.allow.deep_view(),
            deny: self.deny.deep_view(),
        }
    }
}

/// The outcome of reading a text, with its value and its complaint taken by
/// their views.
pub open spec fn read_as<T: DeepView>(outcome: Result<T, String>) -> Result<T::V, Seq<char>> {
    match outcome {
        Ok(value) => Ok(value.deep_view()),
        Err(complaint) => Err(complaint@),
    }
}

/// The kind of a message-like event type.
pub open spec fn message_kind_of(event_type: Seq<char>) -> MessageKind {
    if event_type == "m.room.redaction"@ {
        MessageKind::Redaction
    } else if event_type == "m.room.encrypted"@ {
        MessageKind::Encrypted
    } else if event_type == "m.reaction"@ {
        MessageKind::Reaction
    } else if event_type == "m.call.invite"@ {
        MessageKind::CallInvite
    } else {
        MessageKind::Other
    }
}

/// The kind of a state event type.
pub open spec fn state_kind_of(event_type: Seq<char>) -> StateKind {
    if event_type == "m.room.create"@ {
        StateKind::Create
    } else if event_type == "m.room.server_acl"@ {
        StateKind::ServerAcl
    } else if event_type == "m.room.encryption"@ {
        StateKind::Encryption
    } else if event_type == "m.room.join_rules"@ {
        StateKind::JoinRules
    } else if event_type == "m.room.history_visibility"@ {
        StateKind::HistoryVisibility
    } else if event_type == "m.room.canonical_alias"@ {
        StateKind::CanonicalAlias
    } else if event_type == "m.room.member"@ {
        StateKind::Member
    } else {
        StateKind::Other
    }
}

/// Trusted: `MessageLikeEventType::from` of `ruma`. The types that it knows by
/// these names, without an alias, are the ones listed in [`message_kind_of`].
#[verifier::external_body]
pub(crate) fn message_kind(event_type: &str) -> (kind: MessageKind)
    ensures
        kind == message_kind_of(event_type@),
{
    match MessageLikeEventType::from(event_type) {
        MessageLikeEventType::RoomRedaction => MessageKind::Redaction,
        MessageLikeEventType::RoomEncrypted => MessageKind::Encrypted,
        MessageLikeEventType::Reaction => MessageKind::Reaction,
        MessageLikeEventType::CallInvite => MessageKind::CallInvite,
        _ => MessageKind::Other,
    }
}

/// Trusted: `StateEventType::from` of `ruma`. The types that it knows by these
/// names, without an alias, are the ones listed in [`state_kind_of`].
#[verifier::external_body]
pub(crate) fn state_kind(event_type: &str) -> (kind: StateKind)
    ensures
        kind == state_kind_of(event_type@),
{
    match StateEventType::from(event_type) {
        StateEventType::RoomCreate => StateKind::Create,
        StateEventType::RoomServerAcl => StateKind::ServerAcl,
        StateEventType::RoomEncryption => StateKind::Encryption,
        StateEventType::RoomJoinRules => StateKind::JoinRules,
        StateEventType::RoomHistoryVisibility => StateKind::HistoryVisibility,
        StateEventType::RoomCanonicalAlias => StateKind::CanonicalAlias,
        StateEventType::RoomMember => StateKind::Member,
        _ => StateKind::Other,
    }
}

/// What the `ruma` type of `m.room.server_acl` contents makes of a JSON text:
/// its fields, or the complaint.
pub uninterp spec fn acl_of(json: Seq<char>) -> Result<AclView, Seq<char>>;

/// Trusted: `Raw::deserialize_as_unchecked` of `ruma`, as a
/// `RoomServerAclEventContent`. Its outcome is [`acl_of`] the text.
#[verifier::external_body]
pub(crate) fn read_acl(json: &str) -> (outcome: Result<AclContent, String>)
    ensures
        read_as(outcome) == acl_of(json@),
{
    match Raw::<AnyStateEventContent>::from_json_string(json.to_owned())
        .and_then(|raw| raw.deserialize_as_unchecked::<RoomServerAclEventContent>())
    {
        Ok(content) => Ok(
            AclContent {
                allow_ip_literals: content.allow_ip_literals,
                allow: content.allow,
                deny: content.deny,
            },
        ),
        Err(error) => Err(error.to_string()),
    }
}

/// Whether `ruma` finds that the access rules admit the server.
pub uninterp spec fn acl_admits(acl: AclView, server_name: Seq<char>) -> bool;

/// Trusted: `ServerName::parse` and `RoomServerAclEventContent::is_allowed` of
/// `ruma`. The latter matches the server's host with the wildcards of both
/// lists. The result is [`acl_admits`]; a text that is no server name is
/// admitted by no rules, which does not happen as long as the name of this
/// server is one.
#[verifier::external_body]
pub(crate) fn acl_allows(acl: &AclContent, server_name: &str) -> (allowed: bool)
    ensures
        allowed == acl_admits(acl.deep_view(), server_name@),
{
    let content = RoomServerAclEventContent::new(
        acl.allow_ip_literals,
        acl.allow.clone(),
        acl.deny.clone(),
    );
    match ruma::ServerName::parse(server_name) {
        Ok(name) => content.is_allowed(&name),
        Err(_) => false,
    }
}

/// What the `ruma` type of `m.room.join_rules` contents makes of a JSON text:
/// whether the rule is "public", or the complaint.
pub uninterp spec fn public_join_of(json: Seq<char>) -> Result<bool, Seq<char>>;

/// Trusted: `Raw::deserialize_as_unchecked` of `ruma`, as a
/// `RoomJoinRulesEventContent`. Its outcome is [`public_join_of`] the text.
#[verifier::external_body]
pub(crate) fn read_public_join(json: &str) -> (outcome: Result<bool, String>)
    ensures
        read_as(outcome) == public_join_of(json@),
{
    match Raw::<AnyStateEventContent>::from_json_string(json.to_owned())
        .and_then(|raw| raw.deserialize_as_unchecked::<RoomJoinRulesEventContent>())
    {
        Ok(content) => Ok(matches!(content.join_rule, JoinRule::Public)),
        Err(error) => Err(error.to_string()),
    }
}

/// What the `ruma` type of `m.room.history_visibility` contents makes of a JSON
/// text: whether the history is world readable, or the complaint.
pub uninterp spec fn world_readable_of(json: Seq<char>) -> Result<bool, Seq<char>>;

/// Trusted: `Raw::deserialize_as_unchecked` of `ruma`, as a
/// `RoomHistoryVisibilityEventContent`. Its outcome is [`world_readable_of`]
/// the text.
#[verifier::external_body]
pub(crate) fn read_world_readable(json: &str) -> (outcome: Result<bool, String>)
    ensures
        read_as(outcome) == world_readable_of(json@),
{
    match Raw::<AnyStateEventContent>::from_json_string(json.to_owned())
        .and_then(|raw| raw.deserialize_as_unchecked::<RoomHistoryVisibilityEventContent>())
    {
        Ok(content) => Ok(matches!(content.history_visibility, HistoryVisibility::WorldReadable)),
        Err(error) => Err(error.to_string()),
    }
}

/// What the `ruma` type of `m.room.canonical_alias` contents makes of a JSON
/// text: the canonical alias and the alternative ones, or the complaint.
pub uninterp spec fn alias_fields_of(json: Seq<char>) -> Result<
    (Option<Seq<char>>, Seq<Seq<char>>),
    Seq<char>,
>;

/// Trusted: `Raw::deserialize_as_unchecked` of `ruma`, as a
/// `RoomCanonicalAliasEventContent`. Its outcome is [`alias_fields_of`] the
/// text.
#[verifier::external_body]
pub(crate) fn read_alias_fields(json: &str) -> (outcome: Result<
    (Option<String>, Vec<String>),
    String,
>)
    ensures
        read_as(outcome) == alias_fields_of(json@),
{
    match Raw::<AnyStateEventContent>::from_json_string(json.to_owned())
        .and_then(|raw| raw.deserialize_as_unchecked::<RoomCanonicalAliasEventContent>())
    {
        Ok(content) => Ok(
            (
                content.alias.map(|alias| alias.to_string()),
                content.alt_aliases.iter().map(|alias| alias.to_string()).collect(),
            ),
        ),
        Err(error) => Err(error.to_string()),
    }
}

/// What the `ruma` type of `m.room.member` contents makes of a JSON text: the
/// membership and the user that authorised the join, or the complaint.
pub uninterp spec fn member_of(json: Seq<char>) -> Result<
    (Membership, Option<Seq<char>>),
    Seq<char>,
>;

/// Trusted: `Raw::deserialize_as_unchecked` of `ruma`, as a
/// `RoomMemberEventContent`. Its outcome is [`member_of`] the text.
#[verifier::external_body]
pub(crate) fn read_member(json: &str) -> (outcome: Result<(Membership, Option<String>), String>)
    ensures
        read_as(outcome) == member_of(json@),
{
    match Raw::<AnyStateEventContent>::from_json_string(json.to_owned())
        .and_then(|raw| raw.deserialize_as_unchecked::<RoomMemberEventContent>())
    {
        Ok(content) => {
            let membership = match content.membership {
                MembershipState::Invite => Membership::Invite,
                MembershipState::Join => Membership::Join,
                _ => Membership::Other,
            };
            Ok((membership, content.join_authorized_via_users_server.map(|id| id.to_string())))
        },
        Err(error) => Err(error.to_string()),
    }
}

/// What the `ruma` type of `m.reaction` contents makes of a JSON text: the
/// event and the key of the annotation, where it is one.
pub uninterp spec fn reaction_of(json: Seq<char>) -> Option<(Seq<char>, Seq<char>)>;

/// Trusted: `Raw::deserialize_as_unchecked` of `ruma`, as a
/// `ReactionEventContent`. Its outcome, without the complaint, is
/// [`reaction_of`] the text.
#[verifier::external_body]
pub(crate) fn read_reaction(json: &str) -> (reaction: Option<(String, String)>)
    ensures
        reaction.deep_view() == reaction_of(json@),
{
    match Raw::<AnyMessageLikeEventContent>::from_json_string(json.to_owned())
        .and_then(|raw| raw.deserialize_as_unchecked::<ReactionEventContent>())
    {
        Ok(content) => Some((content.relates_to.event_id.to_string(), content.relates_to.key)),
        Err(_) => None,
    }
}

/// What the `ruma` type of `m.room.redaction` contents makes of a JSON text:
/// the event that is redacted, if one is named, where it is such a content.
pub uninterp spec fn redaction_of(json: Seq<char>) -> Option<Option<Seq<char>>>;

/// Trusted: `Raw::deserialize_as_unchecked` of `ruma`, as a
/// `RoomRedactionEventContent`. Its outcome, without the complaint, is
/// [`redaction_of`] the text.
#[verifier::external_body]
pub(crate) fn read_redaction(json: &str) -> (redaction: Option<Option<String>>)
    ensures
        redaction.deep_view() == redaction_of(json@),
{
    match Raw::<AnyMessageLikeEventContent>::from_json_string(json.to_owned())
        .and_then(|raw| raw.deserialize_as_unchecked::<RoomRedactionEventContent>())
    {
        Ok(content) => Some(content.redacts.map(|id| id.to_string())),
        Err(_) => None,
    }
}

/// Whether `ruma` takes the text for a user ID.
pub uninterp spec fn user_id_text(text: Seq<char>) -> bool;

/// Trusted: `UserId::parse` of `ruma`. It succeeds on the texts that are
/// [`user_id_text`].
#[verifier::external_body]
pub(crate) fn is_user_id(text: &str) -> (valid: bool)
    ensures
        valid == user_id_text(text@),
{
    ruma::UserId::parse(text).is_ok()
}

/// Whether `ruma` takes the text for an event ID.
pub uninterp spec fn event_id_text(text: Seq<char>) -> bool;

/// Trusted: `EventId::parse` of `ruma`. It succeeds on the texts that are
/// [`event_id_text`].
#[verifier::external_body]
pub(crate) fn is_event_id(text: &str) -> (valid: bool)
    ensures
        valid == event_id_text(text@),
{
    ruma::EventId::parse(text).is_ok()
}

} // verus!
