//! Which events the server lets its users send.
//!
//! A check may depend on what only the rest of the server knows: who is an
//! administrator, whether a room is public, where an alias leads. The functions
//! here decide on the [`Facts`] that are known so far. Where one is missing they
//! give the [`Question`], and are called once more when its answer has been
//! entered. At the start nothing is known.

use crate::config::Config;
use crate::content::{
    acl_admits, acl_allows, acl_of, alias_fields_of, is_user_id, member_of, message_kind,
    message_kind_of, public_join_of, reaction_of, read_acl, read_alias_fields, read_as, read_member,
    read_public_join, read_reaction, read_world_readable, state_kind, state_kind_of, user_id_text,
    world_readable_of, AclContent, AclView, Membership, MessageKind, StateKind,
};
use crate::error::{failure, seen, Error, ErrorKind, ErrorView};
use vstd::prelude::*;
use vstd::string::*;

verus! {

/// What a check needs to know from the rest of the server.
#[derive(Debug)]
pub enum Question {
    /// Is the user an administrator? See [`Facts::sender_is_admin`].
    IsAdmin { user: String },
    /// Has the user put this annotation on the event already? See
    /// [`Facts::has_reacted`].
    HasReacted { event_id: String, user: String, key: String },
    /// Is the room listed as public? See [`Facts::room_is_public`].
    IsPublicRoom { room_id: String },
    /// Which room is the administrators' room, if there is one? See
    /// [`Facts::admin_room`].
    AdminRoom,
    /// What is the content of the room's canonical alias event, if it has one?
    /// See [`Facts::alias_content`].
    AliasContent { room_id: String },
    /// Where does the alias lead? See [`Facts::resolved`].
    ResolveAlias { alias: String },
    /// Does the user who is to become a member belong to this server? See
    /// [`Facts::target_is_local`].
    IsLocalTarget { user: String },
    /// Has the user blocked invites? See [`Facts::invites_blocked`].
    InvitesBlocked { user: String },
    /// Does the user who authorises a join belong to this server? See
    /// [`Facts::authoriser_is_local`].
    IsLocalAuthoriser { user: String },
    /// Is the user who authorises a join in the room? See
    /// [`Facts::authoriser_is_joined`].
    IsJoined { user: String, room_id: String },
}

/// What a [`Question`] says.
pub enum QuestionView {
    IsAdmin { user: Seq<char> },
    HasReacted { event_id: Seq<char>, user: Seq<char>, key: Seq<char> },
    IsPublicRoom { room_id: Seq<char> },
    AdminRoom,
    AliasContent { room_id: Seq<char> },
    ResolveAlias { alias: Seq<char> },
    IsLocalTarget { user: Seq<char> },
    InvitesBlocked { user: Seq<char> },
    IsLocalAuthoriser { user: Seq<char> },
    IsJoined { user: Seq<char>, room_id: Seq<char> },
}

impl View for Question {
    type V = QuestionView;

    open spec fn view(&self) -> QuestionView {
        match *self {
            Question::IsAdmin { user } => QuestionView::IsAdmin { user: user@ },
            Question::HasReacted { event_id, user, key } => QuestionView::HasReacted {
                event_id: event_id@,
                user: user@,
                key: key@,
            },
            Question::IsPublicRoom { room_id } => QuestionView::IsPublicRoom { room_id: room_id@ },
            Question::AdminRoom => QuestionView::AdminRoom,
            Question::AliasContent { room_id } => QuestionView::AliasContent { room_id: room_id@ },
            Question::ResolveAlias { alias } => QuestionView::ResolveAlias { alias: alias@ },
            Question::IsLocalTarget { user } => QuestionView::IsLocalTarget { user: user@ },
            Question::InvitesBlocked { user } => QuestionView::InvitesBlocked { user: user@ },
            Question::IsLocalAuthoriser { user } => QuestionView::IsLocalAuthoriser {
                user: user@,
            },
            Question::IsJoined { user, room_id } => QuestionView::IsJoined {
                user: user@,
                room_id: room_id@,
            },
        }
    }
}

/// Where an alias leads.
#[derive(Debug)]
pub enum Resolution {
    /// To the room with this ID.
    Room(String),
    /// It could not be resolved, for this reason.
    Failed(String),
}

/// What a [`Resolution`] says.
pub enum ResolutionView {
    Room(Seq<char>),
    Failed(Seq<char>),
}

impl DeepView for Resolution {
    type V = ResolutionView;

    open spec fn deep_view(&self) -> ResolutionView {
        match *self {
            Resolution::Room(room_id) => ResolutionView::Room(room_id@),
            Resolution::Failed(reason) => ResolutionView::Failed(reason@),
        }
    }
}

/// What is known so far for one check; `None` where it was not asked for.
#[derive(Debug)]
pub struct Facts {
    pub sender_is_admin: Option<bool>,
    pub has_reacted: Option<bool>,
    pub room_is_public: Option<bool>,
    pub admin_room: Option<Option<String>>,
    /// The JSON text of the content.
    pub alias_content: Option<Option<String>>,
    /// The answers to [`Question::ResolveAlias`], in the order of the questions.
    pub resolved: Vec<Resolution>,
    pub target_is_local: Option<bool>,
    pub invites_blocked: Option<bool>,
    pub authoriser_is_local: Option<bool>,
    pub authoriser_is_joined: Option<bool>,
}

/// What [`Facts`] say.
pub struct FactsView {
    pub sender_is_admin: Option<bool>,
    pub has_reacted: Option<bool>,
    pub room_is_public: Option<bool>,
    pub admin_room: Option<Option<Seq<char>>>,
    pub alias_content: Option<Option<Seq<char>>>,
    pub resolved: Seq<ResolutionView>,
    pub target_is_local: Option<bool>,
    pub invites_blocked: Option<bool>,
    pub authoriser_is_local: Option<bool>,
    pub authoriser_is_joined: Option<bool>,
}

impl View for Facts {
    type V = FactsView;

    open spec fn view(&self) -> FactsView {
        FactsView {
            sender_is_admin: self.sender_is_admin,
            has_reacted: self.has_reacted,
            room_is_public: self.room_is_public,
            admin_room: self.admin_room.deep_view(),
            alias_content: self.alias_content.deep_view(),
            resolved: self.resolved.deep_view(),
            target_is_local: self.target_is_local,
            invites_blocked: self.invites_blocked,
            authoriser_is_local: self.authoriser_is_local,
            authoriser_is_joined: self.authoriser_is_joined,
        }
    }
}

/// What a check comes to.
#[derive(Debug)]
pub enum Verdict {
    /// The event may be sent, or is refused with the error.
    Decided(Result<(), Error>),
    /// It depends on the answer.
    Ask(Question),
}

/// What a [`Verdict`] says.
pub enum VerdictView {
    Decided(Result<(), ErrorView>),
    Ask(QuestionView),
}

impl View for Verdict {
    type V = VerdictView;

    open spec fn view(&self) -> VerdictView {
        match *self {
            Verdict::Decided(result) => VerdictView::Decided(seen(result)),
            Verdict::Ask(question) => VerdictView::Ask(question@),
        }
    }
}

impl Facts {
    /// Nothing is known yet.
    pub fn unknown() -> (facts: Facts)
        ensures
            facts@ == nothing_known(),
    {
        let facts = Facts {
            sender_is_admin: None,
            has_reacted: None,
            room_is_public: None,
            admin_room: None,
            alias_content: None,
            resolved: Vec::new(),
            target_is_local: None,
            invites_blocked: None,
            authoriser_is_local: None,
            authoriser_is_joined: None,
        };
        assert(facts.resolved.deep_view() =~= Seq::<ResolutionView>::empty());
        facts
    }
}

/// Facts that say nothing.
pub open spec fn nothing_known() -> FactsView {
    FactsView {
        sender_is_admin: None,
        has_reacted: None,
        room_is_public: None,
        admin_room: None,
        alias_content: None,
        resolved: Seq::empty(),
        target_is_local: None,
        invites_blocked: None,
        authoriser_is_local: None,
        authoriser_is_joined: None,
    }
}

/// The event may be sent.
pub open spec fn allowed() -> VerdictView {
    VerdictView::Decided(Ok(()))
}

/// The event is refused.
pub open spec fn refused(kind: ErrorKind, message: Seq<char>) -> VerdictView {
    VerdictView::Decided(Err(failure(kind, message)))
}

/// An event that is refused with a fixed message.
fn refuse(kind: ErrorKind, message: &str) -> (verdict: Verdict)
    ensures
        verdict@ == refused(kind, message@),
{
    Verdict::Decided(Err(Error::new(kind, message)))
}

/// An event that is refused because its content cannot be read.
fn refuse_content(kind: ErrorKind, message: &str, complaint: String) -> (verdict: Verdict)
    ensures
        verdict@ == refused(kind, message@ + complaint@),
{
    Verdict::Decided(Err(Error { kind, message: message.to_owned().concat(complaint.as_str()) }))
}

/// The policy on redactions: where they are disabled, only administrators may
/// redact.
pub open spec fn redaction_verdict(
    config: Config,
    sender_user: Seq<char>,
    facts: FactsView,
) -> VerdictView {
    if !config.disable_local_redactions {
        allowed()
    } else {
        match facts.sender_is_admin {
            None => VerdictView::Ask(QuestionView::IsAdmin { user: sender_user }),
            Some(true) => allowed(),
            Some(false) => refused(
                ErrorKind::Forbidden,
                "Redactions are disabled on this server."@,
            ),
        }
    }
}

/// The policy on reactions: nobody reacts twice to an event with the same key.
/// A content that is no reaction is not looked at any further. `reaction` is
/// the event and the key, where the content is one.
pub open spec fn reaction_verdict(
    sender_user: Seq<char>,
    reaction: Option<(Seq<char>, Seq<char>)>,
    facts: FactsView,
) -> VerdictView {
    match reaction {
        None => allowed(),
        Some((event_id, key)) => match facts.has_reacted {
            None => VerdictView::Ask(
                QuestionView::HasReacted { event_id, user: sender_user, key },
            ),
            Some(true) => refused(
                ErrorKind::DuplicateAnnotation,
                "Duplicate reactions are not allowed."@,
            ),
            Some(false) => allowed(),
        },
    }
}

/// The policy on call invites: there are none in public rooms.
pub open spec fn call_invite_verdict(room_id: Seq<char>, facts: FactsView) -> VerdictView {
    match facts.room_is_public {
        None => VerdictView::Ask(QuestionView::IsPublicRoom { room_id }),
        Some(true) => refused(
            ErrorKind::Forbidden,
            "Room call invites are not allowed in public rooms"@,
        ),
        Some(false) => allowed(),
    }
}

/// The policy on message-like events.
pub open spec fn message_verdict(
    config: Config,
    sender_user: Seq<char>,
    event_type: Seq<char>,
    content: Seq<char>,
    room_id: Seq<char>,
    facts: FactsView,
) -> VerdictView {
    match message_kind_of(event_type) {
        MessageKind::Redaction => redaction_verdict(config, sender_user, facts),
        MessageKind::Encrypted => if config.allow_encryption {
            allowed()
        } else {
            refused(ErrorKind::Forbidden, "Encryption has been disabled"@)
        },
        MessageKind::Reaction => reaction_verdict(sender_user, reaction_of(content), facts),
        MessageKind::CallInvite => call_invite_verdict(room_id, facts),
        MessageKind::Other => allowed(),
    }
}

/// Checks whether a message-like event may be sent: redactions and encryption
/// may be disabled, reactions are not repeated, and public rooms get no call
/// invites. `content` is a JSON text.
///
/// It holds for events that are sent at once and, when they are sent, for
/// delayed ones.
pub fn validate_message_event_policy(
    config: &Config,
    sender_user: &str,
    event_type: &str,
    content: &str,
    room_id: &str,
    facts: &Facts,
) -> (verdict: Verdict)
    ensures
        verdict@ == message_verdict(
            *config,
            sender_user@,
            event_type@,
            content@,
            room_id@,
            facts@,
        ),
{
    let kind = message_kind(event_type);
    if kind == MessageKind::Redaction && config.disable_local_redactions {
        match facts.sender_is_admin {
            None => {
                return Verdict::Ask(Question::IsAdmin { user: sender_user.to_owned() });
            },
            Some(is_admin) => {
                if !is_admin {
                    return refuse(
                        ErrorKind::Forbidden,
                        "Redactions are disabled on this server.",
                    );
                }
            },
        }
    }
    if kind == MessageKind::Encrypted && !config.allow_encryption {
        return refuse(ErrorKind::Forbidden, "Encryption has been disabled");
    }
    if kind == MessageKind::Reaction {
        return check_duplicate_reaction(sender_user, read_reaction(content), facts);
    }
    if kind == MessageKind::CallInvite {
        return check_public_call_invite(room_id, facts);
    }
    Verdict::Decided(Ok(()))
}

/// Checks a reaction, which is given by the event and the key.
pub fn check_duplicate_reaction(
    sender_user: &str,
    reaction: Option<(String, String)>,
    facts: &Facts,
) -> (verdict: Verdict)
    ensures
        verdict@ == reaction_verdict(sender_user@, reaction.deep_view(), facts@),
{
    let (event_id, key) = match reaction {
        Some(reaction) => reaction,
        None => {
            return Verdict::Decided(Ok(()));
        },
    };
    match facts.has_reacted {
        None => Verdict::Ask(Question::HasReacted { event_id, user: sender_user.to_owned(), key }),
        Some(has_reacted) => if has_reacted {
            refuse(ErrorKind::DuplicateAnnotation, "Duplicate reactions are not allowed.")
        } else {
            Verdict::Decided(Ok(()))
        },
    }
}

/// Checks a call invite.
pub fn check_public_call_invite(room_id: &str, facts: &Facts) -> (verdict: Verdict)
    ensures
        verdict@ == call_invite_verdict(room_id@, facts@),
{
    match facts.room_is_public {
        None => Verdict::Ask(Question::IsPublicRoom { room_id: room_id.to_owned() }),
        Some(is_public) => if is_public {
            refuse(
                ErrorKind::Forbidden,
                "Room call invites are not allowed in public rooms",
            )
        } else {
            Verdict::Decided(Ok(()))
        },
    }
}

/// The policy on server access rules: they must not shut this server, or every
/// server, out of the room. `admitted` says whether the rules, with their
/// wildcards, admit this server.
pub open spec fn acl_verdict(
    server_name: Seq<char>,
    content: Result<AclView, Seq<char>>,
    admitted: bool,
) -> VerdictView {
    match content {
        Err(complaint) => refused(
            ErrorKind::BadJson,
            "Room server ACL event is invalid: "@ + complaint,
        ),
        Ok(acl) => {
            let allows_all = acl.allow.contains("*"@);
            let denies_all = acl.deny.contains("*"@);
            let self_allowed = admitted || acl.allow.contains(server_name);
            if acl.allow.len() == 0 {
                refused(
                    ErrorKind::BadJson,
                    "Sending an ACL event with an empty allow key will permanently brick the room for non-tuwunel's as this equates to no servers being allowed to participate in this room."@,
                )
            } else if denies_all && allows_all {
                refused(
                    ErrorKind::BadJson,
                    "Sending an ACL event with a deny and allow key value of \"*\" will permanently brick the room for non-tuwunel's as this equates to no servers being allowed to participate in this room."@,
                )
            } else if denies_all && !self_allowed {
                refused(
                    ErrorKind::BadJson,
                    "Sending an ACL event with a deny key value of \"*\" and without your own server name in the allow key will result in you being unable to participate in this room."@,
                )
            } else if !allows_all && !self_allowed {
                refused(
                    ErrorKind::BadJson,
                    "Sending an ACL event for an allow key without \"*\" and without your own server name in the allow key will result in you being unable to participate in this room."@,
                )
            } else {
                allowed()
            }
        },
    }
}

/// The policy on join rules: the administrators' room cannot be made public.
pub open spec fn join_rules_verdict(
    room_id: Seq<char>,
    public: Result<bool, Seq<char>>,
    facts: FactsView,
) -> VerdictView {
    match facts.admin_room {
        None => VerdictView::Ask(QuestionView::AdminRoom),
        Some(None) => allowed(),
        Some(Some(admin_room)) => if admin_room != room_id {
            allowed()
        } else {
            match public {
                Err(complaint) => refused(
                    ErrorKind::BadJson,
                    "Room join rules event is invalid: "@ + complaint,
                ),
                Ok(true) => refused(
                    ErrorKind::Forbidden,
                    "Admin room is a sensitive room, it cannot be made public"@,
                ),
                Ok(false) => allowed(),
            }
        },
    }
}

/// The policy on history visibility: the administrators' room cannot be made
/// world readable. Where there is such a room, the content must be readable in
/// every room.
pub open spec fn history_verdict(
    room_id: Seq<char>,
    world_readable: Result<bool, Seq<char>>,
    facts: FactsView,
) -> VerdictView {
    match facts.admin_room {
        None => VerdictView::Ask(QuestionView::AdminRoom),
        Some(None) => allowed(),
        Some(Some(admin_room)) => match world_readable {
            Err(complaint) => refused(
                ErrorKind::BadJson,
                "Room history visibility event is invalid: "@ + complaint,
            ),
            Ok(world_readable) => if admin_room == room_id && world_readable {
                refused(
                    ErrorKind::Forbidden,
                    "Admin room is a sensitive room, it cannot be made world readable (public room history)."@,
                )
            } else {
                allowed()
            },
        },
    }
}

/// All aliases of a canonical alias content: the canonical one first.
pub open spec fn all_aliases(fields: (Option<Seq<char>>, Seq<Seq<char>>)) -> Seq<Seq<char>> {
    match fields.0 {
        Some(alias) => seq![alias] + fields.1,
        None => fields.1,
    }
}

/// The aliases of the room's canonical alias event, if it has a readable one:
/// what was read of it is given.
pub open spec fn current_aliases(
    fields: Option<Result<(Option<Seq<char>>, Seq<Seq<char>>), Seq<char>>>,
) -> Seq<Seq<char>> {
    match fields {
        Some(Ok(fields)) => all_aliases(fields),
        _ => Seq::empty(),
    }
}

/// What is read of the room's canonical alias event, where it has one.
pub open spec fn current_fields(content: Option<Seq<char>>) -> Option<
    Result<(Option<Seq<char>>, Seq<Seq<char>>), Seq<char>>,
> {
    match content {
        Some(json) => Some(alias_fields_of(json)),
        None => None,
    }
}

/// The aliases that are not among the current ones, in order.
pub open spec fn new_aliases(aliases: Seq<Seq<char>>, current: Seq<Seq<char>>) -> Seq<Seq<char>> {
    aliases.filter_map(
        |alias: Seq<char>|
            if current.contains(alias) {
                None
            } else {
                Some(alias)
            },
    )
}

/// What the resolutions of the aliases, which are asked for one by one, come to:
/// every alias must lead to the room.
pub open spec fn aliases_verdict(
    aliases: Seq<Seq<char>>,
    resolved: Seq<ResolutionView>,
    room_id: Seq<char>,
) -> VerdictView
    decreases aliases.len(),
{
    if aliases.len() == 0 {
        allowed()
    } else if resolved.len() == 0 {
        VerdictView::Ask(QuestionView::ResolveAlias { alias: aliases[0] })
    } else {
        match resolved[0] {
            ResolutionView::Failed(reason) => refused(
                ErrorKind::BadAlias,
                "Failed resolving alias \""@ + aliases[0] + "\": "@ + reason,
            ),
            ResolutionView::Room(alias_room) => if alias_room != room_id {
                refused(
                    ErrorKind::BadAlias,
                    "Room alias "@ + aliases[0] + " does not belong to room "@ + room_id,
                )
            } else {
                aliases_verdict(aliases.drop_first(), resolved.drop_first(), room_id)
            },
        }
    }
}

/// The policy on canonical aliases: the aliases that are new must lead to the
/// room. `current` are the aliases that the room has, where they are known.
pub open spec fn canonical_alias_verdict(
    room_id: Seq<char>,
    fields: Result<(Option<Seq<char>>, Seq<Seq<char>>), Seq<char>>,
    current: Option<Seq<Seq<char>>>,
    resolved: Seq<ResolutionView>,
) -> VerdictView {
    match fields {
        Err(complaint) => refused(
            ErrorKind::InvalidParam,
            "Room canonical alias event is invalid: "@ + complaint,
        ),
        Ok(fields) => match current {
            None => VerdictView::Ask(QuestionView::AliasContent { room_id }),
            Some(current) => aliases_verdict(
                new_aliases(all_aliases(fields), current),
                resolved,
                room_id,
            ),
        },
    }
}

/// The aliases that the room has, where its canonical alias event is known.
pub open spec fn known_aliases(facts: FactsView) -> Option<Seq<Seq<char>>> {
    match facts.alias_content {
        Some(content) => Some(current_aliases(current_fields(content))),
        None => None,
    }
}

/// The policy on invites: nobody invites a user of this server who has blocked
/// invites. `None` where it has nothing against the membership.
pub open spec fn invite_objection(
    membership: Membership,
    target_user: Seq<char>,
    facts: FactsView,
) -> Option<VerdictView> {
    if membership != Membership::Invite {
        None
    } else {
        match facts.target_is_local {
            None => Some(VerdictView::Ask(QuestionView::IsLocalTarget { user: target_user })),
            Some(false) => None,
            Some(true) => match facts.invites_blocked {
                None => Some(
                    VerdictView::Ask(QuestionView::InvitesBlocked { user: target_user }),
                ),
                Some(false) => None,
                Some(true) => Some(
                    refused(ErrorKind::InviteBlocked, target_user + " has blocked invites."@),
                ),
            },
        }
    }
}

/// The policy on joins that another user has authorised: it is a join, and that
/// user belongs to this server and is in the room.
pub open spec fn authoriser_verdict(
    room_id: Seq<char>,
    membership: Membership,
    authoriser: Seq<char>,
    facts: FactsView,
) -> VerdictView {
    if membership != Membership::Join {
        refused(
            ErrorKind::BadJson,
            "join_authorised_via_users_server is only for member joins"@,
        )
    } else {
        match facts.authoriser_is_local {
            None => VerdictView::Ask(QuestionView::IsLocalAuthoriser { user: authoriser }),
            Some(false) => refused(
                ErrorKind::InvalidParam,
                "Authorising user "@ + authoriser + " does not belong to this homeserver"@,
            ),
            Some(true) => match facts.authoriser_is_joined {
                None => VerdictView::Ask(QuestionView::IsJoined { user: authoriser, room_id }),
                Some(false) => refused(
                    ErrorKind::InvalidParam,
                    "Authorising user "@ + authoriser
                        + " is not in the room. They cannot authorise the join."@,
                ),
                Some(true) => allowed(),
            },
        }
    }
}

/// The policy on memberships. `names_user` says whether the state key is a user
/// ID.
pub open spec fn member_verdict(
    room_id: Seq<char>,
    state_key: Seq<char>,
    names_user: bool,
    content: Result<(Membership, Option<Seq<char>>), Seq<char>>,
    facts: FactsView,
) -> VerdictView {
    match content {
        Err(complaint) => refused(
            ErrorKind::BadJson,
            "Membership content must have a valid JSON body with at least a valid membership state: "@
                + complaint,
        ),
        Ok((membership, authoriser)) => if !names_user {
            refused(
                ErrorKind::BadJson,
                "Membership event has invalid or non-existent state key"@,
            )
        } else {
            match invite_objection(membership, state_key, facts) {
                Some(objection) => objection,
                None => match authoriser {
                    None => allowed(),
                    Some(user) => authoriser_verdict(room_id, membership, user, facts),
                },
            }
        },
    }
}

/// The policy on state events.
pub open spec fn state_verdict(
    config: Config,
    room_id: Seq<char>,
    event_type: Seq<char>,
    state_key: Seq<char>,
    json: Seq<char>,
    facts: FactsView,
) -> VerdictView {
    match state_kind_of(event_type) {
        StateKind::Create => refused(
            ErrorKind::BadJson,
            "You cannot update m.room.create after a room has been created."@,
        ),
        StateKind::ServerAcl => acl_verdict(
            config.server_name@,
            acl_of(json),
            acl_of(json) is Ok && acl_admits(acl_of(json)->Ok_0, config.server_name@),
        ),
        StateKind::Encryption => if config.allow_encryption {
            allowed()
        } else {
            refused(ErrorKind::Forbidden, "Encryption is disabled on this homeserver."@)
        },
        StateKind::JoinRules => join_rules_verdict(room_id, public_join_of(json), facts),
        StateKind::HistoryVisibility => history_verdict(room_id, world_readable_of(json), facts),
        StateKind::CanonicalAlias => canonical_alias_verdict(
            room_id,
            alias_fields_of(json),
            known_aliases(facts),
            facts.resolved,
        ),
        StateKind::Member => member_verdict(
            room_id,
            state_key,
            user_id_text(state_key),
            member_of(json),
            facts,
        ),
        StateKind::Other => allowed(),
    }
}

/// Checks whether a state event may be sent. `json` is the JSON text of its
/// content.
///
/// It holds for events that are sent at once and, when they are sent, for
/// delayed ones.
pub fn allowed_to_send_state_event(
    config: &Config,
    room_id: &String,
    event_type: &str,
    state_key: &str,
    json: &str,
    facts: &Facts,
) -> (verdict: Verdict)
    ensures
        verdict@ == state_verdict(*config, room_id@, event_type@, state_key@, json@, facts@),
{
    match state_kind(event_type) {
        StateKind::Create => refuse(
            ErrorKind::BadJson,
            "You cannot update m.room.create after a room has been created.",
        ),
        StateKind::ServerAcl => validate_server_acl(config, json),
        StateKind::Encryption => validate_encryption(config),
        StateKind::JoinRules => validate_join_rules(room_id, read_public_join(json), facts),
        StateKind::HistoryVisibility => validate_history_visibility(
            room_id,
            read_world_readable(json),
            facts,
        ),
        StateKind::CanonicalAlias => validate_canonical_alias(room_id, json, facts),
        StateKind::Member => validate_member(
            room_id,
            state_key,
            is_user_id(state_key),
            read_member(json),
            facts,
        ),
        StateKind::Other => Verdict::Decided(Ok(())),
    }
}

/// Checks that encryption may be turned on.
fn validate_encryption(config: &Config) -> (verdict: Verdict)
    ensures
        verdict@ == (if config.allow_encryption {
            allowed()
        } else {
            refused(ErrorKind::Forbidden, "Encryption is disabled on this homeserver."@)
        }),
{
    if config.allow_encryption {
        Verdict::Decided(Ok(()))
    } else {
        refuse(ErrorKind::Forbidden, "Encryption is disabled on this homeserver.")
    }
}

/// Whether the list holds the text.
fn contains_text(list: &Vec<String>, text: &str) -> (found: bool)
    ensures
        found == list.deep_view().contains(text@),
{
    let wanted = text.to_owned();
    let ghost all = list.deep_view();
    let mut i: usize = 0;
    while i < list.len()
        invariant
            i <= list.len(),
            all == list.deep_view(),
            wanted@ == text@,
            forall|j: int| 0 <= j < i ==> all[j] != text@,
        decreases list.len() - i,
    {
        if list[i] == wanted {
            assert(all[i as int] == text@);
            return true;
        }
        i += 1;
    }
    false
}

/// Checks server access rules.
fn validate_server_acl(config: &Config, json: &str) -> (verdict: Verdict)
    ensures
        verdict@ == acl_verdict(
            config.server_name@,
            acl_of(json@),
            acl_of(json@) is Ok && acl_admits(acl_of(json@)->Ok_0, config.server_name@),
        ),
{
    let content = read_acl(json);
    let admitted = match &content {
        Ok(acl) => acl_allows(acl, config.server_name.as_str()),
        Err(_) => false,
    };
    judge_server_acl(config.server_name.as_str(), content, admitted)
}

/// Checks server access rules that have been read. `admitted` says whether
/// they, with their wildcards, admit this server.
pub fn judge_server_acl(
    server_name: &str,
    content: Result<AclContent, String>,
    admitted: bool,
) -> (verdict: Verdict)
    ensures
        verdict@ == acl_verdict(server_name@, read_as(content), admitted),
{
    let acl = match content {
        Ok(acl) => acl,
        Err(complaint) => {
            return refuse_content(
                ErrorKind::BadJson,
                "Room server ACL event is invalid: ",
                complaint,
            );
        },
    };
    if acl.allow.len() == 0 {
        return refuse(
            ErrorKind::BadJson,
            "Sending an ACL event with an empty allow key will permanently brick the room for non-tuwunel's as this equates to no servers being allowed to participate in this room.",
        );
    }
    let denies_all = contains_text(&acl.deny, "*");
    let allows_all = contains_text(&acl.allow, "*");
    if denies_all && allows_all {
        return refuse(
            ErrorKind::BadJson,
            "Sending an ACL event with a deny and allow key value of \"*\" will permanently brick the room for non-tuwunel's as this equates to no servers being allowed to participate in this room.",
        );
    }
    let self_allowed = admitted || contains_text(&acl.allow, server_name);
    if denies_all && !self_allowed {
        return refuse(
            ErrorKind::BadJson,
            "Sending an ACL event with a deny key value of \"*\" and without your own server name in the allow key will result in you being unable to participate in this room.",
        );
    }
    if !allows_all && !self_allowed {
        return refuse(
            ErrorKind::BadJson,
            "Sending an ACL event for an allow key without \"*\" and without your own server name in the allow key will result in you being unable to participate in this room.",
        );
    }
    Verdict::Decided(Ok(()))
}

/// Checks join rules that have been read: `public` says whether everybody may
/// join.
pub fn validate_join_rules(
    room_id: &String,
    public: Result<bool, String>,
    facts: &Facts,
) -> (verdict: Verdict)
    ensures
        verdict@ == join_rules_verdict(room_id@, read_as(public), facts@),
{
    let admin_room = match &facts.admin_room {
        None => {
            return Verdict::Ask(Question::AdminRoom);
        },
        Some(None) => {
            return Verdict::Decided(Ok(()));
        },
        Some(Some(admin_room)) => admin_room,
    };
    if *admin_room != *room_id {
        return Verdict::Decided(Ok(()));
    }
    match public {
        Err(complaint) => refuse_content(
            ErrorKind::BadJson,
            "Room join rules event is invalid: ",
            complaint,
        ),
        Ok(public) => if public {
            refuse(
                ErrorKind::Forbidden,
                "Admin room is a sensitive room, it cannot be made public",
            )
        } else {
            Verdict::Decided(Ok(()))
        },
    }
}

/// Checks a history visibility that has been read: `world_readable` says
/// whether everybody may read the history.
pub fn validate_history_visibility(
    room_id: &String,
    world_readable: Result<bool, String>,
    facts: &Facts,
) -> (verdict: Verdict)
    ensures
        verdict@ == history_verdict(room_id@, read_as(world_readable), facts@),
{
    let admin_room = match &facts.admin_room {
        None => {
            return Verdict::Ask(Question::AdminRoom);
        },
        Some(None) => {
            return Verdict::Decided(Ok(()));
        },
        Some(Some(admin_room)) => admin_room,
    };
    match world_readable {
        Err(complaint) => refuse_content(
            ErrorKind::BadJson,
            "Room history visibility event is invalid: ",
            complaint,
        ),
        Ok(world_readable) => if *admin_room == *room_id && world_readable {
            refuse(
                ErrorKind::Forbidden,
                "Admin room is a sensitive room, it cannot be made world readable (public room history).",
            )
        } else {
            Verdict::Decided(Ok(()))
        },
    }
}

/// All aliases of a canonical alias content: the canonical one first.
fn list_aliases(alias: Option<String>, alt_aliases: Vec<String>) -> (aliases: Vec<String>)
    ensures
        aliases.deep_view() == all_aliases((alias.deep_view(), alt_aliases.deep_view())),
{
    match alias {
        None => alt_aliases,
        Some(alias) => {
            let ghost tail = alt_aliases.deep_view();
            let mut rest = alt_aliases;
            let mut aliases: Vec<String> = Vec::new();
            aliases.push(alias);
            aliases.append(&mut rest);
            assert(aliases.deep_view() =~= seq![alias@] + tail);
            aliases
        },
    }
}

/// The aliases of the room's canonical alias event, of which `fields` were
/// read.
pub fn list_current_aliases(
    fields: Option<Result<(Option<String>, Vec<String>), String>>,
) -> (aliases: Vec<String>)
    ensures
        aliases.deep_view() == current_aliases(
            match fields {
                Some(fields) => Some(read_as(fields)),
                None => None,
            },
        ),
{
    match fields {
        Some(Ok((alias, alt_aliases))) => list_aliases(alias, alt_aliases),
        _ => {
            let none: Vec<String> = Vec::new();
            assert(none.deep_view() =~= Seq::<Seq<char>>::empty());
            none
        },
    }
}

/// Checks a canonical alias.
fn validate_canonical_alias(room_id: &String, json: &str, facts: &Facts) -> (verdict: Verdict)
    ensures
        verdict@ == canonical_alias_verdict(
            room_id@,
            alias_fields_of(json@),
            known_aliases(facts@),
            facts@.resolved,
        ),
{
    let fields = read_alias_fields(json);
    let current = match &facts.alias_content {
        Some(content) => {
            let current_fields = match content {
                Some(json) => Some(read_alias_fields(json.as_str())),
                None => None,
            };
            Some(list_current_aliases(current_fields))
        },
        None => None,
    };
    judge_canonical_alias(room_id, fields, current, &facts.resolved)
}

/// Checks a canonical alias that has been read. `current` are the aliases that
/// the room has, where they are known.
pub fn judge_canonical_alias(
    room_id: &String,
    fields: Result<(Option<String>, Vec<String>), String>,
    current: Option<Vec<String>>,
    resolved: &Vec<Resolution>,
) -> (verdict: Verdict)
    ensures
        verdict@ == canonical_alias_verdict(
            room_id@,
            read_as(fields),
            current.deep_view(),
            resolved.deep_view(),
        ),
{
    let (alias, alt_aliases) = match fields {
        Ok(fields) => fields,
        Err(complaint) => {
            return refuse_content(
                ErrorKind::InvalidParam,
                "Room canonical alias event is invalid: ",
                complaint,
            );
        },
    };
    let current = match current {
        Some(current) => current,
        None => {
            return Verdict::Ask(Question::AliasContent { room_id: room_id.clone() });
        },
    };
    let aliases = list_aliases(alias, alt_aliases);
    let fresh = list_new_aliases(&aliases, &current);
    check_resolutions(&fresh, resolved, room_id)
}

/// The aliases that are not among the current ones.
fn list_new_aliases(aliases: &Vec<String>, current: &Vec<String>) -> (fresh: Vec<String>)
    ensures
        fresh.deep_view() == new_aliases(aliases.deep_view(), current.deep_view()),
{
    let ghost f = |alias: Seq<char>|
        if current.deep_view().contains(alias) {
            None
        } else {
            Some(alias)
        };
    let ghost all = aliases.deep_view();
    let mut fresh: Vec<String> = Vec::new();
    let mut i: usize = 0;
    assert(fresh.deep_view() =~= all.take(0).filter_map(f));
    while i < aliases.len()
        invariant
            i <= aliases.len(),
            all == aliases.deep_view(),
            forall|alias: Seq<char>| #[trigger]
                f(alias) == (if current.deep_view().contains(alias) {
                    None
                } else {
                    Some(alias)
                }),
            fresh.deep_view() == all.take(i as int).filter_map(f),
        decreases aliases.len() - i,
    {
        proof {
            all.lemma_filter_map_take_succ(f, i as int);
        }
        let ghost before = fresh.deep_view();
        if !contains_text(current, aliases[i].as_str()) {
            fresh.push(aliases[i].clone());
            assert(fresh.deep_view() =~= before + seq![aliases[i as int]@]);
        }
        i += 1;
    }
    assert(all.take(i as int) =~= all);
    fresh
}

/// Checks where the aliases lead.
fn check_resolutions(
    aliases: &Vec<String>,
    resolved: &Vec<Resolution>,
    room_id: &String,
) -> (verdict: Verdict)
    ensures
        verdict@ == aliases_verdict(aliases.deep_view(), resolved.deep_view(), room_id@),
{
    let ghost all = aliases.deep_view();
    let ghost answers = resolved.deep_view();
    let mut i: usize = 0;
    assert(all.skip(0) =~= all);
    assert(answers.skip(0) =~= answers);
    while i < aliases.len()
        invariant
            i <= aliases.len(),
            i <= resolved.len(),
            all == aliases.deep_view(),
            answers == resolved.deep_view(),
            aliases_verdict(all, answers, room_id@) == aliases_verdict(
                all.skip(i as int),
                answers.skip(i as int),
                room_id@,
            ),
        decreases aliases.len() - i,
    {
        proof {
            assert(all.skip(i as int)[0] == aliases[i as int]@);
            assert(all.skip(i as int).drop_first() =~= all.skip(i + 1));
        }
        if i >= resolved.len() {
            return Verdict::Ask(Question::ResolveAlias { alias: aliases[i].clone() });
        }
        proof {
            assert(answers.skip(i as int)[0] == resolved[i as int].deep_view());
            assert(answers.skip(i as int).drop_first() =~= answers.skip(i + 1));
        }
        match &resolved[i] {
            Resolution::Failed(reason) => {
                return Verdict::Decided(
                    Err(
                        Error {
                            kind: ErrorKind::BadAlias,
                            message: "Failed resolving alias \"".to_owned().concat(
                                aliases[i].as_str(),
                            ).concat("\": ").concat(reason.as_str()),
                        },
                    ),
                );
            },
            Resolution::Room(alias_room) => {
                if *alias_room != *room_id {
                    return Verdict::Decided(
                        Err(
                            Error {
                                kind: ErrorKind::BadAlias,
                                message: "Room alias ".to_owned().concat(
                                    aliases[i].as_str(),
                                ).concat(" does not belong to room ").concat(room_id.as_str()),
                            },
                        ),
                    );
                }
            },
        }
        i += 1;
    }
    Verdict::Decided(Ok(()))
}

/// Checks a membership that has been read. `names_user` says whether the state
/// key is a user ID.
pub fn validate_member(
    room_id: &String,
    state_key: &str,
    names_user: bool,
    content: Result<(Membership, Option<String>), String>,
    facts: &Facts,
) -> (verdict: Verdict)
    ensures
        verdict@ == member_verdict(room_id@, state_key@, names_user, read_as(content), facts@),
{
    let (membership, authoriser) = match content {
        Ok(content) => content,
        Err(complaint) => {
            return refuse_content(
                ErrorKind::BadJson,
                "Membership content must have a valid JSON body with at least a valid membership state: ",
                complaint,
            );
        },
    };
    if !names_user {
        return refuse(
            ErrorKind::BadJson,
            "Membership event has invalid or non-existent state key",
        );
    }
    if membership == Membership::Invite {
        match facts.target_is_local {
            None => {
                return Verdict::Ask(Question::IsLocalTarget { user: state_key.to_owned() });
            },
            Some(is_local) => if is_local {
                match facts.invites_blocked {
                    None => {
                        return Verdict::Ask(
                            Question::InvitesBlocked { user: state_key.to_owned() },
                        );
                    },
                    Some(blocked) => if blocked {
                        return Verdict::Decided(
                            Err(
                                Error {
                                    kind: ErrorKind::InviteBlocked,
                                    message: state_key.to_owned().concat(
                                        " has blocked invites.",
                                    ),
                                },
                            ),
                        );
                    },
                }
            },
        }
    }
    let authoriser = match authoriser {
        Some(authoriser) => authoriser,
        None => {
            return Verdict::Decided(Ok(()));
        },
    };
    if membership != Membership::Join {
        return refuse(
            ErrorKind::BadJson,
            "join_authorised_via_users_server is only for member joins",
        );
    }
    match facts.authoriser_is_local {
        None => Verdict::Ask(Question::IsLocalAuthoriser { user: authoriser }),
        Some(is_local) => if !is_local {
            Verdict::Decided(
                Err(
                    Error {
                        kind: ErrorKind::InvalidParam,
                        message: "Authorising user ".to_owned().concat(authoriser.as_str()).concat(
                            " does not belong to this homeserver",
                        ),
                    },
                ),
            )
        } else {
            match facts.authoriser_is_joined {
                None => Verdict::Ask(
                    Question::IsJoined { user: authoriser, room_id: room_id.clone() },
                ),
                Some(is_joined) => if is_joined {
                    Verdict::Decided(Ok(()))
                } else {
                    Verdict::Decided(
                        Err(
                            Error {
                                kind: ErrorKind::InvalidParam,
                                message: "Authorising user ".to_owned().concat(
                                    authoriser.as_str(),
                                ).concat(" is not in the room. They cannot authorise the join."),
                            },
                        ),
                    )
                },
            }
        },
    }
}

} // verus!
