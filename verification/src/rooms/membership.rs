//! Joining rooms.

use crate::error::{Error, ErrorKind, ErrorView};
use crate::json::{
    json_text, object_in, parse_object, parsed_object, text_in, Json, JsonObject, JsonView,
    ObjectView,
};
use crate::matrix::{is_user_id, parses_as_user_id, room_rules, rules_of};
use crate::order::same_str;
use crate::rooms::event_handler::upgrade_outlier_pdu::add_to_state;
use crate::rooms::pdu_metadata::{Data, DataView};
use crate::rooms::timeline::create::{fits, pdu_fits};
use crate::store::{counter_key, key1, Column};
use crate::text::glue;
use vstd::prelude::*;

verus! {

/// What has to be found out or done next to join a room.
pub enum JoinAsk {
    /// Whether the user is in the room.
    IsJoined,
    /// Whether the spam checker lets the user join.
    MayJoin,
    /// Whether this server is in the room.
    ServerInRoom,
    /// What the user's membership is in the room, as far as is known.
    Membership,
    /// Whether the spam checker accepts the join.
    AcceptJoin,
    /// Join the room locally.
    JoinLocal,
    /// Join the room over another server.
    JoinRemote,
    Done(Result<(), Error>),
}

/// What is known so far of a join.
pub struct JoinRoom {
    pub is_joined: Option<bool>,
    pub may_join: Option<bool>,
    pub server_in_room: Option<bool>,
    /// The user's membership, where it is known.
    pub membership: Option<Option<String>>,
    pub accept_join: Option<bool>,
    pub joined: Option<Result<(), Error>>,
}

impl JoinRoom {
    /// Nothing is known.
    pub fn new() -> (r: JoinRoom)
        ensures
            r == (JoinRoom {
                is_joined: None,
                may_join: None,
                server_in_room: None,
                membership: None,
                accept_join: None,
                joined: None,
            }),
    {
        JoinRoom {
            is_joined: None,
            may_join: None,
            server_in_room: None,
            membership: None,
            accept_join: None,
            joined: None,
        }
    }

    /// What is asked for, for a local user. `servers` tells whether any server was named
    /// to help with the join, `check_all_joins` whether the spam checker sees all joins.
    pub open spec fn asks(self, servers: bool, check_all_joins: bool) -> JoinAsk {
        match (self.is_joined, self.may_join, self.server_in_room) {
            (None, _, _) => JoinAsk::IsJoined,
            (Some(true), _, _) => JoinAsk::Done(Ok(())),
            (Some(false), None, _) => JoinAsk::MayJoin,
            (Some(false), Some(false), _) => JoinAsk::Done(
                Err(Error::Request(ErrorKind::Forbidden, "You are not allowed to join this room.")),
            ),
            (Some(false), Some(true), None) => JoinAsk::ServerInRoom,
            (Some(false), Some(true), Some(in_room)) => if in_room && self.membership is None {
                JoinAsk::Membership
            } else if in_room && self.is_banned() {
                JoinAsk::Done(
                    Err(Error::Request(ErrorKind::Forbidden, "You are banned from the room.")),
                )
            } else if !in_room && !servers {
                JoinAsk::Done(
                    Err(
                        Error::Request(
                            ErrorKind::NotFound,
                            "No servers were provided to assist in joining the room remotely, and we are not already participating in the room.",
                        ),
                    ),
                )
            } else if check_all_joins && self.accept_join is None {
                JoinAsk::AcceptJoin
            } else if check_all_joins && self.accept_join == Some(false) {
                JoinAsk::Done(
                    Err(Error::Request(ErrorKind::Forbidden, "Antispam rejected join request.")),
                )
            } else {
                match self.joined {
                    None => if in_room {
                        JoinAsk::JoinLocal
                    } else {
                        JoinAsk::JoinRemote
                    },
                    Some(result) => JoinAsk::Done(result),
                }
            },
        }
    }

    pub open spec fn is_banned(self) -> bool {
        self.membership matches Some(Some(membership)) && membership@ == "ban"@
    }

    /// What has to be found out or done next.
    pub fn join_room(&self, servers: bool, check_all_joins: bool) -> (r: JoinAsk)
        ensures
            r == self.asks(servers, check_all_joins),
    {
        match self.is_joined {
            None => {
                return JoinAsk::IsJoined;
            },
            Some(joined) => {
                if joined {
                    return JoinAsk::Done(Ok(()));
                }
            },
        }
        match self.may_join {
            None => {
                return JoinAsk::MayJoin;
            },
            Some(may_join) => {
                if !may_join {
                    return JoinAsk::Done(
                        Err(
                            Error::Request(
                                ErrorKind::Forbidden,
                                "You are not allowed to join this room.",
                            ),
                        ),
                    );
                }
            },
        }
        let in_room = match self.server_in_room {
            None => {
                return JoinAsk::ServerInRoom;
            },
            Some(in_room) => in_room,
        };
        if in_room {
            match &self.membership {
                None => {
                    return JoinAsk::Membership;
                },
                Some(Some(membership)) => {
                    if same_str(membership.as_str(), "ban") {
                        return JoinAsk::Done(
                            Err(
                                Error::Request(
                                    ErrorKind::Forbidden,
                                    "You are banned from the room.",
                                ),
                            ),
                        );
                    }
                },
                Some(None) => {},
            }
        }
        if !in_room && !servers {
            return JoinAsk::Done(
                Err(
                    Error::Request(
                        ErrorKind::NotFound,
                        "No servers were provided to assist in joining the room remotely, and we are not already participating in the room.",
                    ),
                ),
            );
        }
        if check_all_joins {
            match self.accept_join {
                None => {
                    return JoinAsk::AcceptJoin;
                },
                Some(accepted) => {
                    if !accepted {
                        return JoinAsk::Done(
                            Err(
                                Error::Request(
                                    ErrorKind::Forbidden,
                                    "Antispam rejected join request.",
                                ),
                            ),
                        );
                    }
                },
            }
        }
        match &self.joined {
            None => if in_room {
                JoinAsk::JoinLocal
            } else {
                JoinAsk::JoinRemote
            },
            Some(Ok(u)) => JoinAsk::Done(Ok(*u)),
            Some(Err(e)) => JoinAsk::Done(Err(e.clone())),
        }
    }
}

/// A user joins a room only if the spam checkers let them, and never locally where they are
/// known to be banned.
pub proof fn law_joined_only_if_allowed(known: JoinRoom, servers: bool, check_all_joins: bool)
    requires
        ({
            let ask = known.asks(servers, check_all_joins);
            ask is JoinLocal || ask is JoinRemote
        }),
    ensures
        known.is_joined == Some(false),
        known.may_join == Some(true),
        check_all_joins ==> known.accept_join == Some(true),
        known.asks(servers, check_all_joins) is JoinLocal <==> known.server_in_room == Some(true),
        known.asks(servers, check_all_joins) is JoinLocal ==> !known.is_banned(),
        known.asks(servers, check_all_joins) is JoinRemote ==> servers,
{
}

/// What has to be found out or done next to join a room that this server is in.
pub enum JoinLocalAsk {
    /// The room's version, whether its joins are restricted, and whether the user is
    /// invited.
    RoomFacts,
    /// Whether the user satisfies the room's restrictions.
    MayRestrictedJoin,
    /// A local user who can authorise the join.
    AuthorisingUser,
    /// Make the join event and append it.
    Append,
    /// Whether the room is known.
    RoomExists,
    /// Join over another server.
    JoinRemote,
    Done(Result<(), Error>),
}

/// What is known so far of a local join.
pub struct JoinLocal {
    pub room_version: Option<Result<String, Error>>,
    pub restricted: bool,
    pub is_invited: bool,
    pub may_restricted_join: Option<Result<bool, Error>>,
    /// A local user who can authorise the join, if there is one.
    pub authorising_user: Option<Option<String>>,
    pub appended: Option<Result<(), Error>>,
    pub room_exists: Option<bool>,
    pub joined_remotely: Option<Result<(), Error>>,
}

/// No server but this one was named to help with a join.
pub open spec fn no_help(servers: Seq<bool>) -> bool {
    servers.len() == 0 || servers.len() == 1 && servers[0]
}

impl JoinLocal {
    /// Nothing is known.
    pub fn new() -> (r: JoinLocal)
        ensures
            r == (JoinLocal {
                room_version: None,
                restricted: false,
                is_invited: false,
                may_restricted_join: None,
                authorising_user: None,
                appended: None,
                room_exists: None,
                joined_remotely: None,
            }),
    {
        JoinLocal {
            room_version: None,
            restricted: false,
            is_invited: false,
            may_restricted_join: None,
            authorising_user: None,
            appended: None,
            room_exists: None,
            joined_remotely: None,
        }
    }

    /// The version of the room, where it is known, has rules.
    pub open spec fn supported(self) -> bool {
        self.room_version matches Some(Ok(version)) ==> rules_of(version@) is Some
    }

    /// The join has to be authorised by another user.
    pub open spec fn needs_authorisation(self) -> bool {
        self.room_version matches Some(Ok(version)) && !self.is_invited && self.restricted
            && rules_of(version@)->Some_0.restricted_join_rule
    }

    /// The user who authorises the join.
    pub open spec fn authorised_via(self) -> Option<String> {
        if self.needs_authorisation() && self.may_restricted_join == Some(Ok::<bool, Error>(true)) {
            match self.authorising_user {
                Some(user) => user,
                None => None,
            }
        } else {
            None
        }
    }

    /// What is asked for. `servers` tells of each server named to help whether it is this
    /// one.
    pub open spec fn asks(self, servers: Seq<bool>) -> JoinLocalAsk {
        match self.room_version {
            None => JoinLocalAsk::RoomFacts,
            Some(Err(e)) => JoinLocalAsk::Done(Err(e)),
            Some(Ok(_)) => if self.needs_authorisation() && self.may_restricted_join is None {
                JoinLocalAsk::MayRestrictedJoin
            } else if self.needs_authorisation() && self.may_restricted_join == Some(
                Ok::<bool, Error>(true),
            ) && self.authorising_user is None {
                JoinLocalAsk::AuthorisingUser
            } else {
                match self.appended {
                    None => JoinLocalAsk::Append,
                    Some(Ok(_)) => JoinLocalAsk::Done(Ok(())),
                    Some(Err(e)) => if no_help(servers) {
                        match self.room_exists {
                            None => JoinLocalAsk::RoomExists,
                            Some(true) => JoinLocalAsk::Done(Err(e)),
                            Some(false) => JoinLocalAsk::Done(
                                Err(
                                    Error::RequestStatus(
                                        ErrorKind::Unknown,
                                        "Room was not found locally and no servers were found to help us discover it",
                                        404,
                                    ),
                                ),
                            ),
                        }
                    } else {
                        match self.joined_remotely {
                            None => JoinLocalAsk::JoinRemote,
                            Some(Ok(_)) => JoinLocalAsk::Done(Ok(())),
                            Some(Err(e)) => JoinLocalAsk::Done(Err(e)),
                        }
                    },
                }
            },
        }
    }

    /// What has to be found out or done next.
    pub fn join_local_room(&self, servers: &Vec<bool>) -> (r: JoinLocalAsk)
        requires
            self.supported(),
        ensures
            r == self.asks(servers@),
    {
        let version = match &self.room_version {
            None => {
                return JoinLocalAsk::RoomFacts;
            },
            Some(Err(e)) => {
                return JoinLocalAsk::Done(Err(e.clone()));
            },
            Some(Ok(version)) => version,
        };
        let restricted_join_rule = match room_rules(version.as_str()) {
            Some(rules) => rules.restricted_join_rule,
            None => false,
        };
        if !self.is_invited && self.restricted && restricted_join_rule {
            match &self.may_restricted_join {
                None => {
                    return JoinLocalAsk::MayRestrictedJoin;
                },
                Some(Ok(may)) => {
                    if *may && self.authorising_user.is_none() {
                        return JoinLocalAsk::AuthorisingUser;
                    }
                },
                Some(Err(_)) => {},
            }
        }
        let error = match &self.appended {
            None => {
                return JoinLocalAsk::Append;
            },
            Some(Ok(_)) => {
                return JoinLocalAsk::Done(Ok(()));
            },
            Some(Err(e)) => e,
        };
        if servers.len() == 0 || (servers.len() == 1 && servers[0]) {
            return match self.room_exists {
                None => JoinLocalAsk::RoomExists,
                Some(known) => if known {
                    JoinLocalAsk::Done(Err(error.clone()))
                } else {
                    JoinLocalAsk::Done(
                        Err(
                            Error::RequestStatus(
                                ErrorKind::Unknown,
                                "Room was not found locally and no servers were found to help us discover it",
                                404,
                            ),
                        ),
                    )
                },
            };
        }
        match &self.joined_remotely {
            None => JoinLocalAsk::JoinRemote,
            Some(Ok(_)) => JoinLocalAsk::Done(Ok(())),
            Some(Err(e)) => JoinLocalAsk::Done(Err(e.clone())),
        }
    }

    /// The user who authorises the join, to be named in the join event.
    pub fn join_authorised_via(&self) -> (r: Option<String>)
        requires
            self.supported(),
        ensures
            r == self.authorised_via(),
    {
        let version = match &self.room_version {
            Some(Ok(version)) => version,
            _ => {
                return None;
            },
        };
        let restricted_join_rule = match room_rules(version.as_str()) {
            Some(rules) => rules.restricted_join_rule,
            None => false,
        };
        if self.is_invited || !self.restricted || !restricted_join_rule {
            return None;
        }
        match &self.may_restricted_join {
            Some(Ok(may)) => {
                if !*may {
                    return None;
                }
            },
            _ => {
                return None;
            },
        }
        match &self.authorising_user {
            Some(Some(user)) => Some(user.clone()),
            _ => None,
        }
    }
}

/// A rule that lets users join a restricted room, with what is known about it.
pub enum AllowRule {
    /// Membership of another room.
    RoomMembership { server_in_room: bool, user_joined: bool },
    /// The spam checker's word, once it has been asked.
    SpamChecker { accepts: Option<bool> },
    /// A rule that is not understood.
    Unknown,
}

/// What has to be found out next about a restricted join.
pub enum RestrictedAsk {
    /// Whether the spam checker accepts the user.
    SpamChecker,
    Done(Result<bool, Error>),
}

/// What the rules up to the first one that decides make of a restricted join, or nothing
/// if none decides.
pub open spec fn decided_by(rules: Seq<AllowRule>) -> Option<RestrictedAsk>
    decreases rules.len(),
{
    if rules.len() == 0 {
        None
    } else {
        match decided_by(rules.drop_last()) {
            Some(result) => Some(result),
            None => match rules.last() {
                AllowRule::RoomMembership { server_in_room: true, user_joined: true } => Some(
                    RestrictedAsk::Done(Ok(true)),
                ),
                AllowRule::SpamChecker { accepts: None } => Some(RestrictedAsk::SpamChecker),
                AllowRule::SpamChecker { accepts: Some(true) } => Some(
                    RestrictedAsk::Done(Ok(true)),
                ),
                AllowRule::SpamChecker { accepts: Some(false) } => Some(
                    RestrictedAsk::Done(refused("Antispam rejected join request.")),
                ),
                _ => None,
            },
        }
    }
}

pub open spec fn refused(message: &'static str) -> Result<bool, Error> {
    Err(Error::Request(ErrorKind::Forbidden, message))
}

/// A rule that can be checked here.
pub open spec fn checkable(rule: AllowRule) -> bool {
    match rule {
        AllowRule::RoomMembership { server_in_room, .. } => server_in_room,
        AllowRule::SpamChecker { .. } => true,
        AllowRule::Unknown => false,
    }
}

/// What the rules make of a restricted join. Where none lets the user join, the answer
/// tells whether all could be checked.
pub open spec fn restricted_join(rules: Seq<AllowRule>) -> RestrictedAsk {
    if rules.len() == 0 {
        RestrictedAsk::Done(refused("You are not invited to this room."))
    } else {
        match decided_by(rules) {
            Some(ask) => ask,
            None => RestrictedAsk::Done(
                if forall|i: int| 0 <= i < rules.len() ==> checkable(#[trigger] rules[i]) {
                    refused(
                        "You do not belong to any of the rooms or spaces required to join this room.",
                    )
                } else {
                    Err(
                        Error::Request(
                            ErrorKind::UnableToAuthorizeJoin,
                            "You do not belong to any of the recognised rooms or spaces required to join this room, but this server is unable to verify every requirement. You may be able to join via another server.",
                        ),
                    )
                },
            ),
        }
    }
}

proof fn lemma_decided(rules: Seq<AllowRule>, n: int)
    requires
        0 <= n <= rules.len(),
        decided_by(rules.take(n)) is Some,
    ensures
        decided_by(rules) == decided_by(rules.take(n)),
    decreases rules.len(),
{
    if n == rules.len() {
        assert(rules.take(n) =~= rules);
    } else {
        assert(rules.drop_last().take(n) =~= rules.take(n));
        lemma_decided(rules.drop_last(), n);
    }
}

/// Checks whether the given user can join the given room via a restricted join. `rules` is
/// what the room is restricted to, or nothing where its joins are not restricted.
pub fn user_can_perform_restricted_join(rules: &Option<Vec<AllowRule>>) -> (r: RestrictedAsk)
    ensures
        r == match *rules {
            None => RestrictedAsk::Done(Ok(false)),
            Some(rules) => restricted_join(rules@),
        },
{
    match rules {
        None => RestrictedAsk::Done(Ok(false)),
        Some(rules) => check_allow_rules(rules),
    }
}

fn check_allow_rules(rules: &Vec<AllowRule>) -> (r: RestrictedAsk)
    ensures
        r == restricted_join(rules@),
{
    if rules.len() == 0 {
        return RestrictedAsk::Done(
            Err(Error::Request(ErrorKind::Forbidden, "You are not invited to this room.")),
        );
    }
    let mut could_satisfy = true;
    let mut i: usize = 0;
    while i < rules.len()
        invariant
            i <= rules@.len(),
            0 < rules@.len(),
            decided_by(rules@.take(i as int)) is None,
            could_satisfy == forall|j: int| 0 <= j < i ==> checkable(#[trigger] rules@[j]),
        decreases rules@.len() - i,
    {
        proof {
            assert(rules@.take(i + 1).drop_last() =~= rules@.take(i as int));
            assert(rules@.take(i + 1).last() == rules@[i as int]);
        }
        match &rules[i] {
            AllowRule::RoomMembership { server_in_room, user_joined } => {
                if !*server_in_room {
                    could_satisfy = false;
                } else if *user_joined {
                    proof {
                        lemma_decided(rules@, i + 1);
                    }
                    return RestrictedAsk::Done(Ok(true));
                }
            },
            AllowRule::SpamChecker { accepts } => {
                proof {
                    lemma_decided(rules@, i + 1);
                }
                return match *accepts {
                    None => RestrictedAsk::SpamChecker,
                    Some(accepts) => if accepts {
                        RestrictedAsk::Done(Ok(true))
                    } else {
                        RestrictedAsk::Done(
                            Err(
                                Error::Request(
                                    ErrorKind::Forbidden,
                                    "Antispam rejected join request.",
                                ),
                            ),
                        )
                    },
                };
            },
            AllowRule::Unknown => {
                could_satisfy = false;
            },
        }
        i = i + 1;
    }
    assert(rules@.take(i as int) =~= rules@);
    let wrong = if could_satisfy {
        Error::Request(
            ErrorKind::Forbidden,
            "You do not belong to any of the rooms or spaces required to join this room.",
        )
    } else {
        Error::Request(
            ErrorKind::UnableToAuthorizeJoin,
            "You do not belong to any of the recognised rooms or spaces required to join this room, but this server is unable to verify every requirement. You may be able to join via another server.",
        )
    };
    RestrictedAsk::Done(Err(wrong))
}

/// A restricted join is allowed only by membership of a room that can be checked here, or
/// by the spam checker.
pub proof fn law_restricted_join_needs_a_rule(rules: Seq<AllowRule>)
    requires
        restricted_join(rules) == RestrictedAsk::Done(Ok(true)),
    ensures
        exists|i: int|
            0 <= i < rules.len() && (#[trigger] rules[i] == (AllowRule::RoomMembership {
                server_in_room: true,
                user_joined: true,
            }) || rules[i] == (AllowRule::SpamChecker { accepts: Some(true) })),
{
    lemma_allowing_rule(rules);
}

proof fn lemma_allowing_rule(rules: Seq<AllowRule>)
    requires
        decided_by(rules) == Some(RestrictedAsk::Done(Ok(true))),
    ensures
        exists|i: int|
            0 <= i < rules.len() && (#[trigger] rules[i] == (AllowRule::RoomMembership {
                server_in_room: true,
                user_joined: true,
            }) || rules[i] == (AllowRule::SpamChecker { accepts: Some(true) })),
    decreases rules.len(),
{
    let shorter = rules.drop_last();
    if decided_by(shorter) is Some {
        lemma_allowing_rule(shorter);
        let i = choose|i: int|
            0 <= i < shorter.len() && (#[trigger] shorter[i] == (AllowRule::RoomMembership {
                server_in_room: true,
                user_joined: true,
            }) || shorter[i] == (AllowRule::SpamChecker { accepts: Some(true) }));
        assert(rules[i] == shorter[i]);
    } else {
        assert(rules[rules.len() - 1] == rules.last());
    }
}

/// Finds a user who is able to issue an invite in the target room: the first of the
/// candidates who can.
pub fn select_authorising_user(candidates: &Vec<String>, can_invite: &Vec<bool>) -> (r: Result<
    String,
    Error,
>)
    requires
        candidates@.len() == can_invite@.len(),
    ensures
        match r {
            Ok(user) => exists|i: int|
                0 <= i < candidates@.len() && #[trigger] can_invite@[i] && candidates@[i] == user
                    && forall|j: int| 0 <= j < i ==> !(#[trigger] can_invite@[j]),
            Err(e) => e == Error::Request(
                ErrorKind::UnableToGrantJoin,
                "No user on this server is able to assist in joining.",
            ) && forall|i: int| 0 <= i < can_invite@.len() ==> !(#[trigger] can_invite@[i]),
        },
{
    let mut i: usize = 0;
    while i < candidates.len()
        invariant
            i <= candidates@.len() == can_invite@.len(),
            forall|j: int| 0 <= j < i ==> !(#[trigger] can_invite@[j]),
        decreases candidates@.len() - i,
    {
        if can_invite[i] {
            return Ok(candidates[i].clone());
        }
        i = i + 1;
    }
    Err(
        Error::Request(
            ErrorKind::UnableToGrantJoin,
            "No user on this server is able to assist in joining.",
        ),
    )
}

/// The field is the string.
pub open spec fn field_is(object: ObjectView, name: Seq<char>, text: Seq<char>) -> bool {
    text_in(object, name) == Some(text)
}

/// What is wrong with a member event that another server prepared, if anything is.
pub open spec fn stub_wrong(
    membership: Seq<char>,
    user_id: Seq<char>,
    room_id: Seq<char>,
    stub: ObjectView,
) -> Option<&'static str> {
    if !stub.contains_key("type"@) {
        Some("Remote server returned member event with missing type field")
    } else if !field_is(stub, "type"@, "m.room.member"@) {
        Some("Remote server returned member event with invalid event type")
    } else if !stub.contains_key("sender"@) {
        Some("Remote server returned member event with missing sender field")
    } else if !field_is(stub, "sender"@, user_id) {
        Some("Remote server returned member event with incorrect sender")
    } else if !stub.contains_key("state_key"@) {
        Some("Remote server returned member event with missing state_key field")
    } else if !field_is(stub, "state_key"@, user_id) {
        Some("Remote server returned member event with incorrect state_key")
    } else if !stub.contains_key("room_id"@) {
        Some("Remote server returned member event with missing room_id field")
    } else if !field_is(stub, "room_id"@, room_id) {
        Some("Remote server returned member event with incorrect room_id")
    } else {
        match object_in(stub, "content"@) {
            None => Some("Remote server returned member event with missing content field"),
            Some(content) => if !content.contains_key("membership"@) {
                Some("Remote server returned member event with missing membership field")
            } else if !field_is(content, "membership"@, membership) {
                Some("Remote server returned member event with incorrect membership type")
            } else {
                None
            },
        }
    }
}

fn is_field(object: &JsonObject, name: &str, text: &str) -> (r: bool)
    ensures
        r == field_is(object@, name@, text@),
{
    match object.get_str(name) {
        Some(found) => same_str(found, text),
        None => false,
    }
}

/// Validates that an event returned from a remote server by `/make_*` actually is a
/// membership event with the expected fields.
///
/// Without checking this, the remote server could use the remote membership mechanism to
/// trick our server into signing arbitrary malicious events.
pub fn validate_remote_member_event_stub(
    membership: &str,
    user_id: &str,
    room_id: &str,
    event_stub: &JsonObject,
) -> (r: Result<(), Error>)
    ensures
        match stub_wrong(membership@, user_id@, room_id@, event_stub@) {
            None => r is Ok,
            Some(message) => r == Err::<(), Error>(Error::BadServerResponse(message)),
        },
{
    if !event_stub.contains_key("type") {
        return Err(
            Error::BadServerResponse("Remote server returned member event with missing type field"),
        );
    }
    if !is_field(event_stub, "type", "m.room.member") {
        return Err(
            Error::BadServerResponse("Remote server returned member event with invalid event type"),
        );
    }
    if !event_stub.contains_key("sender") {
        return Err(
            Error::BadServerResponse(
                "Remote server returned member event with missing sender field",
            ),
        );
    }
    if !is_field(event_stub, "sender", user_id) {
        return Err(
            Error::BadServerResponse("Remote server returned member event with incorrect sender"),
        );
    }
    if !event_stub.contains_key("state_key") {
        return Err(
            Error::BadServerResponse(
                "Remote server returned member event with missing state_key field",
            ),
        );
    }
    if !is_field(event_stub, "state_key", user_id) {
        return Err(
            Error::BadServerResponse("Remote server returned member event with incorrect state_key"),
        );
    }
    if !event_stub.contains_key("room_id") {
        return Err(
            Error::BadServerResponse(
                "Remote server returned member event with missing room_id field",
            ),
        );
    }
    if !is_field(event_stub, "room_id", room_id) {
        return Err(
            Error::BadServerResponse("Remote server returned member event with incorrect room_id"),
        );
    }
    let content = match event_stub.get_object("content") {
        None => {
            return Err(
                Error::BadServerResponse(
                    "Remote server returned member event with missing content field",
                ),
            );
        },
        Some(content) => content,
    };
    if !content.contains_key("membership") {
        return Err(
            Error::BadServerResponse(
                "Remote server returned member event with missing membership field",
            ),
        );
    }
    if !is_field(content, "membership", membership) {
        return Err(
            Error::BadServerResponse(
                "Remote server returned member event with incorrect membership type",
            ),
        );
    }
    Ok(())
}

/// A member event that passes names the user as its sender and its target, the room, and
/// the membership that was asked for.
pub proof fn law_valid_stub(
    membership: Seq<char>,
    user_id: Seq<char>,
    room_id: Seq<char>,
    stub: ObjectView,
)
    ensures
        stub_wrong(membership, user_id, room_id, stub) is None <==> {
            &&& text_in(stub, "type"@) == Some("m.room.member"@)
            &&& text_in(stub, "sender"@) == Some(user_id)
            &&& text_in(stub, "state_key"@) == Some(user_id)
            &&& text_in(stub, "room_id"@) == Some(room_id)
            &&& object_in(stub, "content"@) matches Some(content) && text_in(
                content,
                "membership"@,
            ) == Some(membership)
        },
{
}

/// Why a server did not prepare a join.
#[derive(Clone, Copy, Debug, PartialEq, Eq, Structural)]
pub enum JoinRefusal {
    UnableToAuthorizeJoin,
    UnableToGrantJoin,
    IncompatibleRoomVersion,
    Forbidden,
    NotFound,
    Other,
}

/// A server's answer to a request to prepare a join.
pub enum MakeJoinAnswer {
    /// The event that it prepared.
    Prepared(JsonObject),
    /// What it sent is no JSON object.
    Unreadable(Error),
    Refused(JoinRefusal),
}

/// What is done about it.
pub enum MakeJoinOutcome {
    /// The join goes on with this server.
    Accept,
    /// Another server is asked.
    TryNext,
    /// The join fails with the server's error.
    PassOn,
    Fail(Error),
}

/// What is done about a server's answer.
pub open spec fn make_join_outcome(
    user_id: Seq<char>,
    room_id: Seq<char>,
    answer: MakeJoinAnswer,
) -> MakeJoinOutcome {
    match answer {
        MakeJoinAnswer::Unreadable(e) => MakeJoinOutcome::Fail(e),
        MakeJoinAnswer::Prepared(stub) => if stub_wrong("join"@, user_id, room_id, stub@) is None {
            MakeJoinOutcome::Accept
        } else {
            MakeJoinOutcome::TryNext
        },
        MakeJoinAnswer::Refused(JoinRefusal::IncompatibleRoomVersion) => MakeJoinOutcome::PassOn,
        MakeJoinAnswer::Refused(JoinRefusal::Forbidden) => MakeJoinOutcome::PassOn,
        MakeJoinAnswer::Refused(_) => MakeJoinOutcome::TryNext,
    }
}

/// The first server from `at` on that is not this one.
pub open spec fn next_server(ours: Seq<bool>, at: int) -> Option<int>
    decreases ours.len() - at,
{
    if at < 0 || at >= ours.len() {
        None
    } else if !ours[at] {
        Some(at)
    } else {
        next_server(ours, at + 1)
    }
}

/// The server to ask next to prepare a join, from `at` on. `ours` tells of each server
/// whether it is this one.
pub fn make_join_request(ours: &Vec<bool>, at: usize) -> (r: Result<usize, Error>)
    ensures
        match next_server(ours@, at as int) {
            Some(i) => r == Ok::<usize, Error>(i as usize) && at <= i < ours@.len(),
            None => r == Err::<usize, Error>(
                Error::BadServerResponse("No server available to assist in joining."),
            ),
        },
{
    let mut i: usize = at;
    while i < ours.len()
        invariant
            at <= i,
            next_server(ours@, at as int) == next_server(ours@, i as int),
        decreases ours@.len() - i,
    {
        if !ours[i] {
            return Ok(i);
        }
        i = i + 1;
    }
    Err(Error::BadServerResponse("No server available to assist in joining."))
}

/// What is done about a server's answer to a request to prepare a join.
pub fn on_make_join(user_id: &str, room_id: &str, answer: MakeJoinAnswer) -> (r: MakeJoinOutcome)
    ensures
        r == make_join_outcome(user_id@, room_id@, answer),
{
    match answer {
        MakeJoinAnswer::Unreadable(e) => MakeJoinOutcome::Fail(e),
        MakeJoinAnswer::Prepared(stub) => match validate_remote_member_event_stub(
            "join",
            user_id,
            room_id,
            &stub,
        ) {
            Ok(_) => MakeJoinOutcome::Accept,
            Err(_) => MakeJoinOutcome::TryNext,
        },
        MakeJoinAnswer::Refused(refusal) => match refusal {
            JoinRefusal::IncompatibleRoomVersion => MakeJoinOutcome::PassOn,
            JoinRefusal::Forbidden => MakeJoinOutcome::PassOn,
            _ => MakeJoinOutcome::TryNext,
        },
    }
}

/// What a join event says of the user who joins.
pub struct JoinContent {
    pub displayname: Option<String>,
    pub avatar_url: Option<String>,
    pub reason: Option<String>,
    pub join_authorised_via_users_server: Option<String>,
}

/// A field that is there if there is a text for it.
pub open spec fn with_optional(
    object: ObjectView,
    name: Seq<char>,
    text: Option<String>,
) -> ObjectView {
    match text {
        Some(t) => object.insert(name, JsonView::String(t@)),
        None => object,
    }
}

/// The content of a join event.
pub open spec fn content_of_join(content: JoinContent) -> ObjectView {
    let plain = ObjectView::empty().insert("membership"@, JsonView::String("join"@));
    let named = with_optional(plain, "displayname"@, content.displayname);
    let pictured = with_optional(named, "avatar_url"@, content.avatar_url);
    let explained = with_optional(pictured, "reason"@, content.reason);
    with_optional(
        explained,
        "join_authorised_via_users_server"@,
        content.join_authorised_via_users_server,
    )
}

fn set_text(object: &mut JsonObject, name: &str, text: Option<String>)
    ensures
        final(object)@ == with_optional(old(object)@, name@, text),
{
    if let Some(t) = text {
        object.insert(name, Json::String(t));
    }
}

/// The content of a join event.
pub fn join_content(content: JoinContent) -> (r: JsonObject)
    ensures
        r@ == content_of_join(content),
{
    let mut object = JsonObject::new();
    object.insert("membership", Json::String("join".to_owned()));
    set_text(&mut object, "displayname", content.displayname);
    set_text(&mut object, "avatar_url", content.avatar_url);
    set_text(&mut object, "reason", content.reason);
    set_text(
        &mut object,
        "join_authorised_via_users_server",
        content.join_authorised_via_users_server,
    );
    object
}

/// The user who authorises a join that another server prepared, under the room's rules.
pub open spec fn stub_authorised_via(stub: ObjectView, version: Seq<char>) -> Option<Seq<char>> {
    if rules_of(version) matches Some(rules) && rules.check_join_authorised_via_users_server {
        match object_in(stub, "content"@) {
            None => None,
            Some(content) => match text_in(content, "join_authorised_via_users_server"@) {
                Some(user) => if is_user_id(user) {
                    Some(user)
                } else {
                    None
                },
                None => None,
            },
        }
    } else {
        None
    }
}

/// The user who authorises a join that another server prepared.
pub fn authorised_via(stub: &JsonObject, version: &str) -> (r: Option<String>)
    ensures
        match r {
            Some(user) => stub_authorised_via(stub@, version@) == Some(user@),
            None => stub_authorised_via(stub@, version@) is None,
        },
{
    let checks = match room_rules(version) {
        Some(rules) => rules.check_join_authorised_via_users_server,
        None => false,
    };
    if !checks {
        return None;
    }
    match stub.get_object("content") {
        None => None,
        Some(content) => match content.get_str("join_authorised_via_users_server") {
            Some(user) => {
                if parses_as_user_id(user) {
                    Some(user.to_owned())
                } else {
                    None
                }
            },
            None => None,
        },
    }
}

/// Reads the event that another server prepared.
pub fn read_stub(text: &str) -> (r: Result<JsonObject, Error>)
    ensures
        match parsed_object(text@) {
            Ok(stub) => r matches Ok(read) && read@ == stub,
            Err(wrong) => r matches Err(e) && e@ == ErrorView::BadServerResponseAbout(
                "Invalid make_join event json received from server",
                wrong,
            ),
        },
{
    match parse_object(text) {
        Ok(stub) => Ok(stub),
        Err(wrong) => Err(
            Error::BadServerResponseAbout(
                "Invalid make_join event json received from server",
                wrong,
            ),
        ),
    }
}

/// The join event of one that another server prepared: with the time, this server's content,
/// and no ID.
pub open spec fn prepared_join(
    stub: ObjectView,
    now_ms: i64,
    content: JoinContent,
) -> ObjectView {
    stub.insert("origin_server_ts"@, JsonView::Integer(now_ms)).insert(
        "content"@,
        JsonView::Object(content_of_join(content)),
    ).remove("event_id"@)
}

/// Makes the join event of one that another server prepared, under the rules of the room's
/// version: the user who authorises the join is the one whom the prepared event names. Tells
/// who that is, too.
pub fn fill_in_stub(
    stub: JsonObject,
    version: &str,
    now_ms: i64,
    displayname: Option<String>,
    avatar_url: Option<String>,
    reason: Option<String>,
) -> (r: (JsonObject, Option<String>))
    ensures
        match r.1 {
            Some(user) => stub_authorised_via(stub@, version@) == Some(user@),
            None => stub_authorised_via(stub@, version@) is None,
        },
        r.0@ == prepared_join(
            stub@,
            now_ms,
            (JoinContent {
                displayname,
                avatar_url,
                reason,
                join_authorised_via_users_server: r.1,
            }),
        ),
{
    let via = authorised_via(&stub, version);
    let content = JoinContent {
        displayname,
        avatar_url,
        reason,
        join_authorised_via_users_server: match &via {
            Some(user) => Some(user.clone()),
            None => None,
        },
    };
    (prepare_join_event(stub, now_ms, content), via)
}

/// Makes the join event of one that another server prepared: with the time, this server's
/// content, and no ID.
pub fn prepare_join_event(stub: JsonObject, now_ms: i64, content: JoinContent) -> (r: JsonObject)
    ensures
        r@ == prepared_join(stub@, now_ms, content),
{
    let mut event = stub;
    event.insert("origin_server_ts", Json::Integer(now_ms));
    event.insert("content", Json::Object(join_content(content)));
    event.remove("event_id");
    event
}

/// The signatures of the server that helped with a restricted join, as the event that it
/// sent back carries them.
pub open spec fn sent_signature(signed: ObjectView, server: Seq<char>) -> Option<JsonView> {
    match object_in(signed, "signatures"@) {
        Some(signatures) => signatures.get(server),
        None => None,
    }
}

/// Takes the signatures of the server that helped with a restricted join over into our
/// event. Where the server did not send any, the event stays as it is.
pub fn take_signature(
    join_event: &mut JsonObject,
    signed_event_id: &str,
    event_id: &str,
    signed: JsonObject,
    server: &str,
) -> (r: Result<(), Error>)
    requires
        object_in(old(join_event)@, "signatures"@) is Some,
        signed@.contains_key("signatures"@),
    ensures
        if signed_event_id@ != event_id@ {
            &&& r matches Err(e) && e@ == ErrorView::RequestText(
                ErrorKind::BadJson,
                "Server "@ + server@ + " sent event with wrong event ID"@,
            )
            &&& final(join_event)@ == old(join_event)@
        } else {
            &&& r is Ok
            &&& final(join_event)@ == match sent_signature(signed@, server@) {
                None => old(join_event)@,
                Some(signature) => old(join_event)@.insert(
                    "signatures"@,
                    JsonView::Object(
                        object_in(old(join_event)@, "signatures"@)->Some_0.insert(
                            server@,
                            signature,
                        ),
                    ),
                ),
            }
        },
{
    if !same_str(signed_event_id, event_id) {
        let start = glue("Server ", server);
        let text = glue(start.as_str(), " sent event with wrong event ID");
        return Err(Error::RequestText(ErrorKind::BadJson, text));
    }
    let mut signed = signed;
    let signature = match signed.take("signatures") {
        Some(Json::Object(o)) => {
            let mut signatures = o;
            signatures.take(server)
        },
        _ => None,
    };
    if let Some(signature) = signature {
        let mut signatures = match join_event.take("signatures") {
            Some(Json::Object(o)) => o,
            _ => JsonObject::new(),
        };
        signatures.insert(server, signature);
        join_event.insert("signatures", Json::Object(signatures));
        proof {
            assert(join_event@ =~= old(join_event)@.insert(
                "signatures"@,
                JsonView::Object(signatures@),
            ));
        }
    }
    Ok(())
}

/// Takes an event of the room's state, as the server that helped with the join sent it,
/// into the state: unless it is malformed or does not fit, its markers are cleared, and a
/// state event gets its place. `short_state_key` numbers the event's type and state key,
/// where it has one. Tells whether the event is to be kept as an outlier.
pub fn admit_state_event(
    data: &mut Data,
    state: &mut Column<String>,
    event_id: &str,
    value: &JsonObject,
    well_formed: bool,
    short_state_key: Option<u64>,
) -> (r: bool)
    ensures
        r == (well_formed && fits(value@, json_text(value@))),
        if r {
            &&& final(data)@ == (DataView {
                soft_failed: old(data)@.soft_failed.remove(key1(event_id@)),
                rejected: old(data)@.rejected.remove(key1(event_id@)),
                ..old(data)@
            })
            &&& final(state)@ == match short_state_key {
                Some(key) => old(state)@.insert(counter_key(key, 0), event_id@),
                None => old(state)@,
            }
        } else {
            final(data)@ == old(data)@ && final(state)@ == old(state)@
        },
{
    if !well_formed || !pdu_fits(value) {
        return false;
    }
    data.unmark_pdu(event_id);
    if let Some(key) = short_state_key {
        add_to_state(state, key, event_id);
    }
    true
}

/// What has to be found out or done next to join a room over another server.
pub enum JoinRemoteAsk {
    /// Ask the servers to prepare the join.
    MakeJoin,
    /// Whether this server supports the room's version.
    Supported,
    /// Read the prepared event.
    ReadStub,
    /// Hash and sign the join event.
    Sign,
    /// Compute the event's ID and put it in.
    EventId,
    /// Send the event to the server that prepared it.
    SendJoin,
    /// Read the event that the server sent back, and take its signature over.
    TakeSignature,
    /// Turn our event into an event of the room.
    Decode,
    /// Take in the state and the auth chain that the server sent.
    TakeState,
    /// Whether our event is authorised by that state.
    AuthCheck,
    /// Compress and save the state.
    Save,
    /// Make it the room's state.
    Force,
    /// Add our event to the state.
    AppendToState,
    /// Append our event to the timeline.
    AppendPdu,
    /// Set the room's final state.
    SetState,
    Done(Result<(), Error>),
}

/// The mathematical value of a [`JoinRemoteAsk`].
pub enum JoinRemoteAskView {
    MakeJoin,
    Supported,
    ReadStub,
    Sign,
    EventId,
    SendJoin,
    TakeSignature,
    Decode,
    TakeState,
    AuthCheck,
    Save,
    Force,
    AppendToState,
    AppendPdu,
    SetState,
    Done(Result<(), ErrorView>),
}

impl View for JoinRemoteAsk {
    type V = JoinRemoteAskView;

    open spec fn view(&self) -> JoinRemoteAskView {
        match *self {
            JoinRemoteAsk::MakeJoin => JoinRemoteAskView::MakeJoin,
            JoinRemoteAsk::Supported => JoinRemoteAskView::Supported,
            JoinRemoteAsk::ReadStub => JoinRemoteAskView::ReadStub,
            JoinRemoteAsk::Sign => JoinRemoteAskView::Sign,
            JoinRemoteAsk::EventId => JoinRemoteAskView::EventId,
            JoinRemoteAsk::SendJoin => JoinRemoteAskView::SendJoin,
            JoinRemoteAsk::TakeSignature => JoinRemoteAskView::TakeSignature,
            JoinRemoteAsk::Decode => JoinRemoteAskView::Decode,
            JoinRemoteAsk::TakeState => JoinRemoteAskView::TakeState,
            JoinRemoteAsk::AuthCheck => JoinRemoteAskView::AuthCheck,
            JoinRemoteAsk::Save => JoinRemoteAskView::Save,
            JoinRemoteAsk::Force => JoinRemoteAskView::Force,
            JoinRemoteAsk::AppendToState => JoinRemoteAskView::AppendToState,
            JoinRemoteAsk::AppendPdu => JoinRemoteAskView::AppendPdu,
            JoinRemoteAsk::SetState => JoinRemoteAskView::SetState,
            JoinRemoteAsk::Done(Ok(_)) => JoinRemoteAskView::Done(Ok(())),
            JoinRemoteAsk::Done(Err(e)) => JoinRemoteAskView::Done(Err(e@)),
        }
    }
}

/// What is known so far of a join over another server.
pub struct JoinRemote {
    /// The version of the room that a server prepared the join for.
    pub prepared: Option<Result<String, Error>>,
    pub supported: Option<bool>,
    /// The user who authorises the join, if the prepared event could be read.
    pub stub: Option<Result<Option<String>, Error>>,
    pub signed: Option<Result<(), Error>>,
    pub event_id: Option<Result<(), Error>>,
    /// Whether the server sent our event back.
    pub sent: Option<Result<bool, Error>>,
    pub signature: Option<Result<(), Error>>,
    pub decoded: Option<Result<(), Error>>,
    pub state_taken: bool,
    pub auth_check: Option<Result<bool, String>>,
    pub saved: Option<Result<(), Error>>,
    pub forced: Option<Result<(), Error>>,
    pub appended_to_state: Option<Result<(), Error>>,
    pub appended: Option<Result<(), Error>>,
    pub state_set: bool,
}

/// What is said of a room version that this server does not support.
pub open spec fn unsupported_version(version: Seq<char>) -> Seq<char> {
    "Remote room version "@ + version + " is not supported"@
}

impl JoinRemote {
    /// Nothing is known.
    pub fn new() -> (r: JoinRemote)
        ensures
            r == (JoinRemote {
                prepared: None,
                supported: None,
                stub: None,
                signed: None,
                event_id: None,
                sent: None,
                signature: None,
                decoded: None,
                state_taken: false,
                auth_check: None,
                saved: None,
                forced: None,
                appended_to_state: None,
                appended: None,
                state_set: false,
            }),
    {
        JoinRemote {
            prepared: None,
            supported: None,
            stub: None,
            signed: None,
            event_id: None,
            sent: None,
            signature: None,
            decoded: None,
            state_taken: false,
            auth_check: None,
            saved: None,
            forced: None,
            appended_to_state: None,
            appended: None,
            state_set: false,
        }
    }

    pub open spec fn asks(self) -> JoinRemoteAskView {
        match (self.prepared, self.supported, self.stub, self.signed, self.event_id) {
            (None, _, _, _, _) => JoinRemoteAskView::MakeJoin,
            (Some(Err(e)), _, _, _, _) => JoinRemoteAskView::Done(Err(e@)),
            (_, None, _, _, _) => JoinRemoteAskView::Supported,
            (Some(Ok(version)), Some(false), _, _, _) => JoinRemoteAskView::Done(
                Err(ErrorView::BadServerResponseText(unsupported_version(version@))),
            ),
            (_, _, None, _, _) => JoinRemoteAskView::ReadStub,
            (_, _, Some(Err(e)), _, _) => JoinRemoteAskView::Done(Err(e@)),
            (_, _, _, None, _) => JoinRemoteAskView::Sign,
            (_, _, _, Some(Err(e)), _) => JoinRemoteAskView::Done(Err(e@)),
            (_, _, _, _, None) => JoinRemoteAskView::EventId,
            (_, _, _, _, Some(Err(e))) => JoinRemoteAskView::Done(Err(e@)),
            _ => self.asks_send(),
        }
    }

    /// The signature of the server that helped has to be taken over: the join is
    /// authorised by a user, and the server sent our event back.
    pub open spec fn takes_signature(self) -> bool {
        (self.stub matches Some(Ok(Some(_)))) && self.sent == Some(Ok::<bool, Error>(true))
    }

    pub open spec fn asks_send(self) -> JoinRemoteAskView {
        match self.sent {
            None => JoinRemoteAskView::SendJoin,
            Some(Err(e)) => JoinRemoteAskView::Done(Err(e@)),
            Some(Ok(_)) => if self.takes_signature() && self.signature is None {
                JoinRemoteAskView::TakeSignature
            } else if self.takes_signature() && self.signature->Some_0 is Err {
                JoinRemoteAskView::Done(Err(self.signature->Some_0->Err_0@))
            } else {
                match self.decoded {
                    None => JoinRemoteAskView::Decode,
                    Some(Err(e)) => JoinRemoteAskView::Done(Err(e@)),
                    Some(Ok(_)) => if !self.state_taken {
                        JoinRemoteAskView::TakeState
                    } else {
                        self.asks_state()
                    },
                }
            },
        }
    }

    pub open spec fn asks_state(self) -> JoinRemoteAskView {
        match (
            self.auth_check,
            self.saved,
            self.forced,
            self.appended_to_state,
            self.appended,
        ) {
            (None, _, _, _, _) => JoinRemoteAskView::AuthCheck,
            (Some(Err(reason)), _, _, _, _) => JoinRemoteAskView::Done(
                Err(ErrorView::RequestAbout(ErrorKind::Forbidden, "Auth check failed", reason@)),
            ),
            (Some(Ok(false)), _, _, _, _) => JoinRemoteAskView::Done(
                Err(ErrorView::Request(ErrorKind::Forbidden, "Auth check failed")),
            ),
            (_, None, _, _, _) => JoinRemoteAskView::Save,
            (_, Some(Err(e)), _, _, _) => JoinRemoteAskView::Done(Err(e@)),
            (_, _, None, _, _) => JoinRemoteAskView::Force,
            (_, _, Some(Err(e)), _, _) => JoinRemoteAskView::Done(Err(e@)),
            (_, _, _, None, _) => JoinRemoteAskView::AppendToState,
            (_, _, _, Some(Err(e)), _) => JoinRemoteAskView::Done(Err(e@)),
            (_, _, _, _, None) => JoinRemoteAskView::AppendPdu,
            (_, _, _, _, Some(Err(e))) => JoinRemoteAskView::Done(Err(e@)),
            _ => if self.state_set {
                JoinRemoteAskView::Done(Ok(()))
            } else {
                JoinRemoteAskView::SetState
            },
        }
    }

    /// The event that a server prepared has been received: it is read, and filled in under the
    /// rules of the version that it was prepared for.
    pub fn on_stub(
        &mut self,
        text: &str,
        now_ms: i64,
        displayname: Option<String>,
        avatar_url: Option<String>,
        reason: Option<String>,
    ) -> (r: Option<JsonObject>)
        requires
            old(self).prepared matches Some(Ok(_)),
        ensures
            *final(self) == (JoinRemote { stub: final(self).stub, ..*old(self) }),
            match parsed_object(text@) {
                Err(wrong) => {
                    &&& r is None
                    &&& final(self).stub matches Some(Err(e)) && e@
                        == ErrorView::BadServerResponseAbout(
                        "Invalid make_join event json received from server",
                        wrong,
                    )
                },
                Ok(stub) => {
                    let named = stub_authorised_via(stub, old(self).prepared->Some_0->Ok_0@);
                    &&& final(self).stub matches Some(Ok(via)) && match via {
                        Some(user) => named == Some(user@),
                        None => named is None,
                    }
                    &&& r matches Some(event) && event@ == prepared_join(
                        stub,
                        now_ms,
                        (JoinContent {
                            displayname,
                            avatar_url,
                            reason,
                            join_authorised_via_users_server: final(self).stub->Some_0->Ok_0,
                        }),
                    )
                },
            },
    {
        let version = match &self.prepared {
            Some(Ok(version)) => version.clone(),
            _ => String::new(),
        };
        match read_stub(text) {
            Err(e) => {
                self.stub = Some(Err(e));
                None
            },
            Ok(stub) => {
                let (event, via) = fill_in_stub(
                    stub,
                    version.as_str(),
                    now_ms,
                    displayname,
                    avatar_url,
                    reason,
                );
                self.stub = Some(Ok(via));
                Some(event)
            },
        }
    }

    /// The ID of the join event is known: it is put in.
    pub fn on_event_id(&mut self, event: &mut JsonObject, event_id: Result<&str, Error>)
        ensures
            match event_id {
                Ok(id) => {
                    &&& final(event)@ == old(event)@.insert("event_id"@, JsonView::String(id@))
                    &&& *final(self) == (JoinRemote { event_id: Some(Ok(())), ..*old(self) })
                },
                Err(e) => {
                    &&& final(event)@ == old(event)@
                    &&& *final(self) == (JoinRemote { event_id: Some(Err(e)), ..*old(self) })
                },
            },
    {
        match event_id {
            Ok(id) => {
                event.insert("event_id", Json::String(id.to_owned()));
                self.event_id = Some(Ok(()));
            },
            Err(e) => {
                self.event_id = Some(Err(e));
            },
        }
    }

    /// What has to be found out or done next.
    pub fn join_remote_room(&self) -> (r: JoinRemoteAsk)
        ensures
            r@ == self.asks(),
    {
        let version = match &self.prepared {
            None => {
                return JoinRemoteAsk::MakeJoin;
            },
            Some(Err(e)) => {
                return JoinRemoteAsk::Done(Err(e.clone()));
            },
            Some(Ok(version)) => version,
        };
        match self.supported {
            None => {
                return JoinRemoteAsk::Supported;
            },
            Some(supported) => {
                if !supported {
                    let start = glue("Remote room version ", version.as_str());
                    let text = glue(start.as_str(), " is not supported");
                    return JoinRemoteAsk::Done(Err(Error::BadServerResponseText(text)));
                }
            },
        }
        match &self.stub {
            None => {
                return JoinRemoteAsk::ReadStub;
            },
            Some(Err(e)) => {
                return JoinRemoteAsk::Done(Err(e.clone()));
            },
            Some(Ok(_)) => {},
        }
        match &self.signed {
            None => {
                return JoinRemoteAsk::Sign;
            },
            Some(Err(e)) => {
                return JoinRemoteAsk::Done(Err(e.clone()));
            },
            Some(Ok(_)) => {},
        }
        match &self.event_id {
            None => {
                return JoinRemoteAsk::EventId;
            },
            Some(Err(e)) => {
                return JoinRemoteAsk::Done(Err(e.clone()));
            },
            Some(Ok(_)) => {},
        }
        self.next_send()
    }

    fn next_send(&self) -> (r: JoinRemoteAsk)
        ensures
            r@ == self.asks_send(),
    {
        let sent_back = match &self.sent {
            None => {
                return JoinRemoteAsk::SendJoin;
            },
            Some(Err(e)) => {
                return JoinRemoteAsk::Done(Err(e.clone()));
            },
            Some(Ok(sent_back)) => *sent_back,
        };
        if sent_back && matches!(&self.stub, Some(Ok(Some(_)))) {
            match &self.signature {
                None => {
                    return JoinRemoteAsk::TakeSignature;
                },
                Some(Err(e)) => {
                    return JoinRemoteAsk::Done(Err(e.clone()));
                },
                Some(Ok(_)) => {},
            }
        }
        match &self.decoded {
            None => {
                return JoinRemoteAsk::Decode;
            },
            Some(Err(e)) => {
                return JoinRemoteAsk::Done(Err(e.clone()));
            },
            Some(Ok(_)) => {},
        }
        if !self.state_taken {
            return JoinRemoteAsk::TakeState;
        }
        self.next_state()
    }

    fn next_state(&self) -> (r: JoinRemoteAsk)
        ensures
            r@ == self.asks_state(),
    {
        match &self.auth_check {
            None => {
                return JoinRemoteAsk::AuthCheck;
            },
            Some(Err(reason)) => {
                return JoinRemoteAsk::Done(
                    Err(
                        Error::RequestAbout(
                            ErrorKind::Forbidden,
                            "Auth check failed",
                            reason.clone(),
                        ),
                    ),
                );
            },
            Some(Ok(passes)) => {
                if !*passes {
                    return JoinRemoteAsk::Done(
                        Err(Error::Request(ErrorKind::Forbidden, "Auth check failed")),
                    );
                }
            },
        }
        match &self.saved {
            None => {
                return JoinRemoteAsk::Save;
            },
            Some(Err(e)) => {
                return JoinRemoteAsk::Done(Err(e.clone()));
            },
            Some(Ok(_)) => {},
        }
        match &self.forced {
            None => {
                return JoinRemoteAsk::Force;
            },
            Some(Err(e)) => {
                return JoinRemoteAsk::Done(Err(e.clone()));
            },
            Some(Ok(_)) => {},
        }
        match &self.appended_to_state {
            None => {
                return JoinRemoteAsk::AppendToState;
            },
            Some(Err(e)) => {
                return JoinRemoteAsk::Done(Err(e.clone()));
            },
            Some(Ok(_)) => {},
        }
        match &self.appended {
            None => {
                return JoinRemoteAsk::AppendPdu;
            },
            Some(Err(e)) => {
                return JoinRemoteAsk::Done(Err(e.clone()));
            },
            Some(Ok(_)) => {},
        }
        if self.state_set {
            JoinRemoteAsk::Done(Ok(()))
        } else {
            JoinRemoteAsk::SetState
        }
    }
}

/// The version of the room that a server prepared a join for: the first, where it names
/// none.
pub fn prepared_version(version: Option<String>) -> (r: String)
    ensures
        match version {
            Some(v) => r == v,
            None => r@ == "1"@,
        },
{
    match version {
        Some(v) => v,
        None => "1".to_owned(),
    }
}

/// The room's state is changed only once our join is authorised by the state that the
/// other server sent, and its final state is set only after our event is in the timeline.
pub proof fn law_state_set_only_if_authorised(known: JoinRemote)
    requires
        ({
            let ask = known.asks();
            ask is Save || ask is Force || ask is AppendToState || ask is AppendPdu || ask
                is SetState || ask == JoinRemoteAskView::Done(Ok(()))
        }),
    ensures
        known.auth_check == Some(Ok::<bool, String>(true)),
        known.supported == Some(true),
        known.takes_signature() ==> (known.signature matches Some(Ok(_))),
        known.asks() is SetState ==> (known.appended matches Some(Ok(_))),
{
}

/// A join that may go on is made: locally in a room that this server is in, remotely in another
/// one for which there are servers to ask. It is refused as banned exactly if the server is in
/// the room and the user's membership there is a ban.
pub proof fn law_joins_are_made(known: JoinRoom, servers: bool, check_all_joins: bool)
    requires
        known.is_joined == Some(false),
        known.may_join == Some(true),
        known.server_in_room is Some,
        known.server_in_room == Some(true) ==> known.membership is Some,
    ensures
        ({
            let ask = known.asks(servers, check_all_joins);
            let in_room = known.server_in_room == Some(true);
            let banned = known.membership matches Some(Some(membership)) && membership@ == "ban"@;
            let passed = !check_all_joins || known.accept_join == Some(true);
            &&& in_room && banned ==> ask == JoinAsk::Done(
                Err(Error::Request(ErrorKind::Forbidden, "You are banned from the room.")),
            )
            &&& !in_room && !servers ==> ask == JoinAsk::Done(
                Err(
                    Error::Request(
                        ErrorKind::NotFound,
                        "No servers were provided to assist in joining the room remotely, and we are not already participating in the room.",
                    ),
                ),
            )
            &&& (in_room && !banned || !in_room && servers) ==> {
                &&& ask is AcceptJoin <==> check_all_joins && known.accept_join is None
                &&& check_all_joins && known.accept_join == Some(false) ==> ask == JoinAsk::Done(
                    Err(Error::Request(ErrorKind::Forbidden, "Antispam rejected join request.")),
                )
                &&& passed && known.joined is None ==> ask == if in_room {
                    JoinAsk::JoinLocal
                } else {
                    JoinAsk::JoinRemote
                }
                &&& passed ==> (known.joined matches Some(result) ==> ask == JoinAsk::Done(result))
            }
        }),
{
}

/// A user who is joined already has nothing to do, whatever else is known; one who may not join
/// is refused before anything else is looked at; and each question is asked once the one before
/// it has been answered.
pub proof fn law_join_questions_come_in_order(
    known: JoinRoom,
    servers: bool,
    check_all_joins: bool,
)
    ensures
        ({
            let ask = known.asks(servers, check_all_joins);
            &&& ask is IsJoined <==> known.is_joined is None
            &&& known.is_joined == Some(true) ==> ask == JoinAsk::Done(Ok(()))
            &&& ask is MayJoin <==> known.is_joined == Some(false) && known.may_join is None
            &&& known.is_joined == Some(false) && known.may_join == Some(false) ==> ask
                == JoinAsk::Done(
                Err(Error::Request(ErrorKind::Forbidden, "You are not allowed to join this room.")),
            )
            &&& ask is ServerInRoom <==> known.is_joined == Some(false) && known.may_join == Some(
                true,
            ) && known.server_in_room is None
            &&& ask is Membership <==> known.is_joined == Some(false) && known.may_join == Some(
                true,
            ) && known.server_in_room == Some(true) && known.membership is None
        }),
{
}

/// A join in a room of this server needs a user who vouches for it exactly if the room is
/// restricted, its version has such rooms, and the user is not invited. The one who vouches is
/// the one that was found, if the room's rules let the user in.
pub proof fn law_restricted_joins_are_vouched_for(known: JoinLocal)
    requires
        known.room_version matches Some(Ok(_)),
    ensures
        ({
            let version = known.room_version->Some_0->Ok_0;
            let needed = known.restricted && !known.is_invited
                && rules_of(version@)->Some_0.restricted_join_rule;
            let let_in = known.may_restricted_join == Some(Ok::<bool, Error>(true));
            &&& needed && let_in ==> (known.authorising_user matches Some(user)
                ==> known.authorised_via() == user)
            &&& !needed || !let_in ==> known.authorised_via() is None
            &&& known.authorising_user is None ==> known.authorised_via() is None
        }),
{
}

/// The steps of a local join: the room's facts, for a restricted join whether the rules let the
/// user in and who vouches, then the event. If that fails and other servers can help, the room
/// is joined through them; otherwise the error stands, or the room is not found.
pub proof fn law_local_join_steps(known: JoinLocal, servers: Seq<bool>)
    ensures
        ({
            let ask = known.asks(servers);
            let needed = known.room_version matches Some(Ok(version)) && known.restricted
                && !known.is_invited && rules_of(version@)->Some_0.restricted_join_rule;
            let let_in = known.may_restricted_join == Some(Ok::<bool, Error>(true));
            let ready = (known.room_version matches Some(Ok(_))) && (needed
                ==> known.may_restricted_join is Some && (let_in ==> known.authorising_user is Some));
            let alone = servers.len() == 0 || servers.len() == 1 && servers[0];
            &&& ask is RoomFacts <==> known.room_version is None
            &&& known.room_version matches Some(Err(e)) ==> ask == JoinLocalAsk::Done(Err(e))
            &&& ask is MayRestrictedJoin <==> needed && known.may_restricted_join is None
            &&& ask is AuthorisingUser <==> needed && let_in && known.authorising_user is None
            &&& ask is Append <==> ready && known.appended is None
            &&& ready && (known.appended matches Some(Ok(_))) ==> ask == JoinLocalAsk::Done(Ok(()))
            &&& ask is JoinRemote <==> ready && (known.appended matches Some(Err(_))) && !alone
                && known.joined_remotely is None
            &&& ask is RoomExists <==> ready && (known.appended matches Some(Err(_))) && alone
                && known.room_exists is None
            &&& ready && alone && known.room_exists == Some(true) ==> (known.appended matches Some(
                Err(e),
            ) ==> ask == JoinLocalAsk::Done(Err(e)))
            &&& ready && alone && known.room_exists == Some(false) && (known.appended matches Some(
                Err(_),
            )) ==> ask == JoinLocalAsk::Done(
                Err(
                    Error::RequestStatus(
                        ErrorKind::Unknown,
                        "Room was not found locally and no servers were found to help us discover it",
                        404,
                    ),
                ),
            )
            &&& ready && !alone && (known.appended matches Some(Err(_))) ==> {
                &&& (known.joined_remotely matches Some(Ok(_))) ==> ask == JoinLocalAsk::Done(Ok(()))
                &&& known.joined_remotely matches Some(Err(e)) ==> ask == JoinLocalAsk::Done(Err(e))
            }
        }),
{
}

/// What one rule says of a restricted join by itself: it lets the user in if it names a room
/// that this server is in and the user has joined, or a spam checker that accepts the user. A
/// spam checker that has not been asked is asked, and one that rejects the user refuses the join.
pub proof fn law_one_allow_rule(rule: AllowRule)
    ensures
        ({
            let ask = restricted_join(seq![rule]);
            &&& ask == RestrictedAsk::Done(Ok(true)) <==> {
                ||| rule == AllowRule::RoomMembership { server_in_room: true, user_joined: true }
                ||| rule == AllowRule::SpamChecker { accepts: Some(true) }
            }
            &&& ask is SpamChecker <==> rule == AllowRule::SpamChecker { accepts: None }
            &&& rule == AllowRule::SpamChecker { accepts: Some(false) } ==> ask
                == RestrictedAsk::Done(
                Err(Error::Request(ErrorKind::Forbidden, "Antispam rejected join request.")),
            )
            &&& rule == (AllowRule::RoomMembership { server_in_room: true, user_joined: false })
                ==> (ask matches RestrictedAsk::Done(Err(Error::Request(ErrorKind::Forbidden, _))))
            &&& (rule matches AllowRule::RoomMembership { server_in_room: false, .. }) || rule
                is Unknown ==> (ask matches RestrictedAsk::Done(
                Err(Error::Request(ErrorKind::UnableToAuthorizeJoin, _)),
            ))
        }),
{
    let rules = seq![rule];
    assert(rules.drop_last() =~= Seq::<AllowRule>::empty());
    reveal_with_fuel(decided_by, 3);
    assert(rules.last() == rule && rules[0] == rule);
    if checkable(rule) {
        assert(forall|i: int| 0 <= i < rules.len() ==> checkable(#[trigger] rules[i]));
    } else {
        assert(!checkable(rules[0]));
    }
}

/// The rules of a restricted join are taken in order. The first that decides does so, whatever
/// follows it: a room that this server is in and the user has joined lets the user in, and a
/// spam checker is asked and heeded.
pub proof fn law_first_rule_decides(rules: Seq<AllowRule>, i: int)
    requires
        0 <= i < rules.len(),
        forall|j: int|
            0 <= j < i ==> !(#[trigger] rules[j] is SpamChecker) && rules[j] != (
            AllowRule::RoomMembership { server_in_room: true, user_joined: true }),
    ensures
        rules[i] == (AllowRule::RoomMembership { server_in_room: true, user_joined: true })
            ==> restricted_join(rules) == RestrictedAsk::Done(Ok(true)),
        rules[i] == (AllowRule::SpamChecker { accepts: Some(true) }) ==> restricted_join(rules)
            == RestrictedAsk::Done(Ok(true)),
        rules[i] == (AllowRule::SpamChecker { accepts: None }) ==> restricted_join(rules)
            is SpamChecker,
        rules[i] == (AllowRule::SpamChecker { accepts: Some(false) }) ==> restricted_join(rules)
            == RestrictedAsk::Done(
            Err(Error::Request(ErrorKind::Forbidden, "Antispam rejected join request.")),
        ),
{
    lemma_undecided(rules, i);
    let upto = rules.take(i + 1);
    assert(upto.drop_last() =~= rules.take(i));
    assert(upto.last() == rules[i]);
    if decided_by(upto) is Some {
        lemma_decided(rules, i + 1);
    }
}

/// Where no rule decides, the join is refused. If there are none the user is not invited; if
/// this server could check all of them the user belongs to none of the rooms; and otherwise
/// another server may know better.
pub proof fn law_no_rule_decides(rules: Seq<AllowRule>)
    requires
        forall|j: int|
            0 <= j < rules.len() ==> !(#[trigger] rules[j] is SpamChecker) && rules[j] != (
            AllowRule::RoomMembership { server_in_room: true, user_joined: true }),
    ensures
        rules.len() == 0 ==> restricted_join(rules) == RestrictedAsk::Done(
            Err(Error::Request(ErrorKind::Forbidden, "You are not invited to this room.")),
        ),
        rules.len() > 0 && (forall|j: int|
            0 <= j < rules.len() ==> (#[trigger] rules[j] matches AllowRule::RoomMembership {
                server_in_room: true,
                ..
            })) ==> restricted_join(rules) == RestrictedAsk::Done(
            Err(
                Error::Request(
                    ErrorKind::Forbidden,
                    "You do not belong to any of the rooms or spaces required to join this room.",
                ),
            ),
        ),
        (exists|j: int|
            0 <= j < rules.len() && !(#[trigger] rules[j] matches AllowRule::RoomMembership {
                server_in_room: true,
                ..
            })) ==> restricted_join(rules) == RestrictedAsk::Done(
            Err(
                Error::Request(
                    ErrorKind::UnableToAuthorizeJoin,
                    "You do not belong to any of the recognised rooms or spaces required to join this room, but this server is unable to verify every requirement. You may be able to join via another server.",
                ),
            ),
        ),
{
    lemma_undecided(rules, rules.len() as int);
    assert(rules.take(rules.len() as int) =~= rules);
    if exists|j: int|
        0 <= j < rules.len() && !(#[trigger] rules[j] matches AllowRule::RoomMembership {
            server_in_room: true,
            ..
        }) {
        let j = choose|j: int|
            0 <= j < rules.len() && !(#[trigger] rules[j] matches AllowRule::RoomMembership {
                server_in_room: true,
                ..
            });
        assert(!checkable(rules[j]));
    }
}

proof fn lemma_undecided(rules: Seq<AllowRule>, n: int)
    requires
        0 <= n <= rules.len(),
        forall|j: int|
            0 <= j < n ==> !(#[trigger] rules[j] is SpamChecker) && rules[j] != (
            AllowRule::RoomMembership { server_in_room: true, user_joined: true }),
    ensures
        decided_by(rules.take(n)) is None,
    decreases n,
{
    if n > 0 {
        lemma_undecided(rules, n - 1);
        assert(rules.take(n).drop_last() =~= rules.take(n - 1));
        assert(rules.take(n).last() == rules[n - 1]);
    }
}

/// A server that sends a join event of the right shape is taken; one that sends another is
/// passed over. A refusal is final if the room's version is not ours or the join is forbidden;
/// after any other the next server is asked. An answer that cannot be read ends it.
pub proof fn law_make_join_answers(user_id: Seq<char>, room_id: Seq<char>, answer: MakeJoinAnswer)
    ensures
        ({
            let outcome = make_join_outcome(user_id, room_id, answer);
            &&& answer matches MakeJoinAnswer::Unreadable(e) ==> outcome == MakeJoinOutcome::Fail(e)
            &&& outcome is Accept <==> (answer matches MakeJoinAnswer::Prepared(stub) && {
                &&& text_in(stub@, "type"@) == Some("m.room.member"@)
                &&& text_in(stub@, "sender"@) == Some(user_id)
                &&& text_in(stub@, "state_key"@) == Some(user_id)
                &&& text_in(stub@, "room_id"@) == Some(room_id)
                &&& object_in(stub@, "content"@) matches Some(content) && text_in(
                    content,
                    "membership"@,
                ) == Some("join"@)
            })
            &&& outcome is PassOn <==> answer == MakeJoinAnswer::Refused(
                JoinRefusal::IncompatibleRoomVersion,
            ) || answer == MakeJoinAnswer::Refused(JoinRefusal::Forbidden)
            &&& outcome is Fail <==> answer is Unreadable
        }),
{
    if let MakeJoinAnswer::Prepared(stub) = answer {
        law_valid_stub("join"@, user_id, room_id, stub@);
    }
}

/// The servers are asked in their order, each but our own, and none is left out.
pub proof fn law_servers_are_asked_in_order(ours: Seq<bool>, at: int)
    requires
        0 <= at,
    ensures
        match next_server(ours, at) {
            Some(i) => at <= i < ours.len() && !ours[i] && forall|j: int|
                at <= j < i ==> #[trigger] ours[j],
            None => forall|j: int| at <= j < ours.len() ==> #[trigger] ours[j],
        },
    decreases ours.len() - at,
{
    if at < ours.len() && ours[at] {
        law_servers_are_asked_in_order(ours, at + 1);
    }
}

/// The content of a join says that the user joins, and besides only what is known of the user,
/// each thing under its name.
pub proof fn law_join_content(content: JoinContent, name: Seq<char>)
    ensures
        ({
            let made = content_of_join(content);
            let holds = |field: Seq<char>, text: Option<String>|
                match text {
                    Some(t) => made.contains_key(field) && made[field] == JsonView::String(t@),
                    None => !made.contains_key(field),
                };
            &&& made.contains_key("membership"@) && made["membership"@] == JsonView::String("join"@)
            &&& holds("displayname"@, content.displayname)
            &&& holds("avatar_url"@, content.avatar_url)
            &&& holds("reason"@, content.reason)
            &&& holds(
                "join_authorised_via_users_server"@,
                content.join_authorised_via_users_server,
            )
            &&& made.contains_key(name) ==> name == "membership"@ || name == "displayname"@ || name
                == "avatar_url"@ || name == "reason"@ || name
                == "join_authorised_via_users_server"@
        }),
{
    reveal_strlit("membership");
    reveal_strlit("displayname");
    reveal_strlit("avatar_url");
    reveal_strlit("reason");
    reveal_strlit("join_authorised_via_users_server");
    assert("membership"@[0] != "avatar_url"@[0]);
    assert("membership"@.len() != "displayname"@.len());
    assert("membership"@.len() != "reason"@.len());
    assert("membership"@.len() != "join_authorised_via_users_server"@.len());
    assert("displayname"@.len() != "avatar_url"@.len());
    assert("displayname"@.len() != "reason"@.len());
    assert("displayname"@.len() != "join_authorised_via_users_server"@.len());
    assert("avatar_url"@.len() != "reason"@.len());
    assert("avatar_url"@.len() != "join_authorised_via_users_server"@.len());
    assert("reason"@.len() != "join_authorised_via_users_server"@.len());
}

/// The event that is sent to join is the one that was offered, but for the time, the content and
/// the ID: the time is the present, the content is ours and the ID is left out.
pub proof fn law_prepared_join(
    stub: ObjectView,
    now_ms: i64,
    content: JoinContent,
    name: Seq<char>,
)
    ensures
        ({
            let event = prepared_join(stub, now_ms, content);
            &&& !event.contains_key("event_id"@)
            &&& event.contains_key("origin_server_ts"@) && event["origin_server_ts"@]
                == JsonView::Integer(now_ms)
            &&& event.contains_key("content"@) && event["content"@] == JsonView::Object(
                content_of_join(content),
            )
            &&& name != "event_id"@ && name != "origin_server_ts"@ && name != "content"@
                ==> event.contains_key(name) == stub.contains_key(name) && (stub.contains_key(name)
                ==> event[name] == stub[name])
        }),
{
    reveal_strlit("event_id");
    reveal_strlit("origin_server_ts");
    reveal_strlit("content");
    assert("event_id"@.len() != "origin_server_ts"@.len());
    assert("event_id"@.len() != "content"@.len());
    assert("content"@.len() != "origin_server_ts"@.len());
}

/// The one who vouches for a join is the user ID that the offered event's content names, in a
/// room of a version in which it is checked, and nobody else.
pub proof fn law_voucher_is_named(stub: ObjectView, version: Seq<char>, user: Seq<char>)
    ensures
        stub_authorised_via(stub, version) == Some(user) <==> {
            &&& rules_of(version) matches Some(rules)
                && rules.check_join_authorised_via_users_server
            &&& object_in(stub, "content"@) matches Some(content) && text_in(
                content,
                "join_authorised_via_users_server"@,
            ) == Some(user)
            &&& is_user_id(user)
        },
{
}

/// The steps of a remote join come in their order; each that fails ends it with its own error;
/// and a join of which every step is done has succeeded.
pub proof fn law_remote_join_steps(known: JoinRemote)
    ensures
        ({
            let ask = known.asks();
            let failed = |e: Error| ask == JoinRemoteAskView::Done(Err(e@));
            let offered = (known.prepared matches Some(Ok(_))) && known.supported == Some(true);
            let read = offered && (known.stub matches Some(Ok(_)));
            let signed = read && (known.signed matches Some(Ok(_)));
            let named = signed && (known.event_id matches Some(Ok(_)));
            let sent = named && (known.sent matches Some(Ok(_)));
            let countersigns = (known.stub matches Some(Ok(Some(_)))) && known.sent == Some(
                Ok::<bool, Error>(true),
            );
            let taken = sent && (countersigns ==> known.signature matches Some(Ok(_)));
            let decoded = taken && (known.decoded matches Some(Ok(_)));
            let stated = decoded && known.state_taken;
            let allowed = stated && known.auth_check == Some(Ok::<bool, String>(true));
            let saved = allowed && (known.saved matches Some(Ok(_)));
            let forced = saved && (known.forced matches Some(Ok(_)));
            let put = forced && (known.appended_to_state matches Some(Ok(_)));
            let appended = put && (known.appended matches Some(Ok(_)));
            &&& ask is MakeJoin <==> known.prepared is None
            &&& known.prepared matches Some(Err(e)) ==> failed(e)
            &&& ask is Supported <==> (known.prepared matches Some(Ok(_))) && known.supported
                is None
            &&& known.supported == Some(false) ==> (known.prepared matches Some(Ok(version)) ==> ask
                == JoinRemoteAskView::Done(
                Err(
                    ErrorView::BadServerResponseText(
                        "Remote room version "@ + version@ + " is not supported"@,
                    ),
                ),
            ))
            &&& ask is ReadStub <==> offered && known.stub is None
            &&& offered ==> (known.stub matches Some(Err(e)) ==> failed(e))
            &&& ask is Sign <==> read && known.signed is None
            &&& read ==> (known.signed matches Some(Err(e)) ==> failed(e))
            &&& ask is EventId <==> signed && known.event_id is None
            &&& signed ==> (known.event_id matches Some(Err(e)) ==> failed(e))
            &&& ask is SendJoin <==> named && known.sent is None
            &&& named ==> (known.sent matches Some(Err(e)) ==> failed(e))
            &&& ask is TakeSignature <==> sent && countersigns && known.signature is None
            &&& sent && countersigns ==> (known.signature matches Some(Err(e)) ==> failed(e))
            &&& ask is Decode <==> taken && known.decoded is None
            &&& taken ==> (known.decoded matches Some(Err(e)) ==> failed(e))
            &&& ask is TakeState <==> decoded && !known.state_taken
            &&& ask is AuthCheck <==> stated && known.auth_check is None
            &&& stated ==> (known.auth_check matches Some(Err(reason)) ==> ask
                == JoinRemoteAskView::Done(
                Err(ErrorView::RequestAbout(ErrorKind::Forbidden, "Auth check failed", reason@)),
            ))
            &&& stated && known.auth_check == Some(Ok::<bool, String>(false)) ==> ask
                == JoinRemoteAskView::Done(
                Err(ErrorView::Request(ErrorKind::Forbidden, "Auth check failed")),
            )
            &&& ask is Save <==> allowed && known.saved is None
            &&& allowed ==> (known.saved matches Some(Err(e)) ==> failed(e))
            &&& ask is Force <==> saved && known.forced is None
            &&& saved ==> (known.forced matches Some(Err(e)) ==> failed(e))
            &&& ask is AppendToState <==> forced && known.appended_to_state is None
            &&& forced ==> (known.appended_to_state matches Some(Err(e)) ==> failed(e))
            &&& ask is AppendPdu <==> put && known.appended is None
            &&& put ==> (known.appended matches Some(Err(e)) ==> failed(e))
            &&& ask is SetState <==> appended && !known.state_set
            &&& ask == JoinRemoteAskView::Done(Ok(())) <==> appended && known.state_set
        }),
{
}

/// A countersignature is the one that the answer holds for the server.
pub proof fn law_countersignatures(signed: ObjectView, server: Seq<char>, signature: JsonView)
    ensures
        sent_signature(signed, server) == Some(signature) <==> (object_in(
            signed,
            "signatures"@,
        ) matches Some(signatures) && signatures.contains_key(server) && signatures[server]
            == signature),
{
}

/// What a remote join asks for is told as it is.
pub proof fn law_told_of_join_remote_ask(it: JoinRemoteAsk)
    ensures
        it is MakeJoin ==> it@ is MakeJoin,
        it is Supported ==> it@ is Supported,
        it is ReadStub ==> it@ is ReadStub,
        it is Sign ==> it@ is Sign,
        it is EventId ==> it@ is EventId,
        it is SendJoin ==> it@ is SendJoin,
        it is TakeSignature ==> it@ is TakeSignature,
        it is Decode ==> it@ is Decode,
        it is TakeState ==> it@ is TakeState,
        it is AuthCheck ==> it@ is AuthCheck,
        it is Save ==> it@ is Save,
        it is Force ==> it@ is Force,
        it is AppendToState ==> it@ is AppendToState,
        it is AppendPdu ==> it@ is AppendPdu,
        it is SetState ==> it@ is SetState,
        it matches JoinRemoteAsk::Done(Ok(_)) ==> it@ == (JoinRemoteAskView::Done(Ok(()))),
        it matches JoinRemoteAsk::Done(Err(e)) ==> it@ == (JoinRemoteAskView::Done(Err(e@))),
{
}

/// What is said of a wrong member event: the first thing that is missing or wrong, of its type,
/// its sender, its state key, its room, its content and the membership there.
pub proof fn law_what_is_wrong_with_stubs(
    membership: Seq<char>,
    user_id: Seq<char>,
    room_id: Seq<char>,
    stub: ObjectView,
)
    ensures
        ({
            let wrong = stub_wrong(membership, user_id, room_id, stub);
            let typed = text_in(stub, "type"@) == Some("m.room.member"@);
            let sent = typed && text_in(stub, "sender"@) == Some(user_id);
            let keyed = sent && text_in(stub, "state_key"@) == Some(user_id);
            let placed = keyed && text_in(stub, "room_id"@) == Some(room_id);
            &&& !stub.contains_key("type"@) ==> wrong == Some(
                "Remote server returned member event with missing type field",
            )
            &&& stub.contains_key("type"@) && !typed ==> wrong == Some(
                "Remote server returned member event with invalid event type",
            )
            &&& typed && !stub.contains_key("sender"@) ==> wrong == Some(
                "Remote server returned member event with missing sender field",
            )
            &&& typed && stub.contains_key("sender"@) && !sent ==> wrong == Some(
                "Remote server returned member event with incorrect sender",
            )
            &&& sent && !stub.contains_key("state_key"@) ==> wrong == Some(
                "Remote server returned member event with missing state_key field",
            )
            &&& sent && stub.contains_key("state_key"@) && !keyed ==> wrong == Some(
                "Remote server returned member event with incorrect state_key",
            )
            &&& keyed && !stub.contains_key("room_id"@) ==> wrong == Some(
                "Remote server returned member event with missing room_id field",
            )
            &&& keyed && stub.contains_key("room_id"@) && !placed ==> wrong == Some(
                "Remote server returned member event with incorrect room_id",
            )
            &&& placed && object_in(stub, "content"@) is None ==> wrong == Some(
                "Remote server returned member event with missing content field",
            )
            &&& placed ==> (object_in(stub, "content"@) matches Some(content) ==> {
                &&& !content.contains_key("membership"@) ==> wrong == Some(
                    "Remote server returned member event with missing membership field",
                )
                &&& content.contains_key("membership"@) && text_in(content, "membership"@) != Some(
                    membership,
                ) ==> wrong == Some(
                    "Remote server returned member event with incorrect membership type",
                )
            })
        }),
{
}

} // verus!
