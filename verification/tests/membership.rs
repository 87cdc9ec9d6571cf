use continuwuity::error::{Error, ErrorKind};
use continuwuity::json::{Json, JsonObject};
use continuwuity::rooms::event_handler::parse_incoming_pdu::read_incoming;
use continuwuity::rooms::membership::{
    admit_state_event, authorised_via, fill_in_stub, join_content, make_join_request, on_make_join,
    prepare_join_event, prepared_version, read_stub, select_authorising_user, take_signature,
    user_can_perform_restricted_join, validate_remote_member_event_stub, AllowRule, JoinAsk,
    JoinContent, JoinLocal, JoinLocalAsk, JoinRefusal, JoinRemote, JoinRemoteAsk, JoinRoom,
    MakeJoinAnswer, MakeJoinOutcome, RestrictedAsk,
};
use continuwuity::rooms::pdu_metadata::Data;
use continuwuity::store::{Column, Key};

const ALICE: &str = "@alice:example.org";
const ROOM: &str = "!room:example.org";

fn object(text: &str) -> JsonObject {
    match read_incoming(text) {
        Ok(object) => object,
        Err(_) => panic!("no object: {text}"),
    }
}

fn nothing_known() -> JoinRoom {
    JoinRoom::new()
}

#[test]
fn joining_asks_for_what_it_needs() {
    let mut known = nothing_known();
    assert!(matches!(known.join_room(true, true), JoinAsk::IsJoined));
    known.is_joined = Some(true);
    assert!(matches!(known.join_room(true, true), JoinAsk::Done(Ok(()))));
    known.is_joined = Some(false);
    assert!(matches!(known.join_room(true, true), JoinAsk::MayJoin));
    known.may_join = Some(true);
    assert!(matches!(known.join_room(true, true), JoinAsk::ServerInRoom));
    known.server_in_room = Some(true);
    assert!(matches!(known.join_room(true, true), JoinAsk::Membership));
    known.membership = Some(Some("invite".to_owned()));
    assert!(matches!(known.join_room(true, true), JoinAsk::AcceptJoin));
    assert!(matches!(known.join_room(true, false), JoinAsk::JoinLocal));
    known.accept_join = Some(true);
    assert!(matches!(known.join_room(true, true), JoinAsk::JoinLocal));
    known.joined = Some(Ok(()));
    assert!(matches!(known.join_room(true, true), JoinAsk::Done(Ok(()))));
    known.joined = None;
    known.server_in_room = Some(false);
    assert!(matches!(known.join_room(true, true), JoinAsk::JoinRemote));
}

#[test]
fn joins_that_are_refused() {
    let mut known = nothing_known();
    known.is_joined = Some(false);
    known.may_join = Some(false);
    assert!(matches!(
        known.join_room(true, true),
        JoinAsk::Done(Err(Error::Request(
            ErrorKind::Forbidden,
            "You are not allowed to join this room."
        )))
    ));
    known.may_join = Some(true);
    known.server_in_room = Some(true);
    known.membership = Some(Some("ban".to_owned()));
    assert!(matches!(
        known.join_room(true, true),
        JoinAsk::Done(Err(Error::Request(ErrorKind::Forbidden, "You are banned from the room.")))
    ));
    known.server_in_room = Some(false);
    assert!(matches!(
        known.join_room(false, true),
        JoinAsk::Done(Err(Error::Request(ErrorKind::NotFound, _)))
    ));
    known.accept_join = Some(false);
    assert!(matches!(
        known.join_room(true, true),
        JoinAsk::Done(Err(Error::Request(ErrorKind::Forbidden, "Antispam rejected join request.")))
    ));
    assert!(matches!(known.join_room(true, false), JoinAsk::JoinRemote));
}

fn local(version: &str, restricted: bool, is_invited: bool) -> JoinLocal {
    let mut known = JoinLocal::new();
    known.room_version = Some(Ok(version.to_owned()));
    known.restricted = restricted;
    known.is_invited = is_invited;
    known
}

#[test]
fn restricted_joins_are_authorised_from_version_eight_on() {
    let servers = vec![false];
    let mut known = local("8", true, false);
    assert!(matches!(known.join_local_room(&servers), JoinLocalAsk::MayRestrictedJoin));
    known.may_restricted_join = Some(Ok(true));
    assert!(matches!(known.join_local_room(&servers), JoinLocalAsk::AuthorisingUser));
    known.authorising_user = Some(Some(ALICE.to_owned()));
    assert!(matches!(known.join_local_room(&servers), JoinLocalAsk::Append));
    assert_eq!(known.join_authorised_via().as_deref(), Some(ALICE));
    known.may_restricted_join = Some(Ok(false));
    assert_eq!(known.join_authorised_via(), None);
    assert!(matches!(local("7", true, false).join_local_room(&servers), JoinLocalAsk::Append));
    assert!(matches!(local("8", true, true).join_local_room(&servers), JoinLocalAsk::Append));
    assert!(matches!(local("8", false, false).join_local_room(&servers), JoinLocalAsk::Append));
}

#[test]
fn local_joins_fall_back_to_other_servers() {
    let mut known = local("11", false, false);
    known.appended = Some(Err(Error::Other("not authorised")));
    assert!(matches!(known.join_local_room(&vec![false]), JoinLocalAsk::JoinRemote));
    assert!(matches!(known.join_local_room(&vec![true, true]), JoinLocalAsk::JoinRemote));
    assert!(matches!(known.join_local_room(&vec![true]), JoinLocalAsk::RoomExists));
    assert!(matches!(known.join_local_room(&vec![]), JoinLocalAsk::RoomExists));
    known.room_exists = Some(false);
    assert!(matches!(
        known.join_local_room(&vec![]),
        JoinLocalAsk::Done(Err(Error::RequestStatus(ErrorKind::Unknown, _, 404)))
    ));
    known.room_exists = Some(true);
    assert!(matches!(
        known.join_local_room(&vec![]),
        JoinLocalAsk::Done(Err(Error::Other("not authorised")))
    ));
    known.joined_remotely = Some(Err(Error::Other("refused")));
    assert!(matches!(
        known.join_local_room(&vec![false]),
        JoinLocalAsk::Done(Err(Error::Other("refused")))
    ));
    known.appended = Some(Ok(()));
    assert!(matches!(known.join_local_room(&vec![false]), JoinLocalAsk::Done(Ok(()))));
    known.room_version = Some(Err(Error::Other("unknown room")));
    assert!(matches!(
        known.join_local_room(&vec![false]),
        JoinLocalAsk::Done(Err(Error::Other("unknown room")))
    ));
    known.room_version = None;
    assert!(matches!(known.join_local_room(&vec![false]), JoinLocalAsk::RoomFacts));
}

#[test]
fn restricted_rooms_let_members_of_allowed_rooms_in() {
    let room = |server_in_room, user_joined| AllowRule::RoomMembership { server_in_room, user_joined };
    assert!(matches!(user_can_perform_restricted_join(&None), RestrictedAsk::Done(Ok(false))));
    assert!(matches!(
        user_can_perform_restricted_join(&Some(vec![])),
        RestrictedAsk::Done(Err(Error::Request(ErrorKind::Forbidden, "You are not invited to this room.")))
    ));
    assert!(matches!(
        user_can_perform_restricted_join(&Some(vec![room(true, false), room(true, true)])),
        RestrictedAsk::Done(Ok(true))
    ));
    assert!(matches!(
        user_can_perform_restricted_join(&Some(vec![room(true, false)])),
        RestrictedAsk::Done(Err(Error::Request(ErrorKind::Forbidden, _)))
    ));
    assert!(matches!(
        user_can_perform_restricted_join(&Some(vec![room(false, true)])),
        RestrictedAsk::Done(Err(Error::Request(ErrorKind::UnableToAuthorizeJoin, _)))
    ));
    assert!(matches!(
        user_can_perform_restricted_join(&Some(vec![AllowRule::Unknown, room(true, false)])),
        RestrictedAsk::Done(Err(Error::Request(ErrorKind::UnableToAuthorizeJoin, _)))
    ));
    assert!(matches!(
        user_can_perform_restricted_join(&Some(vec![
            AllowRule::SpamChecker { accepts: Some(false) },
            room(true, true)
        ])),
        RestrictedAsk::Done(Err(Error::Request(ErrorKind::Forbidden, "Antispam rejected join request.")))
    ));
    assert!(matches!(
        user_can_perform_restricted_join(&Some(vec![AllowRule::SpamChecker { accepts: Some(true) }])),
        RestrictedAsk::Done(Ok(true))
    ));
    assert!(matches!(
        user_can_perform_restricted_join(&Some(vec![
            AllowRule::SpamChecker { accepts: None },
            room(true, true)
        ])),
        RestrictedAsk::SpamChecker
    ));
    assert!(matches!(
        user_can_perform_restricted_join(&Some(vec![
            room(true, true),
            AllowRule::SpamChecker { accepts: None }
        ])),
        RestrictedAsk::Done(Ok(true))
    ));
}

#[test]
fn the_first_user_who_can_invite_authorises() {
    let users = vec!["@a:x".to_owned(), "@b:x".to_owned(), "@c:x".to_owned()];
    assert!(matches!(
        select_authorising_user(&users, &vec![false, true, true]),
        Ok(user) if user == "@b:x"
    ));
    assert!(matches!(
        select_authorising_user(&users, &vec![false, false, false]),
        Err(Error::Request(ErrorKind::UnableToGrantJoin, _))
    ));
}

const STUB: &str = r#"{"type":"m.room.member","sender":"@alice:example.org","state_key":"@alice:example.org","room_id":"!room:example.org","content":{"membership":"join","join_authorised_via_users_server":"@admin:other.org"},"event_id":"$old","depth":3}"#;

fn stub_error(text: &str) -> &'static str {
    match validate_remote_member_event_stub("join", ALICE, ROOM, &object(text)) {
        Err(Error::BadServerResponse(message)) => message,
        _ => "",
    }
}

#[test]
fn member_events_of_other_servers_are_validated() {
    let rest = r#""sender":"@alice:example.org","state_key":"@alice:example.org","room_id":"!room:example.org","content":{"membership":"join"}}"#;
    assert_eq!(stub_error(STUB), "");
    assert_eq!(
        stub_error(&format!("{{{rest}")),
        "Remote server returned member event with missing type field"
    );
    assert_eq!(
        stub_error(&format!("{{\"type\":\"m.room.message\",{rest}")),
        "Remote server returned member event with invalid event type"
    );
    let member = |rest: &str| format!("{{\"type\":\"m.room.member\"{rest}}}");
    assert_eq!(
        stub_error(&member("")),
        "Remote server returned member event with missing sender field"
    );
    assert_eq!(
        stub_error(&member(r#","sender":"@bob:example.org""#)),
        "Remote server returned member event with incorrect sender"
    );
    let sender = r#","sender":"@alice:example.org""#;
    assert_eq!(
        stub_error(&member(sender)),
        "Remote server returned member event with missing state_key field"
    );
    assert_eq!(
        stub_error(&member(&format!("{sender},\"state_key\":7"))),
        "Remote server returned member event with incorrect state_key"
    );
    let key = format!(r#"{sender},"state_key":"@alice:example.org""#);
    assert_eq!(
        stub_error(&member(&key)),
        "Remote server returned member event with missing room_id field"
    );
    assert_eq!(
        stub_error(&member(&format!("{key},\"room_id\":\"!other:x\""))),
        "Remote server returned member event with incorrect room_id"
    );
    let room = format!("{key},\"room_id\":\"{ROOM}\"");
    assert_eq!(
        stub_error(&member(&room)),
        "Remote server returned member event with missing content field"
    );
    assert_eq!(
        stub_error(&member(&format!("{room},\"content\":{{}}"))),
        "Remote server returned member event with missing membership field"
    );
    assert_eq!(
        stub_error(&member(&format!("{room},\"content\":{{\"membership\":\"leave\"}}"))),
        "Remote server returned member event with incorrect membership type"
    );
}

#[test]
fn servers_are_asked_in_turn() {
    assert!(matches!(make_join_request(&vec![true, false, false], 0), Ok(1)));
    assert!(matches!(make_join_request(&vec![true, false, false], 2), Ok(2)));
    assert!(matches!(
        make_join_request(&vec![true, false, false], 3),
        Err(Error::BadServerResponse("No server available to assist in joining."))
    ));
    assert!(make_join_request(&vec![true], 0).is_err());
    let on = |answer| on_make_join(ALICE, ROOM, answer);
    assert!(matches!(on(MakeJoinAnswer::Prepared(object(STUB))), MakeJoinOutcome::Accept));
    assert!(matches!(on(MakeJoinAnswer::Prepared(JsonObject::new())), MakeJoinOutcome::TryNext));
    assert!(matches!(
        on(MakeJoinAnswer::Unreadable(Error::Other("no JSON"))),
        MakeJoinOutcome::Fail(Error::Other("no JSON"))
    ));
    for (refusal, stops) in [
        (JoinRefusal::UnableToAuthorizeJoin, false),
        (JoinRefusal::UnableToGrantJoin, false),
        (JoinRefusal::IncompatibleRoomVersion, true),
        (JoinRefusal::Forbidden, true),
        (JoinRefusal::NotFound, false),
        (JoinRefusal::Other, false),
    ] {
        assert_eq!(matches!(on(MakeJoinAnswer::Refused(refusal)), MakeJoinOutcome::PassOn), stops);
    }
}

#[test]
fn the_join_event_is_made_from_the_prepared_one() {
    let stub = read_stub(STUB).unwrap();
    assert!(matches!(
        read_stub("[]"),
        Err(Error::BadServerResponseAbout(
            "Invalid make_join event json received from server",
            wrong
        )) if wrong.starts_with("Error(\"invalid type: sequence, expected a map\"")
    ));
    assert_eq!(authorised_via(&stub, "11").as_deref(), Some("@admin:other.org"));
    assert_eq!(authorised_via(&stub, "7"), None);
    assert_eq!(authorised_via(&stub, "no version"), None);
    let content = JoinContent {
        displayname: Some("Alice".to_owned()),
        avatar_url: None,
        reason: Some("because".to_owned()),
        join_authorised_via_users_server: authorised_via(&stub, "11"),
    };
    let event = prepare_join_event(stub, 1234, content);
    assert!(matches!(event.get("origin_server_ts"), Some(Json::Integer(1234))));
    assert!(matches!(event.get("depth"), Some(Json::Integer(3))));
    assert!(!event.contains_key("event_id"));
    let content = event.get_object("content").unwrap();
    assert_eq!(content.get_str("membership"), Some("join"));
    assert_eq!(content.get_str("displayname"), Some("Alice"));
    assert_eq!(content.get_str("reason"), Some("because"));
    assert_eq!(
        content.get_str("join_authorised_via_users_server"),
        Some("@admin:other.org"),
    );
    assert!(!content.contains_key("avatar_url"));
    assert_eq!(prepared_version(None), "1");
    assert_eq!(prepared_version(Some("11".to_owned())), "11");
    let bare = join_content(JoinContent {
        displayname: None,
        avatar_url: None,
        reason: None,
        join_authorised_via_users_server: None,
    });
    assert_eq!(bare.names(), vec!["membership"]);
}

#[test]
fn the_signature_of_the_helping_server_is_taken_over() {
    let signed = || object(r#"{"signatures":{"other.org":{"ed25519:1":"abc"},"third.org":{}}}"#);
    let ours = r#"{"depth":1,"signatures":{"example.org":{"ed25519:k":"own"}}}"#;
    let mut event = object(ours);
    assert!(take_signature(&mut event, "$a", "$a", signed(), "other.org").is_ok());
    let signatures = event.get_object("signatures").unwrap();
    assert_eq!(signatures.get_object("other.org").unwrap().get_str("ed25519:1"), Some("abc"));
    assert_eq!(signatures.get_object("example.org").unwrap().get_str("ed25519:k"), Some("own"));
    assert!(!signatures.contains_key("third.org"));
    let mut event = object(ours);
    assert!(matches!(
        take_signature(&mut event, "$b", "$a", signed(), "other.org"),
        Err(Error::RequestText(ErrorKind::BadJson, text))
            if text == "Server other.org sent event with wrong event ID"
    ));
    assert!(take_signature(&mut event, "$a", "$a", signed(), "nobody.org").is_ok());
    assert_eq!(event.get_object("signatures").unwrap().names(), vec!["example.org"]);
}

#[test]
fn state_events_of_a_joined_room_are_admitted() {
    let mut data = Data::new();
    let mut state: Column<String> = Column::new();
    data.mark_event_rejected("$a");
    data.mark_event_soft_failed("$a");
    let value = object(r#"{"type":"m.room.name"}"#);
    assert!(!admit_state_event(&mut data, &mut state, "$a", &value, false, Some(5)));
    assert!(data.is_event_rejected("$a"));
    assert!(admit_state_event(&mut data, &mut state, "$a", &value, true, Some(5)));
    assert!(!data.is_event_rejected("$a"));
    assert!(!data.is_event_soft_failed("$a"));
    assert_eq!(state.get(&Key::counters(5, 0)).map(|id| id.as_str()), Some("$a"));
    assert!(admit_state_event(&mut data, &mut state, "$b", &value, true, None));
    let large = object(&format!("{{\"type\":\"{}\"}}", "x".repeat(256)));
    assert!(!admit_state_event(&mut data, &mut state, "$c", &large, true, Some(6)));
    assert!(state.get(&Key::counters(6, 0)).is_none());
}

fn remote() -> JoinRemote {
    JoinRemote::new()
}

#[test]
fn a_remote_join_goes_through_all_steps() {
    let mut known = remote();
    assert!(matches!(known.join_remote_room(), JoinRemoteAsk::MakeJoin));
    known.prepared = Some(Ok("11".to_owned()));
    assert!(matches!(known.join_remote_room(), JoinRemoteAsk::Supported));
    known.supported = Some(true);
    assert!(matches!(known.join_remote_room(), JoinRemoteAsk::ReadStub));
    known.stub = Some(Ok(Some(ALICE.to_owned())));
    assert!(matches!(known.join_remote_room(), JoinRemoteAsk::Sign));
    known.signed = Some(Ok(()));
    assert!(matches!(known.join_remote_room(), JoinRemoteAsk::EventId));
    known.event_id = Some(Ok(()));
    assert!(matches!(known.join_remote_room(), JoinRemoteAsk::SendJoin));
    known.sent = Some(Ok(true));
    assert!(matches!(known.join_remote_room(), JoinRemoteAsk::TakeSignature));
    known.sent = Some(Ok(false));
    assert!(matches!(known.join_remote_room(), JoinRemoteAsk::Decode));
    known.decoded = Some(Ok(()));
    assert!(matches!(known.join_remote_room(), JoinRemoteAsk::TakeState));
    known.state_taken = true;
    assert!(matches!(known.join_remote_room(), JoinRemoteAsk::AuthCheck));
    known.auth_check = Some(Ok(true));
    assert!(matches!(known.join_remote_room(), JoinRemoteAsk::Save));
    known.saved = Some(Ok(()));
    assert!(matches!(known.join_remote_room(), JoinRemoteAsk::Force));
    known.forced = Some(Ok(()));
    assert!(matches!(known.join_remote_room(), JoinRemoteAsk::AppendToState));
    known.appended_to_state = Some(Ok(()));
    assert!(matches!(known.join_remote_room(), JoinRemoteAsk::AppendPdu));
    known.appended = Some(Ok(()));
    assert!(matches!(known.join_remote_room(), JoinRemoteAsk::SetState));
    known.state_set = true;
    assert!(matches!(known.join_remote_room(), JoinRemoteAsk::Done(Ok(()))));
}

#[test]
fn a_remote_join_stops_where_it_fails() {
    let mut known = remote();
    known.prepared = Some(Ok("odd".to_owned()));
    known.supported = Some(false);
    assert!(matches!(
        known.join_remote_room(),
        JoinRemoteAsk::Done(Err(Error::BadServerResponseText(text)))
            if text == "Remote room version odd is not supported"
    ));
    known.supported = Some(true);
    known.stub = Some(Ok(Some(ALICE.to_owned())));
    known.signed = Some(Ok(()));
    known.event_id = Some(Ok(()));
    known.sent = Some(Ok(true));
    known.signature = Some(Err(Error::Other("wrong ID")));
    known.decoded = Some(Ok(()));
    known.state_taken = true;
    assert!(matches!(
        known.join_remote_room(),
        JoinRemoteAsk::Done(Err(Error::Other("wrong ID")))
    ));
    known.signature = Some(Ok(()));
    known.auth_check = Some(Ok(false));
    assert!(matches!(
        known.join_remote_room(),
        JoinRemoteAsk::Done(Err(Error::Request(ErrorKind::Forbidden, "Auth check failed")))
    ));
    known.auth_check = Some(Err("no create event".to_owned()));
    assert!(matches!(
        known.join_remote_room(),
        JoinRemoteAsk::Done(Err(Error::RequestAbout(ErrorKind::Forbidden, "Auth check failed", why)))
            if why == "no create event"
    ));
}

#[test]
fn prepared_events_name_who_authorises_the_join() {
    let name = || Some("Alice".to_owned());
    let (event, via) = fill_in_stub(object(STUB), "11", 1234, name(), None, None);
    assert_eq!(via.as_deref(), Some("@admin:other.org"));
    let content = event.get_object("content").unwrap();
    assert_eq!(content.get_str("join_authorised_via_users_server"), Some("@admin:other.org"));
    assert_eq!(content.get_str("displayname"), Some("Alice"));
    assert!(!event.contains_key("event_id"));
    let (event, via) = fill_in_stub(object(STUB), "7", 1234, name(), None, None);
    assert_eq!(via, None);
    let content = event.get_object("content").unwrap();
    assert!(!content.contains_key("join_authorised_via_users_server"));
}

#[test]
fn remote_joins_fill_in_what_was_prepared() {
    let mut known = remote();
    known.prepared = Some(Ok("11".to_owned()));
    known.supported = Some(true);
    assert!(known.on_stub("[]", 1234, None, None, None).is_none());
    assert!(matches!(
        known.join_remote_room(),
        JoinRemoteAsk::Done(Err(Error::BadServerResponseAbout(
            "Invalid make_join event json received from server",
            _,
        )))
    ));
    let mut event = known.on_stub(STUB, 1234, None, None, Some("hi".to_owned())).unwrap();
    assert_eq!(event.get_object("content").unwrap().get_str("reason"), Some("hi"));
    assert!(matches!(&known.stub, Some(Ok(Some(via))) if via == "@admin:other.org"));
    assert!(matches!(known.join_remote_room(), JoinRemoteAsk::Sign));
    known.signed = Some(Ok(()));
    known.on_event_id(&mut event, Err(Error::Other("no hash")));
    assert!(matches!(
        known.join_remote_room(),
        JoinRemoteAsk::Done(Err(Error::Other("no hash")))
    ));
    known.on_event_id(&mut event, Ok("$new"));
    assert_eq!(event.get_str("event_id"), Some("$new"));
    assert!(matches!(known.join_remote_room(), JoinRemoteAsk::SendJoin));
}
