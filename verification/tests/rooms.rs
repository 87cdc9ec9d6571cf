use continuwuity::appservice;
use continuwuity::appservice::{
    check_conflicts, check_namespaces, NamePattern, Namespaces, Registration,
};
use continuwuity::error::{Error, ErrorKind};
use continuwuity::oauth;
use continuwuity::registration_tokens::{DatabaseTokenInfo, Data as Tokens, TokenExpires};
use continuwuity::rooms::alias;
use continuwuity::rooms::alias::{
    AliasAsk, AliasQuery, AppserviceStep, Resolution, RoomResolution,
};
use continuwuity::rooms::pdu_metadata::{Data, Direction};
use continuwuity::rooms::user;
use continuwuity::store::Column;
use continuwuity::users;
use continuwuity::users::account::HashedPassword;

const ALICE: &str = "@alice:example.org";
const BOB: &str = "@bob:example.org";
const ROOM: &str = "!room:example.org";

fn aliases() -> alias::Service {
    alias::Service {
        db: alias::Data {
            alias_userid: Column::new(),
            alias_roomid: Column::new(),
            aliasid_alias: Column::new(),
        },
        server_name: "example.org".to_owned(),
        admin_alias: "#admins:example.org".to_owned(),
        server_user: "@server:example.org".to_owned(),
    }
}

#[test]
fn aliases_that_are_set_resolve() {
    let mut s = aliases();
    assert!(s.set_alias("#a:example.org", ROOM, ALICE, Ok(1)).is_ok());
    assert!(s.set_alias("#b:example.org", ROOM, ALICE, Ok(2)).is_ok());
    assert!(matches!(
        s.resolve_alias("#a:example.org", None, None, None),
        RoomResolution::FindServers(r) if r == ROOM
    ));
    assert!(matches!(
        s.resolve_alias("#a:example.org", None, None, Some(vec!["other.org".to_owned()])),
        RoomResolution::Room(r, servers) if r == ROOM && servers == vec!["other.org"]
    ));
    assert!(matches!(s.resolve("#a:example.org", None, None), Resolution::Room(r) if r == ROOM));
    assert!(matches!(s.resolve("!x:y", None, None), Resolution::Room(r) if r == "!x:y"));
    assert_eq!(s.who_created_alias("#a:example.org").as_deref(), Some(ALICE));
    assert_eq!(s.local_aliases_for_room(ROOM), vec!["#a:example.org", "#b:example.org"]);
    assert_eq!(
        s.all_local_aliases(),
        vec![(ROOM.to_owned(), "a".to_owned()), (ROOM.to_owned(), "b".to_owned())],
    );
}

#[test]
fn aliases_that_are_removed_are_gone() {
    let mut s = aliases();
    s.set_alias("#a:example.org", ROOM, ALICE, Ok(1)).unwrap();
    s.set_alias("#a:example.org", ROOM, ALICE, Ok(2)).unwrap();
    s.set_alias("#b:example.org", ROOM, ALICE, Ok(3)).unwrap();
    assert!(matches!(
        s.remove_alias("#a:example.org", BOB, false, false),
        Err(Error::Request(ErrorKind::Forbidden, "User is not permitted to remove this alias."))
    ));
    assert!(s.remove_alias("#a:example.org", ALICE, false, false).is_ok());
    assert_eq!(s.resolve_local_alias("#a:example.org"), None);
    assert_eq!(s.who_created_alias("#a:example.org"), None);
    assert_eq!(s.local_aliases_for_room(ROOM), vec!["#b:example.org"]);
    assert!(matches!(
        s.remove_alias("#a:example.org", ALICE, false, false),
        Err(Error::Request(ErrorKind::NotFound, "Alias not found."))
    ));
    assert!(s.remove_alias("#b:example.org", BOB, true, false).is_ok());
}

#[test]
fn the_admin_alias_is_the_servers() {
    let mut s = aliases();
    assert!(matches!(
        s.set_alias("#admins:example.org", ROOM, ALICE, Ok(1)),
        Err(Error::Request(ErrorKind::Forbidden, "Only the server user can set this alias"))
    ));
    assert!(s.set_alias("#admins:example.org", ROOM, "@server:example.org", Ok(1)).is_ok());
    assert!(matches!(
        s.remove_alias("#admins:example.org", ALICE, true, true),
        Err(Error::Request(ErrorKind::Forbidden, "Only the server user can remove this alias"))
    ));
    assert!(s.remove_alias("#admins:example.org", "@server:example.org", false, false).is_ok());
}

#[test]
fn an_alias_without_a_count_is_not_listed() {
    let mut s = aliases();
    assert!(matches!(
        s.set_alias("#a:example.org", ROOM, ALICE, Err(Error::Other("no count"))),
        Err(Error::Other("no count"))
    ));
    assert_eq!(s.resolve_local_alias("#a:example.org").as_deref(), Some(ROOM));
    assert!(s.local_aliases_for_room(ROOM).is_empty());
}

#[test]
fn who_may_remove_an_alias() {
    let mut s = aliases();
    s.set_alias("#a:example.org", ROOM, ALICE, Ok(1)).unwrap();
    assert!(s.user_can_remove_alias("#a:example.org", ALICE, false, false).unwrap());
    assert!(s.user_can_remove_alias("#a:example.org", BOB, true, false).unwrap());
    assert!(s.user_can_remove_alias("#a:example.org", BOB, false, true).unwrap());
    assert!(s.user_can_remove_alias("#a:example.org", "@server:example.org", false, false).unwrap());
    assert!(!s.user_can_remove_alias("#a:example.org", BOB, false, false).unwrap());
}

#[test]
fn aliases_elsewhere_are_asked_for() {
    let s = aliases();
    assert!(matches!(
        s.resolve_alias("#a:other.org", None, None, None),
        RoomResolution::Ask(AliasAsk::Remote)
    ));
    assert!(matches!(
        s.resolve_alias("#a:example.org", None, None, None),
        RoomResolution::Ask(AliasAsk::Appservice)
    ));
    assert!(matches!(
        s.resolve_alias("#a:example.org", None, Some(Ok(None)), None),
        RoomResolution::Failed(Error::Request(ErrorKind::NotFound, "Alias does not exist."))
    ));
    assert!(matches!(
        s.resolve("#a:example.org", None, Some(Ok(Some(ROOM.to_owned())))),
        Resolution::Room(r) if r == ROOM
    ));
    assert!(matches!(
        s.resolve("#a:example.org", None, Some(Err(Error::Other("gone")))),
        Resolution::Failed(Error::Other("gone"))
    ));
}

#[test]
fn aliases_elsewhere_are_resolved_there() {
    let s = aliases();
    let answer = || Some(Ok((ROOM.to_owned(), vec!["other.org".to_owned()])));
    assert!(matches!(
        s.resolve_alias("#a:other.org", answer(), None, None),
        RoomResolution::Room(r, v) if r == ROOM && v == vec!["other.org"]
    ));
    assert!(matches!(
        s.resolve_with_servers("#a:other.org", Some(vec!["x".to_owned()]), answer(), None),
        RoomResolution::Room(r, v) if r == ROOM && v.is_empty()
    ));
    assert!(matches!(s.resolve("#a:other.org", answer(), None), Resolution::Room(r) if r == ROOM));
    assert!(matches!(
        s.resolve("#a:other.org", Some(Err(Error::Other("unknown"))), None),
        Resolution::Failed(Error::Other("unknown"))
    ));
}

#[test]
fn application_services_are_asked_in_turn() {
    let mut s = aliases();
    let alias = "#a:example.org";
    let query = |in_namespace, knows| AliasQuery { in_namespace, knows };
    assert!(matches!(
        s.resolve_appservice_alias(alias, &vec![query(false, None), query(true, None)]),
        AppserviceStep::Query { index: 1 }
    ));
    assert!(matches!(
        s.resolve_appservice_alias(alias, &vec![query(true, Some(false)), query(true, None)]),
        AppserviceStep::Query { index: 1 }
    ));
    assert!(matches!(
        s.resolve_appservice_alias(alias, &vec![query(true, Some(false)), query(false, None)]),
        AppserviceStep::Done(Ok(None))
    ));
    let known = vec![query(false, None), query(true, Some(true)), query(true, None)];
    assert!(matches!(
        s.resolve_appservice_alias(alias, &known),
        AppserviceStep::Done(Err(Error::Request(ErrorKind::NotFound, "Room does not exist.")))
    ));
    s.set_alias(alias, ROOM, ALICE, Ok(1)).unwrap();
    assert!(matches!(
        s.resolve_appservice_alias(alias, &known),
        AppserviceStep::Done(Ok(Some(r))) if r == ROOM
    ));
}

#[test]
fn servers_come_back_with_a_room_id_only() {
    let mut s = aliases();
    s.set_alias("#a:example.org", ROOM, ALICE, Ok(1)).unwrap();
    let servers = || Some(vec!["other.org".to_owned()]);
    assert!(matches!(
        s.resolve_with_servers(ROOM, servers(), None, None),
        RoomResolution::Room(r, v) if r == ROOM && v == vec!["other.org".to_owned()]
    ));
    assert!(matches!(
        s.resolve_with_servers(ROOM, None, None, None),
        RoomResolution::Room(_, v) if v.is_empty()
    ));
    assert!(matches!(
        s.resolve_with_servers("#a:example.org", servers(), None, None),
        RoomResolution::Room(r, v) if r == ROOM && v.is_empty()
    ));
}

#[test]
fn aliases_of_application_services() {
    let s = aliases();
    assert!(matches!(
        s.check_alias("#a:other.org", None, false),
        Err(Error::Request(ErrorKind::InvalidParam, "Alias is from another server."))
    ));
    assert!(matches!(
        s.check_alias("#a:example.org", Some(false), false),
        Err(Error::Request(ErrorKind::Exclusive, "Room alias is not in namespace."))
    ));
    assert!(matches!(
        s.check_alias("#a:example.org", None, true),
        Err(Error::Request(ErrorKind::Exclusive, "Room alias reserved by appservice."))
    ));
    assert!(s.check_alias("#a:example.org", Some(true), true).is_ok());
    assert!(s.check_alias("#a:example.org", None, false).is_ok());
}

#[test]
fn counts_are_reset() {
    let mut s = user::Service::new();
    s.db.userroomid_notificationcount.insert(continuwuity::store::Key::pair(ALICE, ROOM), 4);
    s.db.userroomid_highlightcount.insert(continuwuity::store::Key::pair(ALICE, ROOM), 2);
    assert_eq!(s.notification_count(ALICE, ROOM), 4);
    assert_eq!(s.highlight_count(ALICE, ROOM), 2);
    assert_eq!(s.last_notification_read(ALICE, ROOM), 0);
    s.reset_notification_counts(ALICE, ROOM, 99);
    assert_eq!(s.notification_count(ALICE, ROOM), 0);
    assert_eq!(s.highlight_count(ALICE, ROOM), 0);
    assert_eq!(s.last_notification_read(ALICE, ROOM), 99);
    assert_eq!(s.last_notification_read(BOB, ROOM), 0);
    assert!(!s.db.userroomid_highlightcount.contains(&continuwuity::store::Key::pair(ROOM, ALICE)));
}

#[test]
fn relations_are_walked_both_ways() {
    let mut data = Data::new();
    for from in [2, 4, 6] {
        data.add_relation(from, 1);
    }
    data.add_relation(9, 5);
    assert_eq!(data.get_relations(1, 2, false, Direction::Forward), vec![4, 6]);
    assert_eq!(data.get_relations(1, 6, false, Direction::Backward), vec![4, 2]);
    assert_eq!(data.get_relations(7, 0, false, Direction::Forward), Vec::<u64>::new());
}

#[test]
fn marks_of_events() {
    let mut data = Data::new();
    data.mark_as_referenced(ROOM, &vec!["$a".to_owned(), "$b".to_owned()]);
    assert!(data.is_event_referenced(ROOM, "$b"));
    assert!(!data.is_event_referenced("!other", "$b"));
    data.mark_event_soft_failed("$a");
    data.mark_event_rejected("$a");
    assert!(data.is_event_soft_failed("$a") && data.is_event_rejected("$a"));
    data.unmark_event_soft_failed("$a");
    assert!(!data.is_event_soft_failed("$a") && data.is_event_rejected("$a"));
    data.unmark_event_rejected("$a");
    assert!(!data.is_event_rejected("$a"));
    data.mark_event_soft_failed("$a");
    data.mark_event_rejected("$a");
    data.unmark_pdu("$a");
    assert!(!data.is_event_soft_failed("$a") && !data.is_event_rejected("$a"));
}

fn registration(id: &str, token: &str, sender: &str) -> Registration {
    Registration {
        id: id.to_owned(),
        url: Some("https://bridge.example.org".to_owned()),
        as_token: token.to_owned(),
        hs_token: "hs".to_owned(),
        sender_localpart: sender.to_owned(),
        namespaces: Namespaces {
            users: vec![NamePattern { exclusive: true, regex: "@irc_.*".to_owned() }],
            aliases: Vec::new(),
            rooms: Vec::new(),
        },
        rate_limited: Some(false),
        protocols: Some(vec!["irc".to_owned()]),
        receive_ephemeral: true,
    }
}

fn secret() -> HashedPassword {
    HashedPassword("unknown".to_owned())
}

#[test]
fn application_services_are_registered() {
    let mut s = appservice::Service::new();
    let mut users = users::Service::new("example.org".to_owned());
    let irc = registration("irc", "token", "ircbot");
    let registered = s.register_appservice(&mut users, &irc, "yaml", secret(), 0);
    assert!(matches!(registered, Ok(id) if id == "irc"));
    assert!(users.is_active("@ircbot:example.org"));
    assert_eq!(s.find_from_token("token").unwrap().id, "irc");
    assert_eq!(s.get_registration("irc").unwrap().as_token, "token");
    assert_eq!(s.iter_ids(), vec!["irc"]);
    assert!(s.id_appserviceregistrations.contains(&continuwuity::store::Key::of("irc")));
    assert!(matches!(
        s.find_from_token("other"),
        Err(Error::Request(ErrorKind::NotFound, "Appservice token not found"))
    ));
    assert!(s.register_appservice(&mut users, &irc, "yaml2", secret(), 0).is_ok());
    match s.register_appservice(&mut users, &registration("xmpp", "token", "x"), "y", secret(), 0) {
        Err(Error::RequestAbout(ErrorKind::InvalidParam, "Cannot register appservice", text)) => {
            assert_eq!(
                text,
                "Token is already used by appservice 'irc'. Please generate a different token.",
            );
        },
        _ => panic!("the token is taken"),
    }
    assert!(s.unregister_appservice("irc").is_ok());
    assert!(matches!(s.unregister_appservice("irc"), Err(Error::Other("Appservice not found"))));
    assert!(s.iter_db_ids().unwrap().is_empty());
}

#[test]
fn accounts_of_application_services_are_reactivated() {
    let mut s = appservice::Service::new();
    let mut users = users::Service::new("example.org".to_owned());
    users.set_password("@bot:example.org", None);
    assert!(!users.is_active("@bot:example.org"));
    let r = s.start_appservice(
        &mut users,
        "a".to_owned(),
        registration("a", "t", "bot"),
        secret(),
    );
    assert!(r.is_ok());
    assert!(users.is_active("@bot:example.org"));
    users.set_password("@bot:example.org", Some(HashedPassword("mine".to_owned())));
    s.start_appservice(&mut users, "a".to_owned(), registration("a", "t", "bot"), secret())
        .unwrap();
    assert_eq!(users.password_hash("@bot:example.org"), Some("mine"));
    assert!(s
        .start_appservice(
            &mut users,
            "b".to_owned(),
            registration("b", "u", "@broken"),
            secret(),
        )
        .is_err());
    let mut odd = registration("c", "v", "bot2");
    odd.namespaces.users = vec![NamePattern { exclusive: true, regex: "@irc_(".to_owned() }];
    assert!(matches!(
        s.start_appservice(&mut users, "c".to_owned(), odd, secret()),
        Err(Error::Outside(wrong)) if wrong.contains("unclosed group")
    ));
    assert!(users.is_active("@bot2:example.org"));
    assert!(s.get_registration("c").is_none());
}

#[test]
fn tokens_of_devices_are_not_for_application_services() {
    let mut s = appservice::Service::new();
    let mut users = users::Service::new("example.org".to_owned());
    users.set_password(ALICE, Some(HashedPassword("h".to_owned())));
    users.create_device(ALICE, "D1", "token", None, None, None, false, 0).unwrap();
    assert!(matches!(
        s.register_appservice(&mut users, &registration("irc", "token", "bot"), "y", secret(), 0),
        Err(Error::Request(ErrorKind::InvalidParam, _))
    ));
}

#[test]
fn conflicts_between_application_services() {
    let list = vec![
        ("a".to_owned(), registration("a", "1", "x")),
        ("b".to_owned(), registration("b", "2", "x")),
        ("c".to_owned(), registration("c", "2", "x")),
    ];
    match check_conflicts(&list) {
        Err(Error::BadDatabaseAbout("Token collision detected", text)) => {
            assert_eq!(text, "Appservices 'b' and 'c' have the same token");
        },
        _ => panic!("two tokens are the same"),
    }
    assert!(check_conflicts(&Vec::new()).is_ok());
}

const REGISTRATION: &str = "id: irc\nurl: null\nas_token: secret\nhs_token: other\n\
    sender_localpart: bot\nnamespaces: {}\n";

#[test]
fn kept_registrations_are_read() {
    let mut s = appservice::Service::new();
    s.id_appserviceregistrations.insert(continuwuity::store::Key::of("b"), REGISTRATION.to_owned());
    s.id_appserviceregistrations.insert(continuwuity::store::Key::of("a"), REGISTRATION.to_owned());
    let read = s.get_db_registration("b").unwrap();
    assert_eq!(read.id, "irc");
    assert_eq!(read.as_token, "secret");
    assert_eq!(read.sender_localpart, "bot");
    assert!(read.namespaces.users.is_empty() && read.rate_limited.is_none());
    let all = s.iter_db_ids().unwrap();
    assert_eq!(all.len(), 2);
    assert_eq!(all[0].0, "a");
    assert_eq!(all[1].0, "b");
}

#[test]
fn exclusive_names_are_claimed() {
    let mut s = appservice::Service::new();
    let mut users = users::Service::new("example.org".to_owned());
    let mut irc = registration("irc", "token", "ircbot");
    let open = |regex: &str| NamePattern { exclusive: false, regex: regex.to_owned() };
    irc.namespaces.aliases = vec![open("#free_.*"), NamePattern {
        exclusive: true,
        regex: "#irc_.*".to_owned(),
    }];
    s.register_appservice(&mut users, &irc, "yaml", secret(), 0).unwrap();
    assert!(s.is_exclusive_user_id("@irc_bob:example.org"));
    assert!(!s.is_exclusive_user_id("@bob:example.org"));
    let rooms = aliases();
    assert!(matches!(
        rooms.appservice_checks(&s, "#irc_chat:example.org", None),
        Err(Error::Request(ErrorKind::Exclusive, "Room alias reserved by appservice."))
    ));
    assert!(rooms.appservice_checks(&s, "#free_chat:example.org", None).is_ok());
    assert!(rooms.appservice_checks(&s, "#irc_chat:example.org", Some(&irc)).is_ok());
    assert!(rooms.appservice_checks(&s, "#free_chat:example.org", Some(&irc)).is_ok());
    assert!(matches!(
        rooms.appservice_checks(&s, "#chat:example.org", Some(&irc)),
        Err(Error::Request(ErrorKind::Exclusive, "Room alias is not in namespace."))
    ));
    let inside = AliasQuery::new(&irc, "#free_chat:example.org");
    assert_eq!(inside, AliasQuery { in_namespace: true, knows: None });
    let outside = AliasQuery::new(&irc, "#chat:example.org");
    assert_eq!(outside, AliasQuery { in_namespace: false, knows: None });
    assert!(s.is_exclusive_alias("#irc_chat:example.org"));
    assert!(!s.is_exclusive_alias("#free_chat:example.org"));
    assert!(!s.is_exclusive_room_id("!irc_room:example.org"));
}

#[test]
fn namespaces_that_are_no_patterns() {
    let mut irc = registration("irc", "token", "ircbot");
    assert!(check_namespaces(&irc).is_ok());
    irc.namespaces.rooms =
        vec![NamePattern { exclusive: true, regex: "(".to_owned() }];
    assert!(matches!(
        check_namespaces(&irc),
        Err(Error::Outside(wrong)) if wrong.contains("unclosed group")
    ));
}

#[test]
fn malformed_accounts_of_application_services() {
    let mut s = appservice::Service::new();
    let mut users = users::Service::new("example.org".to_owned());
    let odd = registration("irc", "token", "@irc");
    assert!(matches!(
        s.register_appservice(&mut users, &odd, "yaml", secret(), 0),
        Err(Error::Outside(wrong)) if wrong == "required colon is missing"
    ));
    assert!(s.get_registration("irc").is_none());
}

#[test]
fn whole_registrations_are_read() {
    let mut s = appservice::Service::new();
    let text = "id: irc\nurl: https://b.example.org\nas_token: a\nhs_token: h\n\
        sender_localpart: bot\nnamespaces:\n  users:\n  - exclusive: true\n    regex: '@irc_.*'\n  \
        aliases:\n  - exclusive: false\n    regex: '#irc_.*'\nrate_limited: false\n\
        protocols: [irc]\nreceive_ephemeral: true\n";
    s.id_appserviceregistrations.insert(continuwuity::store::Key::of("irc"), text.to_owned());
    let read = s.get_db_registration("irc").unwrap();
    assert_eq!(read.url.as_deref(), Some("https://b.example.org"));
    assert_eq!(read.hs_token, "h");
    assert_eq!(read.namespaces.users.len(), 1);
    assert!(read.namespaces.users[0].exclusive);
    assert_eq!(read.namespaces.users[0].regex, "@irc_.*");
    assert!(!read.namespaces.aliases[0].exclusive);
    assert!(read.namespaces.rooms.is_empty());
    assert_eq!(read.rate_limited, Some(false));
    assert_eq!(read.protocols, Some(vec!["irc".to_owned()]));
    assert!(read.receive_ephemeral);
    let again = read.duplicate();
    assert_eq!(again.namespaces.aliases[0].regex, "#irc_.*");
    assert_eq!(again.protocols, read.protocols);
}

#[test]
fn unreadable_registrations_are_removed() {
    let mut s = appservice::Service::new();
    s.id_appserviceregistrations.insert(continuwuity::store::Key::of("a"), "id: irc".to_owned());
    s.id_appserviceregistrations.insert(continuwuity::store::Key::of("b"), REGISTRATION.to_owned());
    assert!(matches!(
        s.iter_db_ids(),
        Err(Error::BadDatabaseText(text))
            if text.starts_with("Invalid appservice \"a\" registration: ")
                && text.contains("missing field")
                && text.ends_with(". Removed.")
    ));
    assert_eq!(s.iter_db_ids().unwrap().len(), 1);
    assert!(s.get_db_registration("a").is_err());
}

#[test]
fn appservices_win_over_users_with_their_token() {
    let mut s = appservice::Service::new();
    let mut users = users::Service::new("example.org".to_owned());
    let mut oauth = oauth::Service::new();
    users.set_password(ALICE, Some(secret()));
    users
        .create_device(ALICE, "PHONE", "token", None, None, None, false, 0)
        .unwrap();
    assert!(users.find_from_token("token", 0).is_some());
    s.resume_appservice(
        &mut users,
        &mut oauth,
        "irc".to_owned(),
        registration("irc", "token", "bot"),
        secret(),
        &Vec::new(),
        4,
        0,
    )
    .unwrap();
    assert!(users.find_from_token("token", 0).is_none());
    assert!(users.all_device_ids(ALICE).is_empty());
    assert_eq!(s.find_from_token("token").unwrap().id, "irc");
    assert!(matches!(users.is_deactivated("@bot:example.org"), Ok(false)));
}

#[test]
fn registration_tokens_expire() {
    let mut info = DatabaseTokenInfo::new(ALICE.to_owned(), Some(TokenExpires::AfterUses(1)));
    assert!(info.is_valid(5));
    info.uses = 1;
    assert!(!info.is_valid(5));
    let timed = DatabaseTokenInfo::new(ALICE.to_owned(), Some(TokenExpires::AfterTime(10)));
    assert!(timed.is_valid(10));
    assert!(!timed.is_valid(11));
    assert!(DatabaseTokenInfo::new(ALICE.to_owned(), None).is_valid(u128::MAX));
}

#[test]
fn registration_tokens_in_words() {
    let mut info = DatabaseTokenInfo::new(ALICE.to_owned(), Some(TokenExpires::AfterUses(12)));
    info.uses = 3;
    assert_eq!(
        info.describe(0, "", ""),
        "Token created by @alice:example.org and used 3 times. Expires after 12 uses.",
    );
    info.expires = None;
    assert_eq!(
        info.describe(0, "", ""),
        "Token created by @alice:example.org and used 3 times. Never expires.",
    );
    let at = TokenExpires::AfterTime(10);
    assert_eq!(at.describe(10, "noon", "1 hour"), "Expires in 1 hour (noon)");
    assert_eq!(at.describe(11, "noon", ""), "Expired at noon");
}

#[test]
fn expired_registration_tokens_are_cleaned_up() {
    let mut tokens = Tokens::new();
    tokens.save_token("b", DatabaseTokenInfo::new(ALICE.to_owned(), None));
    tokens.save_token("a", DatabaseTokenInfo::new(ALICE.to_owned(), Some(TokenExpires::AfterTime(5))));
    tokens.save_token("c", DatabaseTokenInfo::new(BOB.to_owned(), Some(TokenExpires::AfterUses(0))));
    let valid = tokens.iterate_and_clean_tokens(5);
    let names: Vec<&str> = valid.iter().map(|t| t.0.as_str()).collect();
    assert_eq!(names, vec!["a", "b"]);
    assert!(tokens.lookup_token_info("c").is_none());
    assert_eq!(tokens.lookup_token_info("a").unwrap().creator, ALICE);
    assert_eq!(tokens.iterate_and_clean_tokens(6).len(), 1);
    tokens.revoke_token("b");
    assert!(tokens.lookup_token_info("b").is_none());
}
