use continuwuity::error::{Error, ErrorKind};
use continuwuity::json::{Json, JsonObject};
use continuwuity::oauth;
use continuwuity::users::account::{
    invite_filter_level, user_is_ignored, FilterLevel, HashedPassword,
};
use continuwuity::users::keys::{
    algorithm_of, clean_signatures, find_only_key, parse_master_key, parse_user_signing_key,
    CrossSigningKeys, KeyRole, TakenKey,
};
use continuwuity::users::{DehydratedDevice, Device, Service, SuspensionRow};
use continuwuity::store::Key;

const ALICE: &str = "@alice:example.org";
const BOB: &str = "@bob:example.org";
const SECOND: u128 = 1_000_000_000;

fn server() -> Service {
    let mut users = Service::new("example.org".to_owned());
    users.set_password(ALICE, Some(HashedPassword("hash".to_owned())));
    users
}

fn with_device(users: &mut Service, device: &str, token: &str) {
    users
        .create_device(ALICE, device, token, None, Some("Phone".to_owned()), Some("::1".to_owned()), false, SECOND)
        .unwrap();
}

#[test]
fn hashed_passwords() {
    assert_eq!(HashedPassword::new(Ok("h".to_owned())).unwrap().0, "h");
    assert!(matches!(
        HashedPassword::new(Err("too short".to_owned())),
        Err(Error::RequestAbout(ErrorKind::InvalidParam, _, reason)) if reason == "too short"
    ));
}

#[test]
fn accounts() {
    let mut users = server();
    assert!(users.user_is_local(ALICE));
    assert!(!users.user_is_local("@alice:other.org"));
    assert!(users.account_exists(ALICE));
    assert!(!users.account_exists(BOB));
    assert!(users.is_active(ALICE));
    assert!(users.is_active_local(ALICE));
    assert!(!users.is_active(BOB));
    assert!(matches!(users.is_deactivated(ALICE), Ok(false)));
    assert!(matches!(
        users.is_deactivated(BOB),
        Err(Error::Request(ErrorKind::NotFound, "User does not exist."))
    ));
    assert!(users.create("@carol:other.org", None).is_ok());
    assert!(matches!(
        users.create("@carol:other.org", Some(HashedPassword("h".to_owned()))),
        Err(Error::Other("Cannot create a nonlocal user with a set password"))
    ));
    assert_eq!(users.count(), 2);
    assert_eq!(users.stream().len(), 2);
    let local: Vec<String> = users.list_local_users().into_iter().map(|k| k.first).collect();
    assert_eq!(local, vec![ALICE]);
}

#[test]
fn passwords_are_checked() {
    let mut users = server();
    assert_eq!(users.password_hash(ALICE), Some("hash"));
    assert_eq!(users.check_password(ALICE, true).unwrap(), ALICE);
    assert!(matches!(
        users.check_password(ALICE, false),
        Err(Error::Request(ErrorKind::Forbidden, "Invalid identifier or password."))
    ));
    assert!(matches!(
        users.check_password(BOB, true),
        Err(Error::Request(ErrorKind::InvalidParam, "This user cannot log in with a password."))
    ));
    users.set_password(ALICE, None);
    assert!(matches!(
        users.check_password(ALICE, true),
        Err(Error::Request(ErrorKind::UserDeactivated, "This user is deactivated"))
    ));
    assert!(matches!(users.is_deactivated(ALICE), Ok(true)));
}

#[test]
fn legacy_user_ids_log_in() {
    let mut users = server();
    let shouted = ALICE.to_uppercase();
    assert_eq!(users.password_hash(&shouted), Some("hash"));
    assert_eq!(users.check_password(&shouted, true).unwrap(), ALICE);
    assert!(matches!(
        users.check_password(&shouted, false),
        Err(Error::Request(ErrorKind::Forbidden, "Invalid identifier or password."))
    ));
    // An account with the ID itself comes first.
    users.set_password(&shouted, Some(HashedPassword("other".to_owned())));
    assert_eq!(users.password_hash(&shouted), Some("other"));
    assert_eq!(users.check_password(&shouted, true).unwrap(), shouted);
    assert_eq!(users.check_password(ALICE, true).unwrap(), ALICE);
    assert!(users.password_hash("@nobody:example.com").is_none());
}

#[test]
fn suspended_then_unsuspended() {
    let mut users = server();
    assert!(matches!(users.is_suspended(ALICE), Ok(false)));
    users.suspend_account(ALICE, BOB, 77);
    assert!(matches!(users.is_suspended(ALICE), Ok(true)));
    assert!(matches!(users.is_locked(ALICE), Ok(false)));
    users.unsuspend_account(ALICE);
    assert!(matches!(users.is_suspended(ALICE), Ok(false)));
    users.lock_account(ALICE, BOB, 78);
    assert!(matches!(users.is_locked(ALICE), Ok(true)));
    users.unlock_account(ALICE);
    assert!(matches!(users.is_locked(ALICE), Ok(false)));
    users.db.userid_suspension.insert(Key::of(ALICE), SuspensionRow::Malformed);
    assert!(users.is_suspended(ALICE).is_err());
}

#[test]
fn logins_can_be_disabled() {
    let mut users = server();
    assert!(!users.is_login_disabled(ALICE));
    users.disable_login(ALICE);
    assert!(users.is_login_disabled(ALICE));
    users.enable_login(ALICE);
    assert!(!users.is_login_disabled(ALICE));
}

#[test]
fn ignored_users_and_invites() {
    let ignored = Some(vec![BOB.to_owned()]);
    assert!(user_is_ignored(&ignored, BOB));
    assert!(!user_is_ignored(&ignored, ALICE));
    assert!(!user_is_ignored(&None, BOB));
    assert_eq!(invite_filter_level(&ignored, Some(FilterLevel::Allow), BOB), FilterLevel::Ignore);
    assert_eq!(invite_filter_level(&ignored, Some(FilterLevel::Block), ALICE), FilterLevel::Block);
    assert_eq!(invite_filter_level(&None, None, ALICE), FilterLevel::Allow);
}

#[test]
fn created_devices() {
    let mut users = server();
    with_device(&mut users, "D1", "t1");
    let device = users.get_device_metadata(ALICE, "D1").unwrap();
    assert_eq!(device.display_name.as_deref(), Some("Phone"));
    assert_eq!(device.last_seen_ip.as_deref(), Some("::1"));
    assert_eq!(device.last_seen_ts, Some(1000));
    assert_eq!(users.find_from_token("t1", SECOND), Some((ALICE.to_owned(), "D1".to_owned())));
    assert_eq!(users.get_token(ALICE, "D1"), Some("t1"));
    assert!(users
        .create_device(BOB, "D1", "t2", None, None, None, false, SECOND)
        .is_err());
}

#[test]
fn removed_devices_are_gone() {
    let mut users = server();
    let mut oauth = oauth::Service::new();
    with_device(&mut users, "D1", "t1");
    with_device(&mut users, "D2", "t2");
    let dehydrated =
        DehydratedDevice { device_id: "D1".to_owned(), device_data: Json::Bool(true) };
    users.db.userid_dehydrateddevice.insert(Key::of(ALICE), dehydrated);
    users.remove_device(&mut oauth, ALICE, "D3", &Vec::new(), 4);
    assert!(users.db.userid_dehydrateddevice.contains(&Key::of(ALICE)));
    users.remove_device(&mut oauth, ALICE, "D1", &vec!["!r:example.org".to_owned()], 5);
    assert!(!users.db.userid_dehydrateddevice.contains(&Key::of(ALICE)));
    assert!(users.get_device_metadata(ALICE, "D1").is_none());
    assert_eq!(users.find_from_token("t1", SECOND), None);
    assert!(users.find_from_token("t2", SECOND).is_some());
    let ids: Vec<String> = users.all_device_ids(ALICE).into_iter().map(|k| k.second).collect();
    assert_eq!(ids, vec!["D2"]);
    assert_eq!(users.all_devices_metadata(ALICE).len(), 1);
    let told = users.room_keys_changed("!r:example.org", None, None);
    assert_eq!(told.len(), 1);
    assert_eq!(told[0].count, 5);
    assert_eq!(users.changed_user(&told[0]).map(String::as_str), Some(ALICE));
}

#[test]
fn deactivated_accounts_have_no_devices() {
    let mut users = server();
    let mut oauth = oauth::Service::new();
    with_device(&mut users, "D1", "t1");
    with_device(&mut users, "D2", "t2");
    users.deactivate_account(&mut oauth, ALICE, &Vec::new(), 10);
    assert!(users.all_device_ids(ALICE).is_empty());
    assert!(matches!(users.is_deactivated(ALICE), Ok(true)));
    assert_eq!(users.find_from_token("t2", SECOND), None);
}

#[test]
fn device_metadata_is_updated() {
    let mut users = server();
    with_device(&mut users, "D1", "t1");
    let before = users.get_devicelist_version(ALICE);
    let device = Device {
        device_id: "D1".to_owned(),
        display_name: Some("Laptop".to_owned()),
        last_seen_ip: None,
        last_seen_ts: None,
    };
    users.update_device_metadata(ALICE, "D1", device);
    assert_eq!(
        users.get_device_metadata(ALICE, "D1").unwrap().display_name.as_deref(),
        Some("Laptop"),
    );
    assert_ne!(users.get_devicelist_version(ALICE), before);
    users.update_device_last_seen(ALICE, Some("D1"), "10.0.0.1", 5000);
    let device = users.get_device_metadata(ALICE, "D1").unwrap();
    assert_eq!(device.last_seen_ip.as_deref(), Some("10.0.0.1"));
    assert_eq!(device.last_seen_ts, Some(5000));
}

#[test]
fn tokens_expire() {
    let mut users = server();
    with_device(&mut users, "D1", "t1");
    users.set_token(ALICE, "D1", "t2", Some(10), false, 100 * SECOND).unwrap();
    assert_eq!(users.find_from_token("t1", 100 * SECOND), None);
    assert!(users.find_from_token("t2", 110 * SECOND).is_some());
    assert_eq!(users.find_from_token("t2", 110 * SECOND + 1), None);
    assert!(!users.generate_unique_token("t2", false));
    assert!(!users.generate_unique_token("t3", true));
    assert!(users.generate_unique_token("t3", false));
}

#[test]
fn login_tokens_work_once() {
    let mut users = server();
    users.create_login_token(ALICE, "lt", 1000, 50);
    assert_eq!(users.find_from_login_token("lt", 60).unwrap(), ALICE);
    assert!(matches!(
        users.find_from_login_token("lt", 60),
        Err(Error::Request(ErrorKind::Forbidden, _))
    ));
    users.create_login_token(ALICE, "late", 1000, 50);
    assert!(users.find_from_login_token("late", 2000).is_err());
}

#[test]
fn openid_tokens_expire() {
    let mut users = server();
    users.create_openid_token(ALICE, "ot", 3600, 0);
    assert_eq!(users.find_from_openid_token("ot", 1000).unwrap(), ALICE);
    assert!(users.find_from_openid_token("ot", 3_600_001).is_err());
    assert!(users.find_from_openid_token("ot", 1000).is_err());
    assert!(users.find_from_openid_token("none", 0).is_err());
}

#[test]
fn profiles() {
    let mut users = server();
    users.set_displayname(ALICE, Some("Alice".to_owned()));
    users.set_avatar_url(ALICE, Some("mxc://a/b".to_owned()));
    users.set_blurhash(ALICE, Some("L0".to_owned()));
    users.set_profile_key(ALICE, "tz", Some(Json::String("UTC".to_owned())));
    assert_eq!(users.displayname(ALICE).map(String::as_str), Some("Alice"));
    assert_eq!(users.avatar_url(ALICE).map(String::as_str), Some("mxc://a/b"));
    assert_eq!(users.blurhash(ALICE).map(String::as_str), Some("L0"));
    assert_eq!(users.profile_key(ALICE, "tz").and_then(Json::as_str), Some("UTC"));
    assert_eq!(users.all_profile_keys(ALICE).len(), 1);
    users.clear_profile(ALICE);
    assert!(users.displayname(ALICE).is_none());
    assert!(users.avatar_url(ALICE).is_none());
    assert!(users.blurhash(ALICE).is_none());
    assert!(users.profile_key(ALICE, "tz").is_none());
}

#[test]
fn filters() {
    let mut users = server();
    users.create_filter(ALICE, Json::Number("1.5".to_owned()), "f2");
    assert!(matches!(users.get_filter(ALICE, "f2"), Some(Json::Number(n)) if n == "1.5"));
    users.create_filter(ALICE, Json::Bool(true), "f1");
    assert!(matches!(users.get_filter(ALICE, "f1"), Some(Json::Bool(true))));
    assert!(users.get_filter(BOB, "f1").is_none());
}

#[test]
fn one_time_keys_are_taken_once() {
    let mut users = server();
    with_device(&mut users, "D1", "t1");
    assert_eq!(algorithm_of("signed_curve25519:AAAA"), "signed_curve25519");
    users
        .add_one_time_key(ALICE, "D1", "signed_curve25519:AAAA", Json::String("k".to_owned()), 3)
        .unwrap();
    users.add_one_time_key(ALICE, "D1", "signed_curve25519:B", Json::Null, 3).unwrap();
    users.add_one_time_key(ALICE, "D1", "curve25519:C", Json::Null, 3).unwrap();
    let counts: Vec<(String, usize)> = users
        .count_one_time_keys(ALICE, "D1")
        .into_iter()
        .map(|of| (of.algorithm, of.count))
        .collect();
    assert_eq!(counts, vec![("curve25519".to_owned(), 1), ("signed_curve25519".to_owned(), 2)]);
    assert!(users.take_one_time_key(ALICE, "D1", "curve25519", 4).is_ok());
    match users.take_one_time_key(ALICE, "D1", "signed_curve25519", 4) {
        Ok(TakenKey::OneTime { key_id, key }) => {
            assert_eq!(key_id, "signed_curve25519:AAAA");
            assert_eq!(key.as_str(), Some("k"));
        },
        _ => panic!("a one-time key was there"),
    }
    assert_eq!(users.last_one_time_keys_update(ALICE), 4);
    assert!(users.take_one_time_key(ALICE, "D1", "signed_curve25519", 4).is_ok());
    assert!(users.count_one_time_keys(ALICE, "D1").is_empty());
    assert!(users.take_one_time_key(ALICE, "D1", "signed_curve25519", 5).is_err());
    let fallback = Json::String("f".to_owned());
    users
        .add_fallback_key(ALICE, "D1", "signed_curve25519:FFFF", fallback, false)
        .unwrap();
    assert_eq!(users.list_unused_fallback_key_types(ALICE, "D1").len(), 1);
    for count in [6, 7] {
        match users.take_one_time_key(ALICE, "D1", "signed_curve25519", count) {
            Ok(TakenKey::Fallback { key_id, key }) => {
                assert_eq!(key_id, "signed_curve25519:FFFF");
                assert_eq!(key.as_str(), Some("f"));
            },
            _ => panic!("the fallback key stays"),
        }
        assert!(users.list_unused_fallback_key_types(ALICE, "D1").is_empty());
    }
}

fn signed_key(signers: &[&str]) -> Json {
    let mut signatures = JsonObject::new();
    for signer in signers {
        signatures.insert(signer, Json::String("sig".to_owned()));
    }
    let mut key = JsonObject::new();
    key.insert("usage", Json::Null);
    key.insert("signatures", Json::Object(signatures));
    Json::Object(key)
}

fn cross_signing_key(usage: &str, id: &str, signers: &[&str]) -> String {
    let signatures: Vec<String> = signers
        .iter()
        .map(|signer| format!("\"{signer}\":{{\"ed25519:OWN\":\"sig\"}}"))
        .collect();
    format!(
        "{{\"user_id\":\"{ALICE}\",\"usage\":[\"{usage}\"],\"keys\":{{\"ed25519:{id}\":\"{id}\"}},\
         \"signatures\":{{{}}}}}",
        signatures.join(",")
    )
}

fn signers_of(key: &Json) -> Vec<String> {
    key.as_object().unwrap().get_object("signatures").unwrap().names()
}

#[test]
fn signatures_of_others_are_hidden() {
    let allowed = vec!["@carol:example.org".to_owned()];
    let all = [ALICE, BOB, "@carol:example.org"];
    let own = clean_signatures(signed_key(&all), Some(ALICE), ALICE, &Vec::new()).unwrap();
    assert_eq!(signers_of(&own), vec![ALICE]);
    let others = clean_signatures(signed_key(&all), Some(BOB), ALICE, &allowed).unwrap();
    let mut seen = signers_of(&others);
    seen.sort();
    assert_eq!(seen, vec![ALICE, BOB, "@carol:example.org"]);
    let nobody = clean_signatures(signed_key(&all), None, ALICE, &Vec::new()).unwrap();
    assert_eq!(signers_of(&nobody), vec![ALICE]);
    assert!(matches!(
        clean_signatures(signed_key(&["nobody"]), Some(BOB), ALICE, &allowed),
        Err(Error::BadDatabase("Invalid user ID in database."))
    ));
}

#[test]
fn cross_signing_keys() {
    let mut users = server();
    let keys = CrossSigningKeys {
        master: Some(cross_signing_key("master", "MASTER", &[ALICE, BOB])),
        self_signing: Some(cross_signing_key("self_signing", "SELF", &[ALICE])),
        user_signing: Some(cross_signing_key("user_signing", "USER", &[])),
    };
    users.add_cross_signing_keys(ALICE, keys, true, &Vec::new(), 8).unwrap();
    assert_eq!(users.keys_changed(ALICE, None, None).len(), 1);
    assert!(users.keys_changed(ALICE, Some(8), None).is_empty());
    let seen = users.get_master_key(Some("@dave:example.org"), ALICE, &Vec::new()).unwrap().unwrap();
    assert_eq!(signers_of(&seen), vec![ALICE]);
    let own = users.get_master_key(Some(ALICE), ALICE, &Vec::new()).unwrap().unwrap();
    assert_eq!(signers_of(&own), vec![ALICE]);
    let bobs = users.get_master_key(Some(BOB), ALICE, &Vec::new()).unwrap().unwrap();
    assert_eq!(signers_of(&bobs).len(), 2);
    assert!(users.get_self_signing_key(Some(ALICE), ALICE, &Vec::new()).unwrap().is_some());
    assert!(users.get_key("USER", None, ALICE, &Vec::new()).unwrap().is_some());
    assert!(users.get_key("NONE", None, ALICE, &Vec::new()).unwrap().is_none());
    assert!(users.get_user_signing_key(ALICE).is_some());
    assert!(users.get_master_key(None, BOB, &Vec::new()).unwrap().is_none());
    users
        .sign_key(ALICE, "MASTER", "ed25519:D1", "new".to_owned(), "@carol:example.org", &Vec::new(), 9)
        .unwrap();
    let carol = Some("@carol:example.org");
    let seen = users.get_master_key(carol, ALICE, &Vec::new()).unwrap().unwrap();
    let carols = seen.as_object().unwrap().get_object("signatures").unwrap();
    assert_eq!(carols.get_object("@carol:example.org").unwrap().get_str("ed25519:D1"), Some("new"));
    users.db.keyid_key.insert(Key::pair(ALICE, "ODD"), signed_key(&[BOB]));
    assert!(matches!(
        users.sign_key(ALICE, "ODD", "ed25519:D1", "new".to_owned(), BOB, &Vec::new(), 9),
        Err(Error::BadDatabase("signatures in keyid_key for a user is invalid."))
    ));
    assert!(users.sign_key(ALICE, "NONE", "ed25519:D1", "new".to_owned(), BOB, &Vec::new(), 9).is_err());
}

#[test]
fn malformed_cross_signing_keys() {
    assert!(matches!(
        find_only_key(&Err("no key".to_owned()), KeyRole::SelfSigning),
        Err(Error::RequestAbout(ErrorKind::InvalidParam, "Invalid self signing key", reason))
            if reason == "no key"
    ));
    assert!(matches!(
        find_only_key(&Err("no key".to_owned()), KeyRole::UserSigning),
        Err(Error::Request(ErrorKind::InvalidParam, "Invalid user signing key"))
    ));
    assert!(matches!(
        find_only_key(&Ok(Vec::new()), KeyRole::UserSigning),
        Err(Error::Request(ErrorKind::InvalidParam, "User signing key contained no key."))
    ));
    assert!(matches!(
        find_only_key(&Ok(vec!["a".to_owned(), "b".to_owned()]), KeyRole::Master),
        Err(Error::Request(ErrorKind::InvalidParam, "Master key contained more than one key."))
    ));
    assert!(matches!(
        parse_master_key("null"),
        Err(Error::Request(ErrorKind::InvalidParam, "Invalid master key"))
    ));
    let whole = cross_signing_key("user_signing", "USER", &[ALICE]);
    assert_eq!(parse_user_signing_key(&whole).unwrap(), "USER");
    let with = |field: &str| cross_signing_key("master", "MASTER", &[]).replacen('{', field, 1);
    let odd = with("{\"org.example.made\":18446744073709551615,\"org.example.share\":0.5,");
    assert_eq!(parse_master_key(&odd).unwrap(), "MASTER");
    let mut users = server();
    let keys = CrossSigningKeys { master: Some(odd), self_signing: None, user_signing: None };
    users.add_cross_signing_keys(ALICE, keys, false, &Vec::new(), 8).unwrap();
    let kept = users.get_master_key(Some(ALICE), ALICE, &Vec::new()).unwrap().unwrap();
    let kept = kept.as_object().unwrap();
    assert!(matches!(kept.get("org.example.share"), Some(Json::Number(n)) if n == "0.5"));
    assert!(matches!(
        kept.get("org.example.made"),
        Some(Json::Number(n)) if n == "18446744073709551615"
    ));
    assert_eq!(kept.get_str("user_id"), Some(ALICE));
    let empty = whole.replace("\"ed25519:USER\":\"USER\"", "");
    assert!(matches!(
        parse_master_key(&empty),
        Err(Error::Request(ErrorKind::InvalidParam, "Master key contained no key."))
    ));
    let mut users = server();
    let keys = CrossSigningKeys {
        master: Some(cross_signing_key("master", "MASTER", &[])),
        self_signing: Some("  null".to_owned()),
        user_signing: Some(cross_signing_key("user_signing", "USER", &[])),
    };
    assert!(matches!(
        users.add_cross_signing_keys(ALICE, keys, true, &Vec::new(), 8),
        Err(Error::RequestAbout(ErrorKind::InvalidParam, "Invalid self signing key", reason))
            if reason.starts_with("Error(\"invalid type: null") && reason.contains("column: 6")
    ));
    assert!(users.get_key("MASTER", None, ALICE, &Vec::new()).unwrap().is_some());
    assert!(users.get_user_signing_key(ALICE).is_none());
    assert!(users.keys_changed(ALICE, None, None).is_empty());
}

#[test]
fn to_device_events() {
    let mut users = server();
    for count in [3, 5, 7] {
        users.add_to_device_event(BOB, ALICE, "D1", "m.dummy", Json::Null, count);
    }
    let all = users.get_to_device_events(ALICE, "D1", None, None);
    assert_eq!(all.len(), 3);
    let some = users.get_to_device_events(ALICE, "D1", Some(3), Some(5));
    assert_eq!(some.len(), 1);
    let event = users.to_device_event(&some[0]).unwrap().as_object().unwrap();
    assert_eq!(event.get_str("sender"), Some(BOB));
    assert_eq!(event.get_str("type"), Some("m.dummy"));
    users.remove_to_device_events(ALICE, "D1", Some(5));
    assert_eq!(users.get_to_device_events(ALICE, "D1", None, None).len(), 1);
    users.remove_to_device_events(ALICE, "D1", None);
    assert!(users.get_to_device_events(ALICE, "D1", None, None).is_empty());
}

#[test]
fn device_keys() {
    let mut users = server();
    users.add_device_keys(ALICE, "D1", Json::Integer(1), &vec!["!r:x".to_owned()], 4);
    assert!(matches!(users.get_device_keys(ALICE, "D1"), Some(Json::Integer(1))));
    assert_eq!(users.keys_changed(ALICE, Some(3), Some(4)).len(), 1);
    assert_eq!(users.room_keys_changed("!r:x", None, None).len(), 1);
}

#[test]
fn deactivation_takes_everything_of_the_devices() {
    let mut users = server();
    let mut sessions = oauth::Service::new();
    with_device(&mut users, "D1", "t1");
    with_device(&mut users, "D2", "t2");
    users.add_to_device_event(BOB, ALICE, "D1", "m.dummy", Json::Null, 4);
    users.deactivate_account(&mut sessions, ALICE, &vec!["!r:example.org".to_owned()], 5);
    assert!(users.account_exists(ALICE));
    assert!(!users.is_active(ALICE));
    assert!(users.all_device_ids(ALICE).is_empty());
    assert!(users.find_from_token("t1", SECOND).is_none());
    assert!(users.find_from_token("t2", SECOND).is_none());
    assert!(users.get_to_device_events(ALICE, "D1", None, None).is_empty());
    let counts: Vec<u64> =
        users.room_keys_changed("!r:example.org", None, None).iter().map(|k| k.count).collect();
    assert_eq!(counts, vec![5, 6]);
}

#[test]
fn the_time_of_a_device_is_noted_once_in_ten_seconds() {
    let mut users = server();
    with_device(&mut users, "D1", "t1");
    let version = users.get_devicelist_version(ALICE);
    users.update_device_last_seen(ALICE, Some("D1"), "::2", 10_999);
    let seen = |users: &Service| {
        let device = users.get_device_metadata(ALICE, "D1").unwrap();
        (device.last_seen_ip.clone().unwrap(), device.last_seen_ts.unwrap())
    };
    assert_eq!(seen(&users), ("::2".to_owned(), 1000));
    assert_eq!(users.get_devicelist_version(ALICE), version);
    users.update_device_last_seen(ALICE, Some("D1"), "::4", 11_000);
    assert_eq!(seen(&users), ("::4".to_owned(), 11_000));
    users.update_device_last_seen(ALICE, Some("D1"), "::2", 10_000);
    assert_eq!(seen(&users), ("::2".to_owned(), 11_000));
    users.update_device_last_seen(ALICE, None, "::3", 99_000);
    users.update_device_last_seen(ALICE, Some("D9"), "::3", 99_000);
    assert_eq!(seen(&users), ("::2".to_owned(), 11_000));
    assert_eq!(users.get_devicelist_version(ALICE), version);
}

#[test]
fn locks_keep_who_set_them() {
    let mut users = server();
    users.lock_account(ALICE, BOB, 5);
    users.lock_account(ALICE, "@carol:example.org", 6);
    match users.db.userid_lock.get(&Key::of(ALICE)) {
        Some(SuspensionRow::Suspension(lock)) => {
            assert_eq!((lock.suspended_by.as_str(), lock.suspended_at), (BOB, 5));
        },
        _ => panic!("the account is locked"),
    }
    assert!(matches!(users.is_locked(ALICE), Ok(true)));
    users.unlock_account(ALICE);
    assert!(matches!(users.is_locked(ALICE), Ok(false)));
}
