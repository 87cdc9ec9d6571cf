use continuwuity::error::{Error, ErrorKind};
use continuwuity::json::{Json, JsonObject};
use continuwuity::rooms::event_handler::bad_events::BadEvents;
use continuwuity::rooms::event_handler::fetch_and_handle_outliers::{
    gathered, Backfill, Chase, ChaseAsk, Gathered, Handled, Handling, Reply, Source,
};
use continuwuity::rooms::event_handler::fetch_prev::{FetchPrevs, PrevsAsk};
use continuwuity::rooms::event_handler::handle_incoming_pdu::{
    rescinds_invite, should_rescind_invite, valid_sender, Incoming, IncomingAsk, InviteEvent,
};
use continuwuity::rooms::event_handler::handle_outlier_pdu::{
    AuthEvent, Outlier, OutlierAsk, Verified,
};
use continuwuity::rooms::event_handler::parse_incoming_pdu::{
    expect_event_id_array, read_incoming, room_id_of_create_event, room_of_incoming,
    validate_pdu, ParseAsk, ParseIncoming, RoomIdSource,
};
use continuwuity::rooms::event_handler::policy_server::{
    add_policy_signature, after_wait, extract_signature, fetch_policy_server_signature,
    find_signature, handle_policy_server_error, verify_policy_signature, ConfigFailure,
    FetchFailure, PolicyAsk, PolicyCheck, PolicyRetry, PolicyServer, PolicySubject, SignOutcome,
    SignResponse, POLICY_SERVER_KEY_ID_ED25519,
};
use continuwuity::rooms::event_handler::upgrade_outlier_pdu::{
    add_to_state, apply_mark, new_extremities, policy_verdict, rejected_auth_event, Ask, Mark,
    Upgrade,
};
use continuwuity::rooms::pdu::{PduEvent, PduId};
use continuwuity::rooms::pdu_metadata::Data;
use continuwuity::rooms::timeline::create::{
    next_depth, note_replaced, pdu_fits, pdu_fits_as, prev_events_of,
    room_version_from_event, CreateAsk, CreateEvent, PartialPdu, ReplacedState, SignAsk,
    SignEvent, SignFailure, MAX_DEPTH,
};
use continuwuity::store::{Column, Key};
use ruma::signatures::{sign_json, Ed25519KeyPair};

const ALICE: &str = "@alice:example.org";
const ROOM: &str = "!room:example.org";

fn object(text: &str) -> JsonObject {
    match read_incoming(text) {
        Ok(object) => object,
        Err(_) => panic!("no object: {text}"),
    }
}

fn strings(texts: &[&str]) -> Vec<String> {
    texts.iter().map(|text| text.to_string()).collect()
}

fn pdu(event_id: &str, prev_events: &[&str], auth_events: &[&str]) -> PduEvent {
    PduEvent {
        event_id: event_id.to_owned(),
        room_id: Some(ROOM.to_owned()),
        sender: ALICE.to_owned(),
        kind: "m.room.message".to_owned(),
        state_key: None,
        prev_events: strings(prev_events),
        auth_events: strings(auth_events),
        origin_server_ts: 1000,
    }
}

#[test]
fn failures_of_events_are_counted() {
    let mut bad = BadEvents::new();
    assert!(bad.get("$a").is_none());
    bad.back_off("$a", 10);
    bad.back_off("$a", 20);
    bad.back_off("$b", 30);
    let failures = bad.get("$a").unwrap();
    assert_eq!((failures.at, failures.tries), (20, 2));
    let failures = bad.get("$b").unwrap();
    assert_eq!((failures.at, failures.tries), (30, 1));
}

#[test]
fn rooms_of_incoming_events() {
    assert!(matches!(
        read_incoming("no JSON"),
        Err(Error::BadServerResponseText(text))
            if text.starts_with("Error parsing incoming event Error(\"expected ident\"")
    ));
    assert!(read_incoming("[1]").is_err());
    assert!(matches!(
        room_of_incoming(&object(r#"{"room_id":"!room:example.org"}"#)),
        Err(Error::Request(ErrorKind::InvalidParam, "Missing or invalid type in pdu"))
    ));
    assert!(matches!(
        room_of_incoming(&object(r#"{"type":"m.room.name","room_id":"!room:example.org"}"#)),
        Ok(RoomIdSource::Claimed(id)) if id == ROOM
    ));
    assert!(matches!(
        room_of_incoming(&object(r#"{"type":"m.room.name","room_id":"room"}"#)),
        Err(Error::RequestText(ErrorKind::BadJson, text))
            if text == "Invalid room_id \"room\" in pdu: leading sigil is incorrect or missing"
    ));
    assert!(matches!(
        room_of_incoming(&object(r#"{"type":"m.room.name","state_key":""}"#)),
        Err(Error::Request(ErrorKind::BadJson, "Missing room_id in pdu"))
    ));
}

#[test]
fn rooms_named_by_their_create_event() {
    let create = |content: &str| {
        room_of_incoming(&object(&format!(
            "{{\"type\":\"m.room.create\",\"state_key\":\"\",\"content\":{content}}}"
        )))
    };
    assert!(matches!(create(r#"{"room_version":"12"}"#), Ok(RoomIdSource::CreateEvent)));
    assert!(matches!(
        create(r#"{"room_version":"11"}"#),
        Err(Error::Request(ErrorKind::BadJson, "Missing room_id in pdu"))
    ));
    assert!(matches!(
        create("{}"),
        Err(Error::Request(ErrorKind::BadJson, "Missing room_id in pdu"))
    ));
    assert!(matches!(
        create(r#"{"room_version":"a version"}"#),
        Err(Error::RequestAbout(ErrorKind::BadJson, "Invalid room_version in pdu", wrong))
            if wrong == "identifier contains invalid characters"
    ));
    assert!(matches!(
        create(r#"{"room_version":"99"}"#),
        Err(Error::Request(ErrorKind::BadJson, "Unknown room version in pdu"))
    ));
    assert!(matches!(
        create("7"),
        Err(Error::Request(ErrorKind::InvalidParam, "Missing or invalid content in pdu"))
    ));
    assert!(matches!(
        room_of_incoming(&object(
            r#"{"type":"m.room.create","content":{"room_version":"12"}}"#
        )),
        Err(Error::Request(ErrorKind::BadJson, "Missing room_id in pdu"))
    ));
    assert_eq!(room_id_of_create_event("$abc"), "!abc");
}

fn with_events(auth: usize, prev: usize) -> JsonObject {
    let list = |n: usize| (0..n).map(|i| format!("\"$e{i}\"")).collect::<Vec<_>>().join(",");
    object(&format!("{{\"auth_events\":[{}],\"prev_events\":[{}]}}", list(auth), list(prev)))
}

#[test]
fn events_with_too_many_parents_are_malformed() {
    assert!(validate_pdu(&with_events(10, 20)).is_ok());
    assert!(validate_pdu(&with_events(0, 0)).is_ok());
    assert!(matches!(
        validate_pdu(&with_events(11, 20)),
        Err(Error::Request(ErrorKind::BadJson, "PDU has too many auth events"))
    ));
    assert!(matches!(
        validate_pdu(&with_events(10, 21)),
        Err(Error::Request(ErrorKind::BadJson, "PDU has too many prev events"))
    ));
    let ids = |text: &str| expect_event_id_array(&object(text), "auth_events");
    assert_eq!(ids(r#"{"auth_events":["$a","$b"]}"#).unwrap(), vec!["$a", "$b"]);
    let wrong = |text: &str| match ids(text) {
        Err(Error::RequestText(ErrorKind::BadJson, text)) => text,
        other => panic!("{other:?}"),
    };
    assert_eq!(wrong("{}"), "missing field `auth_events` on PDU");
    assert_eq!(
        wrong(r#"{"auth_events":{}}"#),
        "expected an array PDU field `auth_events`"
    );
    assert_eq!(
        wrong(r#"{"auth_events":["$a",1]}"#),
        "expected an array of event IDs for `auth_events`"
    );
    assert_eq!(
        wrong(r#"{"auth_events":["a",1]}"#),
        "invalid event ID in `auth_events`: leading sigil is incorrect or missing"
    );
}

#[test]
fn incoming_events_are_parsed() {
    let text = r#"{"type":"m.room.name","room_id":"!room:example.org","auth_events":[],"prev_events":[]}"#;
    let mut known = ParseIncoming::new();
    assert!(matches!(
        known.parse_incoming_pdu(text),
        ParseAsk::RoomVersion { room_id } if room_id == ROOM
    ));
    known.room_version = Some(None);
    assert!(matches!(
        known.parse_incoming_pdu(text),
        ParseAsk::Canonical { version } if version == "1"
    ));
    known.room_version = Some(Some("11".to_owned()));
    assert!(matches!(
        known.parse_incoming_pdu(text),
        ParseAsk::Canonical { version } if version == "11"
    ));
    known.canonical = Some(Err("no hash".to_owned()));
    assert!(matches!(
        known.parse_incoming_pdu(text),
        ParseAsk::Done(Err(Error::RequestAbout(
            ErrorKind::InvalidParam,
            "Could not convert event to canonical json",
            reason,
        ))) if reason == "no hash"
    ));
    known.canonical = Some(Ok(("$e".to_owned(), with_events(10, 21))));
    assert!(matches!(
        known.parse_incoming_pdu(text),
        ParseAsk::Done(Err(Error::Request(ErrorKind::BadJson, "PDU has too many prev events")))
    ));
    known.canonical = Some(Ok(("$e".to_owned(), with_events(10, 20))));
    match known.parse_incoming_pdu(text) {
        ParseAsk::Done(Ok(parsed)) => {
            assert_eq!((parsed.room_id.as_str(), parsed.event_id.as_str()), (ROOM, "$e"));
            assert_eq!(parsed.value.get("prev_events").unwrap().as_array().unwrap().len(), 20);
        }
        _ => panic!("not parsed"),
    }
    assert!(matches!(
        known.parse_incoming_pdu("{}"),
        ParseAsk::Done(Err(Error::Request(
            ErrorKind::InvalidParam,
            "Missing or invalid type in pdu"
        )))
    ));
    assert!(matches!(
        known.parse_incoming_pdu("{"),
        ParseAsk::Done(Err(Error::BadServerResponseText(_)))
    ));
}

#[test]
fn incoming_create_events_name_their_room() {
    let text = r#"{"type":"m.room.create","state_key":"","content":{"room_version":"12"}}"#;
    let mut known = ParseIncoming::new();
    assert!(matches!(
        known.parse_incoming_pdu(text),
        ParseAsk::CreateEventId { version } if version == "12"
    ));
    known.create_event_id = Some(Err(Error::Other("no hash")));
    assert!(matches!(
        known.parse_incoming_pdu(text),
        ParseAsk::Done(Err(Error::Other("no hash")))
    ));
    known.create_event_id = Some(Ok("$abc".to_owned()));
    assert!(matches!(
        known.parse_incoming_value(&object(text)),
        ParseAsk::RoomVersion { room_id } if room_id == "!abc"
    ));
}

#[test]
fn events_fit_up_to_their_limits() {
    let with = |name: &str, n: usize| object(&format!("{{\"{name}\":\"{}\"}}", "x".repeat(n)));
    for name in ["room_id", "event_id", "sender", "type", "state_key"] {
        assert!(pdu_fits(&with(name, 255)));
        assert!(!pdu_fits(&with(name, 256)));
    }
    // {"body":""} has eleven bytes.
    assert!(pdu_fits(&with("body", 65535 - 11)));
    assert!(!pdu_fits(&with("body", 65536 - 11)));
    let umlauts = object(&format!("{{\"type\":\"{}\"}}", "\u{e4}".repeat(128)));
    assert!(!pdu_fits(&umlauts));
    assert!(!pdu_fits_as(&object("{}"), &None));
    assert!(pdu_fits_as(&object("{}"), &Some("{}".to_owned())));
}

fn key_pair() -> Ed25519KeyPair {
    Ed25519KeyPair::from_der(&Ed25519KeyPair::generate(), "policy_server".to_owned()).unwrap()
}

const MESSAGE: &str = r#"{"type":"m.room.message","room_id":"!room:example.org","sender":"@alice:example.org","origin_server_ts":1,"depth":4,"content":CONTENT}"#;

/// The signature of the redacted message.
fn signature(key: &Ed25519KeyPair) -> String {
    let mut redacted: ruma::CanonicalJsonObject =
        serde_json::from_str(&MESSAGE.replace("CONTENT", "{}")).unwrap();
    sign_json("policy.example", key, &mut redacted).unwrap();
    let text = serde_json::to_string(&redacted).unwrap();
    find_signature(&object(&text), "policy.example", POLICY_SERVER_KEY_ID_ED25519)
        .unwrap()
        .to_owned()
}

fn message() -> JsonObject {
    object(&MESSAGE.replace("CONTENT", r#"{"body":"hello"}"#))
}

fn response(key_id: &str, signature: &str) -> JsonObject {
    object(&format!("{{\"policy.example\":{{\"{key_id}\":\"{signature}\"}}}}"))
}

#[test]
fn policy_signatures_are_over_the_redacted_event() {
    let key = key_pair();
    let public = key.public_key().to_vec();
    let mut event = message();
    assert!(!verify_policy_signature("policy.example", &public, &event, "11"));
    let signed = response(POLICY_SERVER_KEY_ID_ED25519, &signature(&key));
    assert!(add_policy_signature(&mut event, "policy.example", &signed).is_ok());
    assert_eq!(
        extract_signature(&event, "policy.example", POLICY_SERVER_KEY_ID_ED25519).unwrap().len(),
        64
    );
    assert!(verify_policy_signature("policy.example", &public, &event, "11"));
    assert!(!verify_policy_signature("other.example", &public, &event, "11"));
    // It makes no difference whether the event has been redacted.
    let mut redacted = object(&MESSAGE.replace("CONTENT", "{}"));
    assert!(add_policy_signature(&mut redacted, "policy.example", &signed).is_ok());
    assert!(verify_policy_signature("policy.example", &public, &redacted, "11"));
    // Nor do the signatures of others.
    let mut other = response("ed25519:other", "x");
    let theirs = other.take("policy.example").unwrap();
    let mut signatures = match redacted.take("signatures") {
        Some(Json::Object(signatures)) => signatures,
        _ => panic!("the event is signed"),
    };
    signatures.insert("third.example", theirs);
    redacted.insert("signatures", Json::Object(signatures));
    assert!(verify_policy_signature("policy.example", &public, &redacted, "11"));
    assert!(!verify_policy_signature(
        "policy.example",
        &key_pair().public_key().to_vec(),
        &event,
        "11"
    ));
    event.insert("unsigned", Json::Object(JsonObject::new()));
    assert!(verify_policy_signature("policy.example", &public, &event, "11"));
    event.insert("depth", Json::Integer(5));
    assert!(!verify_policy_signature("policy.example", &public, &event, "11"));
}

#[test]
fn policy_signatures_that_make_no_sense() {
    let mut event = object(r#"{"signatures":{"example.org":{"ed25519:1":"abc"}}}"#);
    assert!(matches!(
        add_policy_signature(&mut event, "policy.example", &JsonObject::new()),
        Err(Error::Request(ErrorKind::Forbidden, "Policy server did not sign the event"))
    ));
    assert!(matches!(
        add_policy_signature(&mut event, "policy.example", &response("ed25519:other", "x")),
        Err(Error::BadServerResponse(
            "Policy server did not return a signature with the expected key ID"
        ))
    ));
    let signed = response(POLICY_SERVER_KEY_ID_ED25519, "!");
    assert!(add_policy_signature(&mut event, "policy.example", &signed).is_ok());
    assert_eq!(
        find_signature(&event, "policy.example", POLICY_SERVER_KEY_ID_ED25519),
        Some("!")
    );
    assert_eq!(find_signature(&event, "example.org", "ed25519:1"), Some("abc"));
    assert!(extract_signature(&event, "policy.example", POLICY_SERVER_KEY_ID_ED25519).is_none());
    assert_eq!(
        extract_signature(&object(r#"{"signatures":{"a":{"k":"AQID"}}}"#), "a", "k"),
        Some(vec![1, 2, 3])
    );
}

fn subject<'a>(pdu_json: &'a JsonObject, incoming: bool) -> PolicySubject<'a> {
    PolicySubject {
        kind: "m.room.message",
        state_key: None,
        pdu_json,
        version: "11",
        incoming,
        server_name: "example.org",
        federation_loopback: false,
    }
}

#[test]
fn the_policy_server_has_to_sign() {
    let key = key_pair();
    let unsigned = message();
    let mut signed = message();
    let answer = response(POLICY_SERVER_KEY_ID_ED25519, &signature(&key));
    add_policy_signature(&mut signed, "policy.example", &answer).unwrap();
    let mut known = PolicyCheck::new();
    let ask = |known: &PolicyCheck, event: &JsonObject, incoming: bool| {
        known.policy_server_allows_event(&subject(event, incoming))
    };
    assert!(matches!(ask(&known, &unsigned, true), PolicyAsk::Config));
    known.config = Some(Ok(PolicyServer {
        via: "policy.example".to_owned(),
        key: Some(key.public_key().to_vec()),
    }));
    assert!(matches!(ask(&known, &unsigned, true), PolicyAsk::ViaInRoom));
    known.via_in_room = Some(true);
    assert!(matches!(ask(&known, &unsigned, true), PolicyAsk::Fetch));
    assert!(matches!(ask(&known, &signed, true), PolicyAsk::Done(Ok(()))));
    assert!(matches!(ask(&known, &signed, false), PolicyAsk::Fetch));
    known.fetched = Some(Ok(()));
    assert!(matches!(ask(&known, &signed, false), PolicyAsk::Done(Ok(()))));
    assert!(matches!(
        ask(&known, &unsigned, true),
        PolicyAsk::Done(Err(Error::Request(
            ErrorKind::Forbidden,
            "Policy server signature is invalid"
        )))
    ));
    assert!(matches!(
        ask(&known, &unsigned, false),
        PolicyAsk::Done(Err(Error::RequestStatus(ErrorKind::Unknown, _, 502)))
    ));
    known.fetched = Some(Err(FetchFailure::Other(Error::Other("spam"))));
    assert!(matches!(ask(&known, &signed, true), PolicyAsk::Done(Err(Error::Other("spam")))));
    known.fetched = Some(Err(FetchFailure::NotFound));
    assert!(matches!(ask(&known, &unsigned, true), PolicyAsk::Done(Ok(()))));
}

#[test]
fn rooms_without_a_policy_server_are_open() {
    let event = message();
    let mut known = PolicyCheck {
        config: Some(Err(ConfigFailure::Absent)),
        via_in_room: None,
        fetched: None,
    };
    let ask = |known: &PolicyCheck| known.policy_server_allows_event(&subject(&event, true));
    assert!(matches!(ask(&known), PolicyAsk::Done(Ok(()))));
    known.config = Some(Err(ConfigFailure::Other("timeout".to_owned())));
    assert!(matches!(
        ask(&known),
        PolicyAsk::Done(Err(Error::OtherAbout("failed to load m.room.policy state event", _)))
    ));
    let server = |via: &str, key| Some(Ok(PolicyServer { via: via.to_owned(), key }));
    known.config = server("policy.example", None);
    assert!(matches!(ask(&known), PolicyAsk::Done(Ok(()))));
    known.config = server("policy.example", Some(vec![0; 32]));
    known.via_in_room = Some(false);
    assert!(matches!(ask(&known), PolicyAsk::Done(Ok(()))));
    known.config = server("example.org", Some(vec![0; 32]));
    known.via_in_room = Some(true);
    assert!(matches!(ask(&known), PolicyAsk::Done(Ok(()))));
    let looped = PolicySubject { federation_loopback: true, ..subject(&event, true) };
    assert!(matches!(known.policy_server_allows_event(&looped), PolicyAsk::Fetch));
    known.config = None;
    let policy = |state_key| PolicySubject {
        kind: "m.room.policy",
        state_key,
        ..subject(&event, true)
    };
    let next = known.policy_server_allows_event(&policy(Some("")));
    assert!(matches!(next, PolicyAsk::Done(Ok(()))));
    for state_key in [None, Some("other")] {
        let next = known.policy_server_allows_event(&policy(state_key));
        assert!(matches!(next, PolicyAsk::Config));
    }
}

#[test]
fn errors_of_policy_servers() {
    let on = |status, forbidden, after, retries| {
        let told = "500 Internal Server Error/Unknown".to_owned();
        handle_policy_server_error(status, forbidden, after, told, retries, 10_000)
    };
    assert!(matches!(on(400, true, None, 0), PolicyRetry::PassOn));
    assert!(matches!(
        on(400, false, None, 0),
        PolicyRetry::Fail(Error::BadServerResponse("Error communicating with policy server"))
    ));
    assert!(matches!(
        on(403, false, None, 0),
        PolicyRetry::Fail(Error::Request(ErrorKind::Forbidden, _))
    ));
    assert!(matches!(on(404, false, None, 0), PolicyRetry::PassOn));
    assert!(matches!(on(429, false, Some(500), 4), PolicyRetry::RetryAfter(500)));
    assert!(matches!(on(429, false, Some(50_000), 0), PolicyRetry::RetryAfter(10_000)));
    let patient = |after| {
        handle_policy_server_error(429, false, Some(after), String::new(), 0, 300_000)
    };
    assert!(matches!(patient(59_999), PolicyRetry::RetryAfter(59_999)));
    assert!(matches!(patient(120_000), PolicyRetry::RetryAfter(60_000)));
    assert!(matches!(on(429, false, Some(500), 5), PolicyRetry::PassOn));
    assert!(matches!(on(429, false, None, 0), PolicyRetry::PassOn));
    assert!(matches!(
        on(500, false, None, 0),
        PolicyRetry::Fail(Error::BadServerResponseAbout(
            "Unexpected response from policy server",
            told
        )) if told == "500 Internal Server Error/Unknown"
    ));
    assert_eq!(after_wait(true, 3), Some(4));
    assert_eq!(after_wait(true, 255), Some(255));
    assert_eq!(after_wait(false, 3), None);
}

#[test]
fn answers_of_policy_servers() {
    let mut event = message();
    assert!(matches!(
        fetch_policy_server_signature(&mut event, "policy.example", SignResponse::TimedOut, 0, 10),
        SignOutcome::Done(Err(Error::Request(
            ErrorKind::Forbidden,
            "Policy server did not respond in time"
        )))
    ));
    let failed = |status, retry_after| SignResponse::Failed {
        status,
        forbidden: false,
        retry_after,
        told: String::new(),
        error: Error::Other("from the policy server"),
    };
    let limited = failed(429, Some(7));
    assert!(matches!(
        fetch_policy_server_signature(&mut event, "policy.example", limited, 0, 10),
        SignOutcome::RetryAfter(7, Error::Other("from the policy server"))
    ));
    let unknown = failed(404, None);
    assert!(matches!(
        fetch_policy_server_signature(&mut event, "policy.example", unknown, 0, 10),
        SignOutcome::PassOn(Error::Other("from the policy server"))
    ));
    let signed = SignResponse::Signed(response(POLICY_SERVER_KEY_ID_ED25519, "AQID"));
    assert!(matches!(
        fetch_policy_server_signature(&mut event, "policy.example", signed, 0, 10),
        SignOutcome::Done(Ok(()))
    ));
    assert_eq!(
        find_signature(&event, "policy.example", POLICY_SERVER_KEY_ID_ED25519),
        Some("AQID")
    );
}

#[test]
fn auth_chains_are_chased_breadth_first() {
    let mut chase = Chase::new("$a".to_owned());
    assert!(matches!(chase.fetch_and_handle_outliers(), ChaseAsk::BackingOff));
    assert!(matches!(chase.on_backing_off(false), ChaseAsk::Exists));
    assert!(matches!(chase.on_exists(false), ChaseAsk::Fetch));
    let value = object(r#"{"auth_events":["$b","no event",3,"$c","$b"]}"#);
    assert!(matches!(chase.on_fetched(Some(value)), ChaseAsk::BackingOff));
    assert_eq!(chase.todo, vec!["$a", "$b", "$c", "$b"]);
    assert_eq!(chase.current_id(), "$b");
    assert!(matches!(chase.on_backing_off(false), ChaseAsk::Exists));
    assert!(matches!(chase.on_exists(false), ChaseAsk::Fetch));
    assert!(matches!(chase.on_fetched(Some(JsonObject::new())), ChaseAsk::BackingOff));
    assert_eq!(chase.current_id(), "$c");
    assert!(matches!(chase.on_backing_off(true), ChaseAsk::BackingOff));
    // `$b` has been fetched.
    assert!(matches!(chase.on_backing_off(false), ChaseAsk::Done));
    let mut handling = Handling::new("$a".to_owned(), chase.fetched);
    let next = handling.next().unwrap();
    assert_eq!(next.event_id, "$b");
    let accepted = |id: &str| Some((pdu(id, &[], &[]), object(r#"{"depth":1}"#)));
    assert_eq!(handling.on_handled("$b", accepted("$b")), Handled::PassOver);
    assert!(handling.kept.is_none());
    assert_eq!(handling.next().unwrap().event_id, "$a");
    assert_eq!(handling.on_handled("$a", accepted("$a")), Handled::Keep);
    assert_eq!(handling.on_handled("$a", None), Handled::BackOff);
    assert!(handling.next().is_none());
    let event = handling.into_gathered();
    assert_eq!(event.event_id, "$a");
    assert!(matches!(&event.source, Source::Fetched(Some((pdu, _))) if pdu.event_id == "$a"));
}

#[test]
fn events_are_returned_in_the_order_they_were_asked_for() {
    let of = |id: &str, source: Source| Gathered { event_id: id.to_owned(), source };
    let events = gathered(vec![
        of("$c", Source::Fetched(Some((pdu("$c", &[], &[]), object(r#"{"depth":3}"#))))),
        of("$lost", Source::Fetched(None)),
        of("$a", Source::Local(pdu("$a", &[], &[]))),
        of("$b", Source::Fetched(Some((pdu("$b", &[], &[]), JsonObject::new())))),
    ]);
    let ids: Vec<&str> = events.iter().map(|(pdu, _)| pdu.event_id.as_str()).collect();
    assert_eq!(ids, vec!["$c", "$a", "$b"]);
    assert!(events[0].1.as_ref().unwrap().get("depth").is_some());
    assert!(events[1].1.is_none());
    assert!(events[2].1.is_some());
    assert!(gathered(vec![]).is_empty());
}

fn reply(event_id: &str, prevs: &[&str], prevs_known: Vec<bool>) -> Result<Reply, String> {
    Ok(Reply {
        room_id: ROOM.to_owned(),
        event_id: event_id.to_owned(),
        known_locally: false,
        pdu: Ok(pdu(event_id, prevs, &[])),
        prevs_known,
    })
}

fn backfill() -> Backfill {
    Backfill::backfill_missing_events(
        "via.org".to_owned(),
        ROOM.to_owned(),
        strings(&["$e"]),
        strings(&["$z"]),
    )
}

#[test]
fn gaps_are_filled_in_growing_rounds() {
    let mut fill = backfill();
    let request = fill.next_request().unwrap();
    assert_eq!(request.limit, 9);
    assert_eq!(request.room_id, ROOM);
    assert_eq!(request.earliest, vec!["$e"]);
    assert_eq!(request.latest, vec!["$z"]);
    let replies = vec![reply("$z", &["$y", "$known"], vec![false, true])];
    assert!(matches!(fill.on_response(replies), Ok(true)));
    assert_eq!(fill.latest, vec!["$y"]);
    assert_eq!(fill.next_limit(), Some(16));
    let replies = vec![reply("$x", &[], vec![]), reply("$y", &["$x"], vec![false])];
    assert!(matches!(fill.on_response(replies), Ok(true)));
    assert!(fill.latest.is_empty());
    assert_eq!(fill.next_limit(), None);
    assert!(fill.next_request().is_none());
    let ids: Vec<&str> = fill.backfilled.iter().map(|b| b.event_id.as_str()).collect();
    assert_eq!(ids, vec!["$z", "$x", "$y"]);
    assert!(fill.backfilled.iter().all(|b| b.pdu.event_id == b.event_id));
    fill.latest = strings(&["$w"]);
    for (i, limit) in [25, 36, 49, 64, 81, 100, 100].into_iter().enumerate() {
        assert_eq!(fill.next_limit(), Some(limit));
        let new = reply(&format!("$new{i}"), &[], vec![]);
        assert!(matches!(fill.on_response(vec![new]), Ok(true)));
    }
    assert_eq!(fill.backfilled.len(), 10);
    assert!(matches!(fill.on_response(vec![]), Ok(false)));
}

#[test]
fn gaps_are_left_when_nothing_new_comes() {
    let mut fill = backfill();
    let replies = vec![reply("$y", &[], vec![])];
    assert!(matches!(fill.on_response(replies), Ok(true)));
    assert!(matches!(fill.on_response(vec![reply("$y", &[], vec![])]), Ok(false)));
    let mut known = reply("$w", &["$v"], vec![false]);
    if let Ok(r) = &mut known {
        r.known_locally = true;
    }
    assert!(matches!(fill.on_response(vec![known]), Ok(false)));
    assert_eq!(fill.backfilled.len(), 1);
    assert_eq!(fill.latest, vec!["$z"]);
}

fn response_text(replies: Vec<Result<Reply, String>>) -> String {
    match backfill().on_response(replies) {
        Err(Error::BadServerResponseText(text)) => text,
        other => panic!("{other:?}"),
    }
}

#[test]
fn gaps_are_not_filled_with_nonsense() {
    assert_eq!(
        response_text(vec![Err("no JSON".to_owned())]),
        "via.org returned an invalid event: no JSON"
    );
    let mut elsewhere = reply("$z", &[], vec![]);
    if let Ok(r) = &mut elsewhere {
        r.room_id = "!other:x".to_owned();
    }
    assert_eq!(
        response_text(vec![elsewhere]),
        format!("via.org returned $z in missing events which belongs to !other:x, not {ROOM}")
    );
    let mut malformed = reply("$z", &[], vec![]);
    if let Ok(r) = &mut malformed {
        r.pdu = Err("no sender".to_owned());
    }
    assert_eq!(response_text(vec![malformed]), "Unable to parse $z: no sender");
    let mut long = backfill();
    let replies = (0..1001).map(|i| reply(&format!("$r{i}"), &[], vec![])).collect();
    assert!(matches!(long.on_response(replies), Ok(true)));
    assert_eq!(long.next_limit(), None);
}

fn prevs() -> FetchPrevs {
    FetchPrevs::new()
}

#[test]
fn events_wait_for_those_before_them() {
    let event = pdu("$e", &["$a", "$b"], &[]);
    let mut known = prevs();
    assert!(matches!(known.fetch_prevs(&event), PrevsAsk::PrevsKnown));
    known.prevs_known = Some(vec![true, false]);
    assert!(matches!(known.fetch_prevs(&event), PrevsAsk::Backfill));
    known.backfilled = Some(Ok(strings(&["$b", "$c"])));
    assert!(matches!(known.fetch_prevs(&event), PrevsAsk::Sort));
    known.sorted = Some(Ok(strings(&["$c", "$b"])));
    assert!(matches!(known.fetch_prevs(&event), PrevsAsk::Handle { index: 0 }));
    known.handled = vec![true];
    assert!(matches!(known.fetch_prevs(&event), PrevsAsk::Handle { index: 1 }));
    known.handled = vec![true, true];
    assert!(matches!(known.fetch_prevs(&event), PrevsAsk::Outlier));
    known.is_outlier = Some(true);
    assert!(matches!(known.fetch_prevs(&event), PrevsAsk::Upgrade));
    known.upgraded = Some(Err(Error::Other("rejected")));
    assert!(matches!(known.fetch_prevs(&event), PrevsAsk::Done(Err(Error::Other("rejected")))));
    known.handled = vec![true, false];
    assert!(matches!(known.fetch_prevs(&event), PrevsAsk::Done(Ok(()))));
    known.is_outlier = Some(false);
    assert!(matches!(known.fetch_prevs(&event), PrevsAsk::Done(Ok(()))));
    let mut complete = prevs();
    complete.prevs_known = Some(vec![true, true]);
    complete.is_outlier = Some(true);
    assert!(matches!(complete.fetch_prevs(&event), PrevsAsk::Upgrade));
    let mut single = prevs();
    single.prevs_known = Some(vec![true, false]);
    single.backfilled = Some(Ok(strings(&["$b"])));
    assert!(matches!(single.fetch_prevs(&event), PrevsAsk::Handle { index: 0 }));
    single.backfilled = Some(Err(Error::Other("unreachable")));
    assert!(matches!(
        single.fetch_prevs(&event),
        PrevsAsk::Done(Err(Error::Other("unreachable")))
    ));
}

fn invite_event(
    kind: &str,
    state_key: &str,
    sender: &str,
    membership: Option<&str>,
) -> InviteEvent {
    InviteEvent {
        kind: Ok(Some(kind.to_owned())),
        state_key: Ok(Some(state_key.to_owned())),
        sender: Ok(Some(sender.to_owned())),
        membership: Ok(membership.map(|text| text.to_owned())),
    }
}

fn member_event() -> PduEvent {
    let mut event = pdu("$e", &[], &[]);
    event.kind = "m.room.member".to_owned();
    event.state_key = Some("@bob:example.org".to_owned());
    event
}

#[test]
fn leave_events_rescind_invites() {
    let mut event = member_event();
    let leave = Ok("leave".to_owned());
    let rescinds = |event: &PduEvent, membership: &Result<String, String>, state| {
        rescinds_invite(event, ALICE, ROOM, membership, &state)
    };
    let about = || Some(vec![invite_event("m.room.member", "", "", None)]);
    assert!(matches!(rescinds(&event, &leave, about()), Ok(true)));
    assert!(matches!(rescinds(&event, &leave, None), Ok(false)));
    assert!(matches!(rescinds(&event, &Ok("join".to_owned()), about()), Ok(false)));
    assert!(matches!(
        rescinds(&event, &Err("no content".to_owned()), about()),
        Err(Error::Outside(reason)) if reason == "no content"
    ));
    let other = || Some(vec![invite_event("m.room.name", "", "@carol:x", None)]);
    assert!(matches!(rescinds(&event, &leave, other()), Ok(false)));
    let invites = || Some(vec![invite_event("m.room.name", "", "@carol:x", Some("invite"))]);
    assert!(matches!(rescinds(&event, &leave, invites()), Ok(true)));
    let joins = || Some(vec![invite_event("m.room.name", "", "@carol:x", Some("join"))]);
    assert!(matches!(rescinds(&event, &leave, joins()), Ok(false)));
    let unreadable = || {
        let mut e = invite_event("m.room.name", "", "", None);
        e.state_key = Err("no state key".to_owned());
        Some(vec![e])
    };
    assert!(matches!(
        rescinds(&event, &leave, unreadable()),
        Err(Error::Outside(reason)) if reason == "no state key"
    ));
    event.state_key = Some("bob".to_owned());
    assert!(matches!(
        rescinds(&event, &leave, about()),
        Err(Error::Outside(wrong)) if wrong == "leading sigil is incorrect or missing"
    ));
}

#[test]
fn rescissions_are_read_from_json() {
    let event = member_event();
    let leave = r#"{"membership":"leave"}"#;
    let rescinds = |content: &str, state: &[&str]| {
        should_rescind_invite(&event, content, ALICE, ROOM, &Some(strings(state)))
    };
    let invite = r#"{"type":"m.room.member","content":{"membership":"invite"}}"#;
    assert!(matches!(rescinds(leave, &[invite]), Ok(true)));
    assert!(matches!(rescinds(leave, &[]), Ok(false)));
    assert!(matches!(rescinds(r#"{"membership":"ban"}"#, &[invite]), Ok(false)));
    assert!(matches!(rescinds("{}", &[invite]), Err(Error::Outside(_))));
    let name = r#"{"type":"m.room.name","content":{"membership":"join"}}"#;
    assert!(matches!(rescinds(leave, &[name]), Ok(false)));
    assert!(matches!(rescinds(leave, &[name, invite]), Ok(true)));
    let to_bob = r#"{"type":"m.room.name","state_key":"@bob:example.org"}"#;
    assert!(matches!(rescinds(leave, &[to_bob]), Ok(true)));
    let from_alice = r#"{"type":"m.room.name","sender":"@alice:example.org"}"#;
    assert!(matches!(rescinds(leave, &[from_alice]), Ok(true)));
    let nameless = r#"{"type":"m.room.name","state_key":"bob"}"#;
    assert!(matches!(rescinds(leave, &[nameless]), Err(Error::Outside(_))));
    assert!(matches!(rescinds(leave, &["[]"]), Err(Error::Outside(_))));
    let none = should_rescind_invite(&event, leave, ALICE, ROOM, &None);
    assert!(matches!(none, Ok(false)));
}

fn incoming() -> Incoming {
    Incoming::new()
}

const AT: PduId = PduId { shortroomid: 1, shorteventid: 2 };

#[test]
fn incoming_events_are_checked_before_they_are_handled() {
    let value = message();
    let next = |known: &Incoming| known.handle_incoming_pdu(&value, "example.org", true);
    let mut known = incoming();
    assert!(matches!(next(&known), IncomingAsk::TimelineId));
    known.timeline_id = Some(Some(AT));
    assert!(matches!(next(&known), IncomingAsk::Done(Ok(Some(AT)))));
    known.timeline_id = Some(None);
    assert!(matches!(next(&known), IncomingAsk::Checks { sender_server: false }));
    assert!(matches!(
        known.handle_incoming_pdu(&value, "relay.org", true),
        IncomingAsk::Checks { sender_server: true }
    ));
    known.checks = Some(Ok((true, true)));
    assert!(matches!(
        next(&known),
        IncomingAsk::Done(Err(Error::Request(
            ErrorKind::Forbidden,
            "Federation of this room is disabled by this server."
        )))
    ));
    known.checks = Some(Ok((true, false)));
    assert!(matches!(next(&known), IncomingAsk::ServerInRoom));
    known.server_in_room = Some(true);
    assert!(matches!(next(&known), IncomingAsk::Outlier));
    known.outlier = Some(Ok(()));
    assert!(matches!(
        known.handle_incoming_pdu(&value, "example.org", false),
        IncomingAsk::Done(Ok(None))
    ));
    assert!(matches!(next(&known), IncomingAsk::FirstEvent));
    known.first_event = Some(Ok(()));
    assert!(matches!(next(&known), IncomingAsk::FetchPrev));
    known.prev_count = Some(Ok(2));
    assert!(matches!(next(&known), IncomingAsk::HandlePrev { index: 0 }));
    known.handled = vec![Ok(()), Err(Error::Other("shutting down"))];
    assert!(matches!(next(&known), IncomingAsk::Done(Err(Error::Other("shutting down")))));
    known.handled = vec![Ok(()), Ok(())];
    assert!(matches!(next(&known), IncomingAsk::Upgrade));
    known.upgraded = Some(Ok(Some(AT)));
    assert!(matches!(next(&known), IncomingAsk::Done(Ok(Some(AT)))));
}

#[test]
fn incoming_events_that_are_refused() {
    let mut known = incoming();
    known.timeline_id = Some(None);
    let next = |known: &Incoming, text: &str| {
        known.handle_incoming_pdu(&object(text), "example.org", true)
    };
    let large = format!("{{\"type\":\"{}\"}}", "x".repeat(256));
    assert!(matches!(
        next(&known, &large),
        IncomingAsk::Done(Err(Error::Request(ErrorKind::TooLarge, "PDU is too large")))
    ));
    assert!(matches!(
        next(&known, r#"{"sender":"alice"}"#),
        IncomingAsk::Done(Err(Error::RequestText(ErrorKind::InvalidParam, text)))
            if text == "PDU does not have a valid sender key: \
                leading sigil is incorrect or missing"
    ));
    assert!(matches!(
        next(&known, "{}"),
        IncomingAsk::Done(Err(Error::RequestText(ErrorKind::InvalidParam, text)))
            if text == "PDU does not have a valid sender key: No sender in object"
    ));
    assert_eq!(valid_sender(&object("{}")), Err("No sender in object".to_owned()));
    assert_eq!(valid_sender(&message()), Ok(ALICE));
    known.checks = Some(Ok((false, false)));
    known.server_in_room = Some(false);
    let named = r#"{"type":"m.room.name","sender":"@alice:example.org"}"#;
    assert!(matches!(
        next(&known, named),
        IncomingAsk::Done(Err(Error::Request(
            ErrorKind::NotFound,
            "This server is not participating in that room."
        )))
    ));
    let member = r#"{"type":"m.room.member","sender":"@alice:example.org"}"#;
    assert!(matches!(next(&known, member), IncomingAsk::Rescinds));
    known.rescinds = Some(Ok(true));
    assert!(matches!(next(&known, member), IncomingAsk::MarkLeft));
    known.marked_left = true;
    assert!(matches!(next(&known, member), IncomingAsk::Done(Ok(None))));
    known.rescinds = Some(Ok(false));
    assert!(matches!(next(&known, member), IncomingAsk::Done(Err(_))));
    known.server_in_room = Some(true);
    assert!(matches!(
        next(&known, named),
        IncomingAsk::Done(Err(Error::Request(
            ErrorKind::NotFound,
            "Room is unknown to this server"
        )))
    ));
}

fn auth_event(event_id: &str, kind: &str, state_key: &str) -> AuthEvent {
    AuthEvent {
        event_id: event_id.to_owned(),
        kind: kind.to_owned(),
        state_key: state_key.to_owned(),
        wrong_room: None,
    }
}

fn outlier(auth_events_known: bool) -> Outlier {
    let value = object(
        r#"{"type":"m.room.message","sender":"@alice:example.org","unsigned":{"age":1},"content":{"body":"x"}}"#,
    );
    Outlier::handle_outlier_pdu("$e".to_owned(), value, auth_events_known).unwrap()
}

#[test]
fn outliers_are_verified() {
    let mut event = outlier(true);
    assert!(!event.value.contains_key("unsigned"));
    assert!(matches!(
        event.on_version(Err(Error::Other("unknown room"))),
        OutlierAsk::Done { result: Err(Error::Other("unknown room")), mark: Mark::Unmarked }
    ));
    assert!(matches!(event.on_version(Ok("11".to_owned())), OutlierAsk::Verify));
    assert!(matches!(
        event.on_verified(Err("no signature".to_owned())),
        OutlierAsk::Done {
            result: Err(Error::RequestText(ErrorKind::InvalidParam, text)),
            mark: Mark::Unmarked
        } if text == "Signature verification failed for $e: no signature"
    ));
    assert!(matches!(event.on_verified(Ok(Verified::All)), OutlierAsk::Decode));
    assert_eq!(event.value.get_str("event_id"), Some("$e"));
    assert_eq!(event.value.get_object("content").unwrap().get_str("body"), Some("x"));
    // An event with a wrong content hash loses its body.
    assert!(matches!(event.on_verified(Ok(Verified::Signatures)), OutlierAsk::Known));
    assert!(!event.value.get_object("content").unwrap().contains_key("body"));
    assert_eq!(event.value.get_str("event_id"), Some("$e"));
    assert!(matches!(event.on_known(false), OutlierAsk::Decode));
    assert!(matches!(
        event.on_known(true),
        OutlierAsk::Done {
            result: Err(Error::Request(ErrorKind::InvalidParam, _)),
            mark: Mark::Unmarked
        }
    ));
    let mut untyped = outlier(true);
    untyped.on_version(Ok("11".to_owned()));
    untyped.value.remove("type");
    assert!(matches!(
        untyped.on_verified(Ok(Verified::Signatures)),
        OutlierAsk::Done {
            result: Err(Error::Request(ErrorKind::InvalidParam, "Redaction failed")),
            mark: Mark::Unmarked
        }
    ));
    let large = object(&format!("{{\"type\":\"{}\"}}", "x".repeat(256)));
    assert!(matches!(
        Outlier::handle_outlier_pdu("$l".to_owned(), large, true),
        Err(Error::Request(ErrorKind::TooLarge, "PDU is too large"))
    ));
}

#[test]
fn outliers_need_their_auth_events() {
    let mut event = outlier(true);
    assert!(matches!(
        event.on_decoded(Err("no sender".to_owned()), None),
        OutlierAsk::Done {
            result: Err(Error::RequestAbout(ErrorKind::BadJson, "Event is not a valid PDU", _)),
            ..
        }
    ));
    assert!(matches!(
        event.on_decoded(Ok(pdu("$e", &[], &[])), Some(Error::Other("other room"))),
        OutlierAsk::Done { result: Err(Error::Other("other room")), mark: Mark::Unmarked }
    ));
    let decoded = || Ok(pdu("$e", &[], &["$c", "$m"]));
    assert!(matches!(event.on_decoded(decoded(), None), OutlierAsk::LocalAuthEvents));
    let create = || auth_event("$c", "m.room.create", "");
    let member = || auth_event("$m", "m.room.member", ALICE);
    assert!(matches!(event.on_local_auth_events(vec![create(), member()]), OutlierAsk::AuthCheck));
    assert!(matches!(event.on_local_auth_events(vec![create()]), OutlierAsk::Fetch));
    assert_eq!(event.missing, vec!["$m"]);
    assert!(matches!(event.on_fetched(vec![member()]), OutlierAsk::AuthCheck));
    assert!(matches!(event.on_local_auth_events(vec![create()]), OutlierAsk::Fetch));
    assert!(matches!(
        event.on_fetched(vec![]),
        OutlierAsk::Done {
            result: Err(Error::RequestText(ErrorKind::InvalidParam, text)),
            mark: Mark::Unmarked
        } if text
            == "Could not fetch all auth events for outlier event $e, still missing: [\"$m\"]"
    ));
    assert!(matches!(event.on_local_auth_events(vec![create()]), OutlierAsk::Fetch));
    assert!(matches!(
        event.on_fetched(vec![auth_event("$m", "m.room.create", "")]),
        OutlierAsk::Done { result: Err(Error::RequestText(_, text)), mark: Mark::Rejected }
            if text
                == "Auth event's type and state_key combination exists multiple times: \
                    m.room.create, "
    ));
    let mut wrong = member();
    wrong.wrong_room = Some(Error::Other("other room"));
    assert!(matches!(
        event.on_local_auth_events(vec![create(), wrong]),
        OutlierAsk::Done { result: Err(Error::Other("other room")), mark: Mark::Unmarked }
    ));
    // Without word that they are known, all of them are fetched.
    let mut fresh = outlier(false);
    fresh.on_decoded(decoded(), None);
    assert!(matches!(fresh.on_local_auth_events(vec![create(), member()]), OutlierAsk::Fetch));
    assert_eq!(fresh.missing, vec!["$c", "$m"]);
    let (kept, json) = fresh.into_kept().unwrap();
    assert_eq!(kept.auth_events, vec!["$c", "$m"]);
    assert_eq!(json.get_object("content").unwrap().get_str("body"), Some("x"));
    assert!(outlier(true).into_kept().is_none());
}

#[test]
fn outliers_are_rejected_if_unauthorised() {
    let event = outlier(true);
    assert!(matches!(event.on_auth_check(Ok(true)), OutlierAsk::Persist));
    assert!(matches!(
        event.on_persisted(),
        OutlierAsk::Done { result: Ok(()), mark: Mark::Unmarked }
    ));
    assert!(matches!(
        event.on_auth_check(Ok(false)),
        OutlierAsk::Done {
            result: Err(Error::Request(ErrorKind::Forbidden, _)),
            mark: Mark::Rejected
        }
    ));
    assert!(matches!(
        event.on_auth_check(Err("no create event".to_owned())),
        OutlierAsk::Done {
            result: Err(Error::RequestAbout(ErrorKind::Forbidden, "Auth check failed", _)),
            mark: Mark::Unmarked
        }
    ));
}

/// An event that redacts another, up to its authorisation.
fn authorised() -> Upgrade {
    let mut known = Upgrade::new();
    known.timeline_id = Some(None);
    known.marks = Some((false, false));
    known.rejected_auth_event = Some(None);
    known.redacts = Some(Ok(None));
    known.local_state = Some(Ok(true));
    known.auth_state_before = Some(Ok(true));
    known.auth_events = Some(Ok(()));
    known.auth_current = Some(Ok(true));
    known
}

#[test]
fn messages_are_taken_into_the_timeline() {
    let event = pdu("$e", &["$p"], &[]);
    let next = |known: &Upgrade| known.upgrade_outlier_to_timeline_pdu(&event);
    let mut known = Upgrade::new();
    assert!(matches!(next(&known), Ask::TimelineId));
    known.timeline_id = Some(None);
    assert!(matches!(next(&known), Ask::Marks));
    known.marks = Some((false, false));
    assert!(matches!(next(&known), Ask::RejectedAuthEvent));
    known.rejected_auth_event = Some(None);
    assert!(matches!(next(&known), Ask::Rules));
    known.redacts = Some(Ok(None));
    assert!(matches!(next(&known), Ask::StateAfterPrev));
    assert!(matches!(
        known.upgrade_outlier_to_timeline_pdu(&pdu("$e", &["$p", "$q"], &[])),
        Ask::StateResolved
    ));
    known.local_state = Some(Ok(false));
    assert!(matches!(next(&known), Ask::FetchState));
    known.fetched_state = Some(Ok(()));
    assert!(matches!(next(&known), Ask::AuthStateBefore));
    known.auth_state_before = Some(Ok(true));
    assert!(matches!(next(&known), Ask::AuthEvents));
    known.auth_events = Some(Ok(()));
    assert!(matches!(next(&known), Ask::AuthCurrent));
    known.auth_current = Some(Ok(true));
    assert!(matches!(next(&known), Ask::Compress));
    known.compressed = true;
    assert!(matches!(next(&known), Ask::PolicyServer));
    known.policy = Some(Ok(true));
    assert!(matches!(next(&known), Ask::Extremities));
    known.extremities_known = true;
    assert!(matches!(next(&known), Ask::Append { soft_fail: false }));
    known.appended = Some(Ok(Some(AT)));
    match next(&known) {
        Ask::Done(ending) => {
            assert!(matches!(ending.result, Ok(Some(AT))));
            assert_eq!(ending.mark, Mark::Unmarked);
        },
        _ => panic!("the event is in the timeline"),
    }
}

#[test]
fn state_events_change_the_room() {
    let mut event = pdu("$e", &["$p"], &[]);
    event.state_key = Some(String::new());
    let next = |known: &Upgrade| known.upgrade_outlier_to_timeline_pdu(&event);
    let mut known = authorised();
    known.compressed = true;
    assert!(matches!(next(&known), Ask::ShortStateKey));
    known.short_state_key = Some(4);
    assert!(matches!(next(&known), Ask::Resolve));
    known.resolved = Some(Ok(()));
    assert!(matches!(next(&known), Ask::Save));
    known.saved = Some(Ok(()));
    assert!(matches!(next(&known), Ask::Force));
    known.forced = Some(Ok(()));
    assert!(matches!(next(&known), Ask::Extremities));
    let mut state: Column<String> = Column::new();
    add_to_state(&mut state, 4, "$e");
    assert_eq!(state.get(&Key::counters(4, 0)).map(|id| id.as_str()), Some("$e"));
}

fn mark_of(ask: Ask) -> (bool, Mark) {
    match ask {
        Ask::Done(ending) => (ending.result.is_ok(), ending.mark),
        _ => panic!("not done"),
    }
}

#[test]
fn events_are_rejected_or_soft_failed() {
    let event = pdu("$e", &["$p"], &[]);
    let next = |known: &Upgrade| known.upgrade_outlier_to_timeline_pdu(&event);
    let mut known = authorised();
    known.auth_state_before = Some(Ok(false));
    assert_eq!(mark_of(next(&known)), (false, Mark::Rejected));
    known.auth_state_before = Some(Err("no create event".to_owned()));
    assert_eq!(mark_of(next(&known)), (false, Mark::Unmarked));
    known = authorised();
    known.rejected_auth_event = Some(Some("$a".to_owned()));
    assert_eq!(mark_of(next(&known)), (false, Mark::Rejected));
    known.marks = Some((true, false));
    assert_eq!(mark_of(next(&known)), (false, Mark::Unmarked));
    known = authorised();
    known.auth_current = Some(Ok(false));
    known.compressed = true;
    assert!(matches!(next(&known), Ask::Extremities));
    known.extremities_known = true;
    assert!(matches!(next(&known), Ask::Append { soft_fail: true }));
    known.appended = Some(Ok(None));
    assert_eq!(mark_of(next(&known)), (true, Mark::SoftFailed));
    known = authorised();
    known.compressed = true;
    known.policy = Some(Ok(false));
    known.extremities_known = true;
    assert!(matches!(next(&known), Ask::Append { soft_fail: true }));
    known.redacts = Some(Ok(Some("$r".to_owned())));
    known.policy = Some(Ok(true));
    assert!(matches!(next(&known), Ask::CanRedact));
    known.can_redact = Some(Ok(true));
    assert!(matches!(next(&known), Ask::RedactsSoftFailed));
    known.redacts_soft_failed = Some(false);
    assert!(matches!(next(&known), Ask::Append { soft_fail: false }));
    known.redacts_soft_failed = Some(true);
    assert!(matches!(next(&known), Ask::Append { soft_fail: true }));
    known.can_redact = Some(Ok(false));
    known.redacts_soft_failed = None;
    assert!(matches!(next(&known), Ask::Append { soft_fail: true }));
}

#[test]
fn extremities_move_with_events() {
    let mut data = Data::new();
    data.mark_as_referenced(ROOM, &strings(&["$old"]));
    let event = pdu("$e", &["$p"], &["$a", "$b"]);
    let before = || strings(&["$old", "$p", "$other"]);
    assert_eq!(new_extremities(&data, ROOM, &event, before(), false), vec!["$other", "$e"]);
    assert_eq!(new_extremities(&data, ROOM, &event, before(), true), before());
    assert_eq!(rejected_auth_event(&data, &event), None);
    apply_mark(&mut data, "$b", Mark::Rejected);
    apply_mark(&mut data, "$s", Mark::SoftFailed);
    apply_mark(&mut data, "$u", Mark::Unmarked);
    assert_eq!(rejected_auth_event(&data, &event).as_deref(), Some("$b"));
    assert!(data.is_event_soft_failed("$s"));
    assert!(!data.is_event_rejected("$u"));
}

fn partial(event_type: &str, state_key: Option<&str>) -> PartialPdu {
    PartialPdu {
        event_type: event_type.to_owned(),
        content: r#"{"room_version":"12"}"#.to_owned(),
        unsigned: None,
        state_key: state_key.map(|key| key.to_owned()),
        redacts: None,
        timestamp: None,
    }
}

#[test]
fn new_events_go_through_all_steps() {
    let name = partial("m.room.name", Some(""));
    let mut known = CreateEvent::new(ROOM.to_owned());
    assert!(matches!(known.create_event(&name, true), CreateAsk::RoomVersion));
    known.room_version = Some(Ok("99".to_owned()));
    assert!(matches!(
        known.create_event(&name, true),
        CreateAsk::Done(Err(Error::Request(ErrorKind::UnsupportedRoomVersion, _)))
    ));
    known.room_version = Some(Ok("11".to_owned()));
    assert!(matches!(known.create_event(&name, true), CreateAsk::Extremities));
    known.extremities = Some(strings(&["$a"]));
    assert!(matches!(known.create_event(&name, true), CreateAsk::AuthEvents));
    known.auth_events = Some(Ok(strings(&["$c"])));
    assert!(matches!(known.create_event(&name, true), CreateAsk::Depths));
    known.depths = Some(vec![Some(3)]);
    assert!(matches!(known.create_event(&name, true), CreateAsk::Replaced));
    assert!(matches!(
        known.create_event(&partial("m.room.message", None), true),
        CreateAsk::CreateEvent
    ));
    known.replaced = Some(None);
    assert!(matches!(known.create_event(&name, true), CreateAsk::CreateEvent));
    known.create_event = Some(Err("not found".to_owned()));
    assert!(matches!(
        known.create_event(&name, true),
        CreateAsk::Done(Err(Error::RequestAbout(ErrorKind::Forbidden, _, _)))
    ));
    known.create_event = Some(Ok(()));
    assert!(matches!(known.create_event(&name, true), CreateAsk::Authorised));
    known.authorised = Some(Ok(false));
    assert!(matches!(
        known.create_event(&name, true),
        CreateAsk::Done(Err(Error::Request(ErrorKind::Forbidden, "Event is not authorized.")))
    ));
    known.authorised = Some(Ok(true));
    assert!(matches!(
        known.create_event(&name, true),
        CreateAsk::Done(Ok(rules))
            if rules.restricted_join_rule && !rules.room_create_event_id_as_room_id
    ));
}

#[test]
fn rooms_begin_with_their_create_event() {
    let mut known = CreateEvent::new(ROOM.to_owned());
    assert!(matches!(
        known.create_event(&partial("m.room.name", Some("")), false),
        CreateAsk::Done(Err(Error::InconsistentRoomState(
            "non-create event for room of unknown version",
            room_id,
        ))) if room_id == ROOM
    ));
    let create = partial("m.room.create", Some(""));
    assert!(matches!(known.create_event(&create, false), CreateAsk::Authorised));
    known.authorised = Some(Ok(true));
    assert!(matches!(
        known.create_event(&create, false),
        CreateAsk::Done(Ok(rules)) if rules.room_create_event_id_as_room_id
    ));
    assert!(matches!(
        known.create_event_in("9", &create, false),
        CreateAsk::Done(Ok(rules)) if !rules.room_create_event_id_as_room_id
    ));
    let mut broken = partial("m.room.create", Some(""));
    broken.content = r#"{"room_version":12}"#.to_owned();
    assert!(matches!(
        known.create_event(&broken, false),
        CreateAsk::Done(Err(Error::Outside(wrong)))
            if wrong.starts_with("invalid type: integer `12`")
    ));
    assert!(matches!(
        room_version_from_event(ROOM, "m.room.create", r#"{"room_version":"9","m.federate":false}"#),
        Ok(version) if version == "9"
    ));
    assert!(matches!(
        room_version_from_event(ROOM, "m.room.create", "{}"),
        Ok(version) if version == "1"
    ));
    assert!(room_version_from_event(ROOM, "m.room.create", "[]").is_err());
    assert!(room_version_from_event(ROOM, "m.room.name", r#"{"room_version":"9"}"#).is_err());
}

#[test]
fn new_events_are_deeper_than_their_parents() {
    assert_eq!(next_depth(&vec![]), 1);
    assert_eq!(next_depth(&vec![Some(3), None, Some(7), Some(5)]), 8);
    assert_eq!(next_depth(&vec![Some(MAX_DEPTH)]), MAX_DEPTH);
    let ids: Vec<String> = (0..25).map(|i| format!("$e{i}")).collect();
    assert_eq!(prev_events_of(ids.clone()), ids[..20].to_vec());
    let mut message = partial("m.room.message", None);
    message.unsigned = Some(object(r#"{"age":1}"#));
    let mut known = CreateEvent::new(ROOM.to_owned());
    known.room_version = Some(Ok("11".to_owned()));
    known.extremities = Some(strings(&["$a", "$b"]));
    known.auth_events = Some(Ok(strings(&["$c"])));
    assert_eq!(known.prev_events(true), vec!["$a", "$b"]);
    assert!(known.assemble(&message, ALICE, true, 99).is_none());
    known.depths = Some(vec![Some(3), Some(4)]);
    known.create_event = Some(Ok(()));
    let event = known.assemble(&message, ALICE, true, 99).unwrap();
    assert_eq!((event.room_id.as_deref(), event.sender.as_str()), (Some(ROOM), ALICE));
    assert_eq!(event.content, r#"{"room_version":"12"}"#);
    assert_eq!(event.unsigned.unwrap().names(), vec!["age"]);
    assert_eq!(event.prev_events, vec!["$a", "$b"]);
    assert_eq!(event.auth_events, vec!["$c"]);
    assert_eq!((event.depth, event.origin_server_ts), (5, 99));
    known.extremities = Some(ids.clone());
    let name = partial("m.room.name", Some(""));
    known.replaced = Some(Some(ReplacedState {
        content: Json::Object(object(r#"{"name":"old"}"#)),
        sender: "@bob:example.org".to_owned(),
        event_id: "$old".to_owned(),
    }));
    let event = known.assemble(&name, ALICE, true, 99).unwrap();
    assert_eq!(event.prev_events, ids[..20].to_vec());
    assert_eq!(event.unsigned.unwrap().get_str("replaces_state"), Some("$old"));
    known.authorised = Some(Ok(true));
    assert!(known.assemble(&name, ALICE, true, 99).is_none());
    known.authorised = None;
    let mut dated = partial("m.room.create", Some(""));
    dated.timestamp = Some(7);
    let event = known.assemble(&dated, ALICE, false, 99).unwrap();
    assert!(event.room_id.is_none() && event.unsigned.is_none());
    assert!(event.prev_events.is_empty() && event.auth_events.is_empty());
    assert_eq!((event.depth, event.origin_server_ts), (1, 7));
}

#[test]
fn replaced_state_is_noted() {
    let mut unsigned = object(r#"{"age":1}"#);
    note_replaced(&mut unsigned, &None);
    assert_eq!(unsigned.names(), vec!["age"]);
    let replaced = ReplacedState {
        content: Json::Object(object(r#"{"name":"old"}"#)),
        sender: ALICE.to_owned(),
        event_id: "$old".to_owned(),
    };
    note_replaced(&mut unsigned, &Some(replaced));
    assert_eq!(unsigned.get_object("prev_content").unwrap().get_str("name"), Some("old"));
    assert_eq!(unsigned.get_str("prev_sender"), Some(ALICE));
    assert_eq!(unsigned.get_str("replaces_state"), Some("$old"));
    assert!(unsigned.contains_key("age"));
}

#[test]
fn new_events_are_signed() {
    let mut known = SignEvent::new();
    assert!(matches!(
        known.create_hash_and_sign_event(false, true),
        SignAsk::Done(Err(Error::Request(ErrorKind::Forbidden, "Sender must be a local user")))
    ));
    assert!(matches!(known.create_hash_and_sign_event(true, true), SignAsk::Create));
    known.created = Some(Ok(()));
    assert!(matches!(known.create_hash_and_sign_event(true, true), SignAsk::Canonical));
    known.canonical = Some(Ok(()));
    assert!(matches!(known.create_hash_and_sign_event(true, true), SignAsk::Sign));
    known.signed = Some(Err(SignFailure::TooLarge));
    assert!(matches!(
        known.create_hash_and_sign_event(true, true),
        SignAsk::Done(Err(Error::Request(ErrorKind::TooLarge, _)))
    ));
    known.signed = Some(Err(SignFailure::Other("no key".to_owned())));
    assert!(matches!(
        known.create_hash_and_sign_event(true, true),
        SignAsk::Done(Err(Error::RequestAbout(ErrorKind::Unknown, "Signing event failed", _)))
    ));
    known.signed = Some(Ok(()));
    assert!(matches!(known.create_hash_and_sign_event(true, true), SignAsk::EventId));
    known.on_event_id(&mut JsonObject::new(), Err(Error::Other("no hash")));
    assert!(matches!(
        known.create_hash_and_sign_event(true, true),
        SignAsk::Done(Err(Error::Other("no hash")))
    ));
    let mut long = message();
    known.on_event_id(&mut long, Ok("$".repeat(256).as_str()));
    assert!(matches!(
        known.create_hash_and_sign_event(true, true),
        SignAsk::Done(Err(Error::Request(ErrorKind::TooLarge, _)))
    ));
    let mut event = message();
    known.on_event_id(&mut event, Ok("$new"));
    assert_eq!(event.get_str("event_id"), Some("$new"));
    assert!(matches!(known.create_hash_and_sign_event(true, true), SignAsk::PolicyServer));
    assert!(matches!(known.create_hash_and_sign_event(true, false), SignAsk::ShortId));
    known.policy = Some(Ok(()));
    assert!(matches!(known.create_hash_and_sign_event(true, true), SignAsk::ShortId));
    known.short_id = true;
    assert!(matches!(known.create_hash_and_sign_event(true, true), SignAsk::Done(Ok(()))));
}

#[test]
fn policy_servers_refuse_events() {
    assert!(matches!(policy_verdict(Ok(())), Ok(true)));
    let spam = Error::RequestText(ErrorKind::Forbidden, "This message is spam".to_owned());
    assert!(matches!(policy_verdict(Err(spam)), Ok(false)));
    let unsigned = Error::Request(ErrorKind::Forbidden, "Policy server did not sign the event");
    assert!(matches!(policy_verdict(Err(unsigned)), Ok(false)));
    let late = Error::Request(ErrorKind::Forbidden, "Policy server did not respond in time");
    assert!(matches!(policy_verdict(Err(late)), Err(Error::Request(..))));
    let broken = Error::BadServerResponse("Error communicating with policy server");
    assert!(matches!(policy_verdict(Err(broken)), Err(Error::BadServerResponse(_))));
}
