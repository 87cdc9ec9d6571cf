use continuwuity::error::{Error, ErrorKind};
use continuwuity::oauth::OAuthTicket;
use continuwuity::uiaa::{
    check_stage, password_user, registration_token, ticket_url, AuthData, AuthFlow, AuthType,
    Authentication, Identity, Params, Service, StageAsk, StageFacts, StageOutcome, UiaaInitiator,
    UiaaSessionMetadata, UiaaStep, UserIdentifier,
};

const SERVER: &str = "example.org";

fn nothing() -> StageFacts {
    StageFacts::new()
}

fn flow(stages: &[AuthType]) -> Vec<AuthFlow> {
    vec![AuthFlow { stages: stages.to_vec() }]
}

fn start(service: &mut Service, stages: &[AuthType]) {
    let info = service
        .create_session(
            "s1".to_owned(),
            flow(stages),
            Params::Given("{}".to_owned()),
            &None,
            false,
            "",
        )
        .unwrap();
    assert_eq!(info.session, "s1");
    assert!(info.completed.is_empty());
}

fn password(user: &str) -> AuthData {
    AuthData::Password { identifier: UserIdentifier::Matrix(user.to_owned()) }
}

#[test]
fn identities_do_not_change() {
    let mut identity = Identity::unknown();
    assert!(identity.try_set_localpart("alice").is_ok());
    assert!(identity.try_set_localpart("alice").is_ok());
    let error = identity.try_set_localpart("bob").unwrap_err();
    assert_eq!(error.kind, ErrorKind::InvalidParam);
    assert_eq!(error.message, "User ID mismatch");
    assert!(identity.try_set_email("a@example.org").is_ok());
    assert_eq!(identity.try_set_email("b@example.org").unwrap_err().message, "Email mismatch");
    assert_eq!(identity.localpart.as_deref(), Some("alice"));
    assert_eq!(Identity::from_user_id("@carol:example.org").localpart.as_deref(), Some("carol"));
}

#[test]
fn all_stages_of_a_flow_have_to_be_completed() {
    let mut service = Service::new();
    start(&mut service, &[AuthType::Dummy, AuthType::Terms]);
    let step = service.continue_session(&AuthData::Dummy, "s1", &nothing(), SERVER, false);
    match step {
        UiaaStep::Incomplete(info) => assert_eq!(info.completed, vec![AuthType::Dummy]),
        _ => panic!("another stage is left"),
    }
    let step = service.continue_session(&AuthData::Terms, "s1", &nothing(), SERVER, false);
    assert!(matches!(step, UiaaStep::Authenticated(_)));
    let step = service.continue_session(&AuthData::Terms, "s1", &nothing(), SERVER, false);
    assert!(matches!(
        step,
        UiaaStep::Failed(Error::Request(ErrorKind::InvalidParam, "Invalid session"))
    ));
}

#[test]
fn stages_outside_the_flows_are_refused() {
    let mut service = Service::new();
    start(&mut service, &[AuthType::Dummy]);
    for auth in [AuthData::Terms, AuthData::Unknown, AuthData::Sso] {
        assert!(matches!(
            service.continue_session(&auth, "s1", &nothing(), SERVER, false),
            UiaaStep::Failed(Error::Request(
                ErrorKind::InvalidParam,
                "No flows include the supplied stage"
            ))
        ));
    }
    assert!(matches!(
        service.continue_session(&AuthData::FallbackAcknowledgement, "s1", &nothing(), SERVER, false),
        UiaaStep::Incomplete(_)
    ));
}

#[test]
fn password_stages() {
    let mut service = Service::new();
    start(&mut service, &[AuthType::Password]);
    let auth = password("alice");
    assert!(matches!(
        service.continue_session(&auth, "s1", &nothing(), SERVER, false),
        UiaaStep::Ask(StageAsk::CheckPassword)
    ));
    let wrong = StageFacts { password_right: Some(false), ..nothing() };
    match service.continue_session(&auth, "s1", &wrong, SERVER, false) {
        UiaaStep::Incomplete(info) => {
            assert_eq!(info.auth_error.unwrap().message, "Invalid identifier or password");
        },
        _ => panic!("the password was wrong"),
    }
    let right = StageFacts {
        password_right: Some(true),
        email_for_localpart: Some(Some("a@example.org".to_owned())),
        ..nothing()
    };
    match service.continue_session(&auth, "s1", &right, SERVER, false) {
        UiaaStep::Authenticated(identity) => {
            assert_eq!(identity.localpart.as_deref(), Some("alice"));
            assert_eq!(identity.email.as_deref(), Some("a@example.org"));
        },
        _ => panic!("the password was right"),
    }
}

#[test]
fn passwords_by_email_address() {
    let legacy = || UiaaSessionMetadata::Legacy { identity: Identity::unknown() };
    let auth = AuthData::Password { identifier: UserIdentifier::Email("a@example.org".to_owned()) };
    assert!(matches!(
        check_stage(&auth, legacy(), &nothing(), SERVER, false),
        StageOutcome::Ask(StageAsk::LocalpartForEmail)
    ));
    let nobody = StageFacts { localpart_for_email: Some(None), ..nothing() };
    assert!(matches!(
        check_stage(&auth, legacy(), &nobody, SERVER, false),
        StageOutcome::Failed(e) if e.message == "Invalid identifier or password"
    ));
    let known = StageFacts {
        localpart_for_email: Some(Some("alice".to_owned())),
        password_right: Some(true),
        email_for_localpart: Some(None),
        ..nothing()
    };
    match check_stage(&auth, legacy(), &known, SERVER, false) {
        StageOutcome::Completed(AuthType::Password, UiaaSessionMetadata::Legacy { identity }) => {
            assert_eq!(identity.localpart.as_deref(), Some("alice"));
            assert_eq!(identity.email.as_deref(), Some("a@example.org"));
        },
        _ => panic!("the password was right"),
    }
    let malformed = AuthData::Password { identifier: UserIdentifier::Email("nonsense".to_owned()) };
    assert!(matches!(
        check_stage(&malformed, legacy(), &nothing(), SERVER, false),
        StageOutcome::Failed(e) if e.message == "Email is malformed"
    ));
    let other = AuthData::Password { identifier: UserIdentifier::Other };
    assert!(matches!(
        check_stage(&other, legacy(), &nothing(), SERVER, false),
        StageOutcome::Failed(e) if e.kind == ErrorKind::Unrecognized
            && e.message == "Identifier type not recognized"
    ));
    assert!(matches!(
        check_stage(&password("@broken"), legacy(), &nothing(), SERVER, false),
        StageOutcome::Failed(e) if e.message == "User ID is malformed"
    ));
}

#[test]
fn users_are_named_by_id_or_localpart() {
    let by_id = UserIdentifier::Matrix("@alice:other.org".to_owned());
    assert_eq!(password_user(&by_id, &None, SERVER).as_deref(), Some("@alice:other.org"));
    let by_localpart = UserIdentifier::Matrix("alice".to_owned());
    assert_eq!(password_user(&by_localpart, &None, SERVER).as_deref(), Some("@alice:example.org"));
    assert_eq!(password_user(&UserIdentifier::Other, &None, SERVER), None);
}

#[test]
fn email_stages() {
    let legacy = || UiaaSessionMetadata::Legacy { identity: Identity::from_user_id("@bob:example.org") };
    let auth = AuthData::EmailIdentity;
    assert!(matches!(
        check_stage(&auth, legacy(), &nothing(), SERVER, false),
        StageOutcome::Ask(StageAsk::ThreepidSession)
    ));
    let failed = StageFacts { threepid_session: Some(Err("expired".to_owned())), ..nothing() };
    assert!(matches!(
        check_stage(&auth, legacy(), &failed, SERVER, false),
        StageOutcome::Failed(e) if e.kind == ErrorKind::ThreepidAuthFailed && e.message == "expired"
    ));
    let other = StageFacts {
        threepid_session: Some(Ok("a@example.org".to_owned())),
        localpart_for_email: Some(Some("alice".to_owned())),
        ..nothing()
    };
    assert!(matches!(
        check_stage(&auth, legacy(), &other, SERVER, false),
        StageOutcome::Failed(e) if e.message == "User ID mismatch"
    ));
    let unused = StageFacts {
        threepid_session: Some(Ok("a@example.org".to_owned())),
        localpart_for_email: Some(None),
        ..nothing()
    };
    assert!(matches!(
        check_stage(&auth, legacy(), &unused, SERVER, false),
        StageOutcome::Completed(AuthType::EmailIdentity, _)
    ));
}

#[test]
fn captchas_and_tokens() {
    let legacy = || UiaaSessionMetadata::Legacy { identity: Identity::unknown() };
    assert!(matches!(
        check_stage(&AuthData::ReCaptcha, legacy(), &nothing(), SERVER, false),
        StageOutcome::Failed(e) if e.message == "ReCaptcha is not configured"
    ));
    let unsolved = StageFacts { recaptcha_solved: Some(false), ..nothing() };
    assert!(matches!(
        check_stage(&AuthData::ReCaptcha, legacy(), &unsolved, SERVER, true),
        StageOutcome::Failed(e) if e.message == "ReCaptcha verification failed"
    ));
    let solved = StageFacts { recaptcha_solved: Some(true), ..nothing() };
    assert!(matches!(
        check_stage(&AuthData::ReCaptcha, legacy(), &solved, SERVER, true),
        StageOutcome::Completed(AuthType::ReCaptcha, _)
    ));
    let invalid = StageFacts { token_used: Some(false), ..nothing() };
    assert!(matches!(
        check_stage(&AuthData::RegistrationToken, legacy(), &invalid, SERVER, false),
        StageOutcome::Failed(e) if e.message == "Invalid registration token"
    ));
    assert!(matches!(
        check_stage(&AuthData::Msisdn, legacy(), &nothing(), SERVER, false),
        StageOutcome::Failed(e) if e.message == "Unsupported stage type"
    ));
    assert_eq!(registration_token("  token \n"), "token");
    assert_eq!(registration_token("\u{3000}\u{85}a token\u{2009}\t"), "a token");
    assert_eq!(registration_token("\u{200b}t"), "\u{200b}t");
    assert_eq!(registration_token(" \r\n"), "");
}

#[test]
fn oauth_clients_need_a_ticket() {
    let mut service = Service::new();
    let without = Some(UiaaInitiator::new("@alice:example.org", "D1"));
    let refused = service.create_session(
        "s1".to_owned(),
        flow(&[AuthType::Password]),
        Params::Given("{}".to_owned()),
        &without,
        true,
        "",
    );
    assert!(matches!(
        refused,
        Err(Error::Request(
            ErrorKind::Forbidden,
            "Clients authorized with OAuth cannot use this route."
        ))
    ));
    let url = ticket_url("https://example.org/", &OAuthTicket::CrossSigningReset).unwrap();
    assert_eq!(url, "https://example.org/_continuwuity/account/cross_signing_reset");
    let with = Some(UiaaInitiator::with_oauth_ticket(
        "@alice:example.org",
        "D1",
        OAuthTicket::CrossSigningReset,
    ));
    let info = service
        .create_session(
            "s1".to_owned(),
            flow(&[AuthType::Password]),
            Params::Given("{}".to_owned()),
            &with,
            true,
            &url,
        )
        .unwrap();
    assert_eq!(info.flows[0].stages, vec![AuthType::OAuth]);
    assert!(matches!(info.params, Params::TicketUrl(u) if u == url));
    let none = StageFacts { ticket_consumed: Some(false), ..nothing() };
    match service.continue_session(&AuthData::OAuth, "s1", &none, SERVER, false) {
        UiaaStep::Incomplete(info) => {
            assert_eq!(info.auth_error.unwrap().message, "No OAuth ticket available");
        },
        _ => panic!("there was no ticket"),
    }
    let consumed = StageFacts { ticket_consumed: Some(true), ..nothing() };
    match service.continue_session(&AuthData::OAuth, "s1", &consumed, SERVER, false) {
        UiaaStep::Authenticated(identity) => assert_eq!(identity.localpart.as_deref(), Some("alice")),
        _ => panic!("there was a ticket"),
    }
}

#[test]
fn authentication_begins() {
    let mut service = Service::new();
    let initiator = || UiaaInitiator::new("@alice:example.org", "D1");
    match service.authenticate_password(false, None, "s1".to_owned(), initiator(), false, "") {
        Authentication::Challenge(info) => {
            assert_eq!(info.session, "s1");
            assert_eq!(info.flows[0].stages, vec![AuthType::Password]);
        },
        _ => panic!("there was no authentication data"),
    }
    assert!(matches!(
        service.authenticate_password(true, Some("s1"), "s2".to_owned(), initiator(), false, ""),
        Authentication::Continue(id) if id == "s1"
    ));
    assert!(matches!(
        service.authenticate_password(true, None, "s3".to_owned(), initiator(), false, ""),
        Authentication::Continue(id) if id == "s3"
    ));
    assert!(matches!(
        service.authenticate_password(false, None, "s4".to_owned(), initiator(), true, ""),
        Authentication::Failed(_)
    ));
}
