use continuwuity::error::{Error, ErrorKind};
use continuwuity::oauth;
use continuwuity::oauth::client_metadata::{ApplicationType, ClientMetadata, ResponseType};
use continuwuity::oauth::grant::{
    AuthorizationCodeQuery, CodeChallengeMethod, RawScopes, ResponseMode,
};
use continuwuity::oauth::OAuthTicket;
use continuwuity::store::Key;
use continuwuity::uri::Uri;
use continuwuity::users;
use continuwuity::users::account::HashedPassword;
use continuwuity::users::Device;
use continuwuity::web::pages::account::{
    account_deeplink, account_devices, get_change_email, post_delete_email,
    route_change_email_request, route_cross_signing_reset, route_deactivate, route_remove_device,
    AccountManagementAction, ChangeEmailRequestStep, ChangeEmailStep, CrossSigningResetBody,
    DeactivateStep, RemoveDeviceBody,
};
use continuwuity::web::pages::components::{
    Avatar, AvatarType, DeviceCard, MediaFile, UserCard,
};
use continuwuity::web::pages::grant::{route_authorization_code, GrantStep};
use continuwuity::web::pages::login::{logout_location, route_login, LoginMethod, LoginStep};
use continuwuity::web::pages::password::{
    change_password, route_change_password, route_reset_password, route_reset_password_request,
    ChangePasswordForm, ChangePasswordStep, PasswordAsk, PasswordStep, ResetPasswordForm, ResetRequestStep, ResetStep,
};
use continuwuity::web::pages::policy_header;
use continuwuity::web::pages::register::{
    begin_registration, complete_registration, get_register_email_validate,
    registration_flow_status, route_register, EmailValidationStep, RegisterPage, RegistrationAsk, RegistrationConfig, RegistrationFacts,
    RegistrationFlowParameters, RegistrationForm, RegistrationQuery, RegistrationStep,
    RequestedRegistrationFlow, SmtpConfig, TrustedFlowStatus, UntrustedFlowStatus,
};
use continuwuity::web::session::{require_active, LoginQuery, LoginTarget, User, UserSession};
use continuwuity::web::store::{Record, RocksDbSessionStore, SessionId};
use continuwuity::web::{ErrorResponse, ValidationErrors, WebError};

const ALICE: &str = "@alice:example.org";
const MINUTE: u128 = 60_000_000_000;

fn logged_in(last_login: u128) -> User {
    User(Some(UserSession { user_id: ALICE.to_owned(), last_login }))
}

fn server() -> users::Service {
    let mut users = users::Service::new("example.org".to_owned());
    users.set_password(ALICE, Some(HashedPassword("hash".to_owned())));
    users
}

fn messages(errors: &ValidationErrors) -> Vec<(&'static str, &'static str, &str)> {
    errors.errors.iter().map(|e| (e.field, e.code, e.message.as_str())).collect()
}

#[test]
fn target_paths() {
    assert!(matches!(LoginTarget::default(), LoginTarget::Account));
    assert_eq!(LoginTarget::Account.target_path(), "/_continuwuity/account/");
    assert_eq!(LoginTarget::ChangePassword.target_path(), "/_continuwuity/account/password/change");
    assert_eq!(LoginTarget::ChangeEmail.target_path(), "/_continuwuity/account/email/change/");
    assert_eq!(
        LoginTarget::CrossSigningReset.target_path(),
        "/_continuwuity/account/cross_signing_reset",
    );
    assert_eq!(LoginTarget::Deactivate.target_path(), "/_continuwuity/account/deactivate");
}

#[test]
fn statuses_of_error_pages() {
    let page = |e: WebError| match e.response() {
        ErrorResponse::Page(status) => status,
        ErrorResponse::Redirect(_) => 0,
    };
    assert_eq!(page(WebError::ValidationError(ValidationErrors::new())), 400);
    assert_eq!(page(WebError::QueryRejection("q".to_owned())), 400);
    assert_eq!(page(WebError::FormRejection("f".to_owned())), 400);
    assert_eq!(page(WebError::BadRequest("b".to_owned())), 400);
    assert_eq!(page(WebError::InternalError(Error::Other("o"))), 400);
    assert_eq!(page(WebError::NotFound), 404);
    assert_eq!(page(WebError::Forbidden("f".to_owned())), 403);
    assert_eq!(page(WebError::Render("r".to_owned())), 500);
    assert_eq!(page(WebError::Panic("p".to_owned())), 500);
    let login = |next, reauthenticate| match WebError::LoginRequired(LoginQuery { next, reauthenticate })
        .response()
    {
        ErrorResponse::Redirect(location) => location,
        ErrorResponse::Page(_) => String::new(),
    };
    assert_eq!(login(LoginTarget::Account, false), "/_continuwuity/account/login?next=account");
    assert_eq!(
        login(LoginTarget::ChangeEmail, true),
        "/_continuwuity/account/login?next=change_email&reauthenticate=true",
    );
}

#[test]
fn texts_of_error_pages() {
    assert_eq!(WebError::NotFound.message(""), "This page does not exist.");
    assert_eq!(
        WebError::Forbidden("no".to_owned()).message(""),
        "You are not allowed to request this page: no",
    );
    assert_eq!(
        WebError::ValidationError(ValidationErrors::new()).message("x"),
        "Failed to validate form body: x",
    );
    assert_eq!(WebError::Panic("oh".to_owned()).message(""), "Request handler panicked! oh");
    assert_eq!(WebError::Render("oh".to_owned()).message(""), "Failed to render template: oh");
    assert_eq!(WebError::InternalError(Error::Other("o")).message("inside"), "inside");
}

#[test]
fn recent_logins_expire() {
    let session = UserSession { user_id: ALICE.to_owned(), last_login: MINUTE };
    assert!(session.is_recent(MINUTE));
    assert!(session.is_recent(11 * MINUTE - 1));
    assert!(!session.is_recent(11 * MINUTE));
    assert!(!session.is_recent(0));
    assert!(matches!(logged_in(0).expect(LoginTarget::Account), Ok(id) if id == ALICE));
    assert!(matches!(
        User(None).expect(LoginTarget::Account),
        Err(WebError::LoginRequired(LoginQuery { next: LoginTarget::Account, reauthenticate: false }))
    ));
    assert!(matches!(
        logged_in(0).expect_recent(LoginTarget::Deactivate, 10 * MINUTE),
        Err(WebError::LoginRequired(LoginQuery { next: LoginTarget::Deactivate, reauthenticate: true }))
    ));
    assert!(logged_in(0).into_session().is_some());
}

#[test]
fn accounts_have_to_be_active() {
    let mut users = server();
    assert!(require_active(&users, ALICE).is_ok());
    users.lock_account(ALICE, "@admin:example.org", 0);
    assert!(matches!(
        require_active(&users, ALICE),
        Err(WebError::Forbidden(t)) if t == "Your account is locked."
    ));
    users.set_password(ALICE, None);
    assert!(matches!(
        require_active(&users, ALICE),
        Err(WebError::Forbidden(t)) if t == "Your account is deactivated."
    ));
}

#[test]
fn browser_sessions_are_kept() {
    let mut store = RocksDbSessionStore::new();
    let a = SessionId { upper: 1, lower: 2 };
    let b = SessionId { upper: 2, lower: 1 };
    store.save(a, Record { data: "{}".to_owned(), expiry_date: 10 });
    store.save(b, Record { data: "{\"x\":1}".to_owned(), expiry_date: 20 });
    assert_eq!(store.load(a).unwrap().data, "{}");
    store.delete_expired(10);
    assert!(store.load(a).is_some());
    store.delete_expired(11);
    assert!(store.load(a).is_none());
    assert_eq!(store.load(b).unwrap().expiry_date, 20);
    store.delete(b);
    assert!(store.load(b).is_none());
}

#[test]
fn policies_for_pages() {
    assert_eq!(
        policy_header("abc", false),
        "default-src 'none'; style-src 'self'; img-src 'self' 'https' data:; script-src 'nonce-abc'; child-src 'none';",
    );
    assert!(policy_header("abc", true).ends_with("child-src www.google.com;"));
}

#[test]
fn pictures_of_users() {
    let initial = |a: Avatar| match a.avatar_type {
        AvatarType::Initial(c) => c,
        AvatarType::Image(_) => ' ',
    };
    assert_eq!(initial(Avatar::for_local_user(ALICE, Some("Bob"), &None)), 'B');
    assert_eq!(initial(Avatar::for_local_user(ALICE, Some(""), &None)), 'a');
    assert_eq!(initial(Avatar::for_local_user(ALICE, None, &None)), 'a');
    let card = UserCard::for_local_user(ALICE.to_owned(), None, &None);
    assert_eq!(card.user_id, ALICE);
    assert_eq!(card.display_name, None);
    assert_eq!(initial(card.avatar), 'a');
    let file = Some(MediaFile {
        content_type: Some("image/png".to_owned()),
        content: Some(vec![1, 2, 3]),
    });
    match Avatar::for_local_user(ALICE, None, &file).avatar_type {
        AvatarType::Image(src) => assert_eq!(src, "data:image/png;base64,AQID"),
        AvatarType::Initial(_) => panic!("there was a picture"),
    }
    let bare = Some(MediaFile { content_type: None, content: None });
    match Avatar::for_local_user(ALICE, None, &bare).avatar_type {
        AvatarType::Image(src) => assert_eq!(src, "data:application/octet-stream;base64,"),
        AvatarType::Initial(_) => panic!("there was a picture"),
    }
}

fn client(name: Option<&str>, logo: Option<&str>) -> ClientMetadata {
    ClientMetadata {
        application_type: ApplicationType::Web,
        client_name: name.map(str::to_owned),
        client_uri: Uri::parse("https://app.example.org/").unwrap(),
        grant_types: Vec::new(),
        logo_uri: logo.map(|l| Uri::parse(l).unwrap()),
        policy_uri: None,
        redirect_uris: vec![Uri::parse("https://app.example.org/cb").unwrap()],
        response_types: vec![ResponseType::Code],
        token_endpoint_auth_method: None,
        tos_uri: None,
    }
}

fn device(id: &str, name: Option<&str>, seen: Option<u64>) -> Device {
    Device {
        device_id: id.to_owned(),
        display_name: name.map(str::to_owned),
        last_seen_ip: None,
        last_seen_ts: seen,
    }
}

#[test]
fn cards_of_devices() {
    let card = DeviceCard::for_device("D".to_owned(), None, None, 0, "");
    assert_eq!(card.display_name, None);
    assert_eq!(card.last_active, "unknown");
    assert_eq!(card.last_seen_ts, None);
    assert!(card.oauth_metadata.is_none());
    assert!(matches!(card.avatar.avatar_type, AvatarType::Initial('?')));
    let own = device("D", Some("Phone"), Some(5500));
    let card = DeviceCard::for_device("D".to_owned(), Some(&own), None, 6000, "1 second");
    assert_eq!(card.display_name.as_deref(), Some("Phone"));
    assert_eq!(card.last_active, "1 second ago");
    assert_eq!(card.last_seen_ts, Some(5));
    assert!(matches!(card.avatar.avatar_type, AvatarType::Initial('\u{2756}')));
    let app = client(Some("App"), None);
    let card = DeviceCard::for_device("D".to_owned(), Some(&own), Some(&app), 5000, "");
    assert_eq!(card.display_name.as_deref(), Some("App"));
    assert_eq!(card.last_active, "now");
    assert_eq!(card.oauth_metadata.unwrap().client_name.as_deref(), Some("App"));
    assert!(matches!(card.avatar.avatar_type, AvatarType::Initial('A')));
    let app = client(None, Some("https://app.example.org/l.png"));
    let card = DeviceCard::for_device("D".to_owned(), Some(&own), Some(&app), 5000, "");
    assert_eq!(card.display_name.as_deref(), Some("Phone"));
    assert!(matches!(
        card.avatar.avatar_type,
        AvatarType::Image(src) if src == "https://app.example.org/l.png"
    ));
}

#[test]
fn devices_of_an_account() {
    let devices = vec![
        device("old", None, Some(1)),
        device("never", None, None),
        device("new", None, Some(9)),
        device("dehydrated", None, Some(10)),
        device("middle", None, Some(5)),
    ];
    let shown = account_devices(devices, Some("dehydrated"));
    let ids: Vec<&str> = shown.iter().map(|d| d.device_id.as_str()).collect();
    assert_eq!(ids, vec!["new", "middle", "old", "never"]);
}

#[test]
fn links_into_the_account_pages() {
    let to = |a, d| account_deeplink(a, d).unwrap();
    assert_eq!(to(None, None), "/_continuwuity/account/");
    assert_eq!(to(Some(AccountManagementAction::Profile), None), "/_continuwuity/account/");
    assert_eq!(
        to(Some(AccountManagementAction::AccountDeactivate), None),
        "/_continuwuity/account/deactivate",
    );
    assert_eq!(
        to(Some(AccountManagementAction::CrossSigningReset), None),
        "/_continuwuity/account/cross_signing_reset",
    );
    assert_eq!(
        to(Some(AccountManagementAction::DeviceDelete), Some("D1")),
        "/_continuwuity/account/device/D1/delete",
    );
    assert_eq!(
        to(Some(AccountManagementAction::DeviceView), Some("D1")),
        "/_continuwuity/account/device/D1/",
    );
    assert_eq!(to(Some(AccountManagementAction::DevicesList), None), "/_continuwuity/account/#devices");
    assert!(matches!(
        account_deeplink(Some(AccountManagementAction::DeviceView), None),
        Err(WebError::BadRequest(t)) if t == "A device ID is required for this action"
    ));
    assert!(matches!(
        account_deeplink(Some(AccountManagementAction::Other), None),
        Err(WebError::BadRequest(t)) if t == "Unknown action"
    ));
}

#[test]
fn the_reset_page_issues_a_ticket() {
    let mut oauth = oauth::Service::new();
    assert!(matches!(
        route_cross_signing_reset(&mut oauth, logged_in(0), false, MINUTE),
        Ok(CrossSigningResetBody::Form)
    ));
    assert!(!oauth.try_consume_ticket("alice", OAuthTicket::CrossSigningReset, MINUTE));
    assert!(matches!(
        route_cross_signing_reset(&mut oauth, logged_in(0), true, MINUTE),
        Ok(CrossSigningResetBody::Success)
    ));
    assert!(oauth.try_consume_ticket("alice", OAuthTicket::CrossSigningReset, MINUTE));
    assert!(route_cross_signing_reset(&mut oauth, logged_in(0), true, 30 * MINUTE).is_err());
}

#[test]
fn devices_are_removed_on_their_page() {
    let mut users = server();
    let mut oauth = oauth::Service::new();
    users.create_device(ALICE, "D1", "t1", None, None, None, false, 0).unwrap();
    assert!(matches!(
        route_remove_device(&mut users, &mut oauth, logged_in(0), "D1", false, &Vec::new(), 1),
        Ok(RemoveDeviceBody::Form { last_device: true })
    ));
    users.create_device(ALICE, "D2", "t2", None, None, None, false, 0).unwrap();
    assert!(matches!(
        route_remove_device(&mut users, &mut oauth, logged_in(0), "D1", false, &Vec::new(), 1),
        Ok(RemoveDeviceBody::Form { last_device: false })
    ));
    assert!(matches!(
        route_remove_device(&mut users, &mut oauth, logged_in(0), "D1", true, &Vec::new(), 1),
        Ok(RemoveDeviceBody::Success)
    ));
    assert!(matches!(
        route_remove_device(&mut users, &mut oauth, logged_in(0), "D1", true, &Vec::new(), 1),
        Err(WebError::BadRequest(t)) if t == "Unknown device"
    ));
}

#[test]
fn deactivating_has_to_be_confirmed() {
    let form = |r: Result<DeactivateStep, WebError>| match r {
        Ok(DeactivateStep::Form(errors)) => messages(&errors)
            .into_iter()
            .map(|(f, c, m)| (f, c, m.to_owned()))
            .collect::<Vec<_>>(),
        _ => panic!("the form is shown"),
    };
    assert!(form(route_deactivate(logged_in(0), None, None, 0)).is_empty());
    assert_eq!(
        form(route_deactivate(logged_in(0), Some(false), None, 0)),
        vec![("confirm", "required", "This checkbox must be checked".to_owned())],
    );
    assert!(matches!(
        route_deactivate(logged_in(0), Some(true), None, 0),
        Ok(DeactivateStep::CheckPassword)
    ));
    assert_eq!(
        form(route_deactivate(logged_in(0), Some(true), Some(false), 0)),
        vec![("password", "wrong", "Incorrect password".to_owned())],
    );
    assert!(matches!(
        route_deactivate(logged_in(0), Some(true), Some(true), 0),
        Ok(DeactivateStep::Deactivate { user_id }) if user_id == ALICE
    ));
    assert!(route_deactivate(logged_in(0), Some(true), Some(true), 11 * MINUTE).is_err());
}

#[test]
fn email_addresses_are_changed() {
    let ask = |submitted, sent| {
        route_change_email_request(logged_in(0), submitted, sent, "random".to_owned(), 0).unwrap()
    };
    assert!(matches!(ask(false, None), ChangeEmailRequestStep::Form));
    assert!(matches!(ask(true, None), ChangeEmailRequestStep::SendEmail));
    assert!(matches!(
        ask(true, Some(Some("sid".to_owned()))),
        ChangeEmailRequestStep::ValidationPending { session_id } if session_id == "sid"
    ));
    assert!(matches!(
        ask(true, Some(None)),
        ChangeEmailRequestStep::ValidationPending { session_id } if session_id == "random"
    ));
    assert!(matches!(
        get_change_email(logged_in(0), false, None, None),
        Err(WebError::Forbidden(t)) if t == "You may not change your email address."
    ));
    assert!(matches!(get_change_email(logged_in(0), true, None, None), Ok(ChangeEmailStep::CheckSession)));
    assert!(matches!(
        get_change_email(logged_in(0), true, Some(false), None),
        Ok(ChangeEmailStep::ValidationPending)
    ));
    assert!(matches!(
        get_change_email(logged_in(0), true, Some(true), None),
        Ok(ChangeEmailStep::Associate { user_id }) if user_id == ALICE
    ));
    assert!(matches!(
        get_change_email(logged_in(0), true, Some(true), Some(Err("taken".to_owned()))),
        Err(WebError::BadRequest(t)) if t == "taken"
    ));
    assert!(matches!(
        get_change_email(logged_in(0), true, Some(true), Some(Ok(()))),
        Ok(ChangeEmailStep::Success)
    ));
    assert!(matches!(post_delete_email(logged_in(0), true), Ok(id) if id == ALICE));
    assert!(matches!(
        post_delete_email(logged_in(0), false),
        Err(WebError::Forbidden(t)) if t == "You may not remove your email address."
    ));
    assert!(post_delete_email(User(None), true).is_err());
}

#[test]
fn logins() {
    let next = || LoginTarget::ChangePassword;
    assert!(matches!(
        route_login(next(), false, logged_in(0), None, None),
        LoginStep::Redirect(l) if l == "/_continuwuity/account/password/change"
    ));
    assert!(matches!(
        route_login(next(), true, logged_in(0), None, None),
        LoginStep::Page { authenticated: true, has_next: true, login_error: None }
    ));
    assert!(matches!(
        route_login(LoginTarget::Account, false, User(None), None, None),
        LoginStep::Page { authenticated: false, has_next: false, login_error: None }
    ));
    assert!(matches!(
        route_login(next(), false, User(None), Some(None), None),
        LoginStep::BadRequest("No identity provided")
    ));
    assert!(matches!(
        route_login(next(), true, logged_in(0), Some(None), None),
        LoginStep::Recognise(LoginMethod::CheckPassword(id)) if id == ALICE
    ));
    let given = |s: &str| Some(Some(s.to_owned()));
    assert!(matches!(
        route_login(next(), false, User(None), given("a@example.org"), None),
        LoginStep::Recognise(LoginMethod::Email(e)) if e == "a@example.org"
    ));
    assert!(matches!(
        route_login(next(), false, User(None), given("alice"), None),
        LoginStep::Recognise(LoginMethod::Matrix(e)) if e == "alice"
    ));
    assert!(matches!(
        route_login(next(), false, User(None), given("alice"), Some(Ok(ALICE.to_owned()))),
        LoginStep::LogIn { user_id, location }
            if user_id == ALICE && location == "/_continuwuity/account/password/change"
    ));
    let error = |e: Error| match route_login(next(), false, User(None), given("alice"), Some(Err(e))) {
        LoginStep::Page { login_error: Some(text), .. } => text,
        _ => panic!("the error is shown"),
    };
    assert_eq!(error(Error::Request(ErrorKind::Forbidden, "Wrong")), "Wrong");
    assert_eq!(
        error(Error::RequestAbout(ErrorKind::Forbidden, "Wrong", "twice".to_owned())),
        "Wrong: twice",
    );
    assert_eq!(error(Error::Other("secret")), "Internal login error");
    assert_eq!(logout_location(None), "/_continuwuity/account/login?");
    assert_eq!(logout_location(Some("next=account")), "/_continuwuity/account/login?next=account");
}

fn change_form(current: &str, new: &str, confirm: &str) -> ChangePasswordForm {
    ChangePasswordForm {
        current_password: current.to_owned(),
        new_password: new.to_owned(),
        confirm_new_password: confirm.to_owned(),
    }
}

#[test]
fn passwords_are_changed() {
    let mut users = server();
    let refused = |step: PasswordStep| match step {
        PasswordStep::Refused(errors) => messages(&errors)
            .into_iter()
            .map(|(f, c, m)| (f, c, m.to_owned()))
            .collect::<Vec<_>>(),
        _ => panic!("the form was wrong"),
    };
    assert_eq!(
        refused(change_password(&mut users, ALICE, &change_form("", "", "x"), None, None)),
        vec![
            ("current_password", "length", "Current password cannot be empty".to_owned()),
            ("new_password", "length", "New password cannot be empty".to_owned()),
            ("confirm_new_password", "must_match", "Passwords must match".to_owned()),
        ],
    );
    let form = change_form("old", "new", "new");
    assert!(matches!(
        change_password(&mut users, ALICE, &form, None, None),
        PasswordStep::Ask(PasswordAsk::CheckPassword)
    ));
    assert_eq!(
        refused(change_password(&mut users, ALICE, &form, Some(false), None)),
        vec![("current_password", "wrong", "Incorrect password".to_owned())],
    );
    assert!(matches!(
        change_password(&mut users, ALICE, &form, Some(true), None),
        PasswordStep::Ask(PasswordAsk::HashPassword)
    ));
    assert_eq!(
        refused(change_password(&mut users, ALICE, &form, Some(true), Some(Err("weak".to_owned())))),
        vec![("new_password", "malformed", "weak".to_owned())],
    );
    assert_eq!(users.password_hash(ALICE), Some("hash"));
    let hash = Some(Ok(HashedPassword("new hash".to_owned())));
    assert!(matches!(
        change_password(&mut users, ALICE, &form, Some(true), hash),
        PasswordStep::Changed
    ));
    assert_eq!(users.password_hash(ALICE), Some("new hash"));
}

#[test]
fn password_resets_are_asked_for() {
    let ask = |mailer, submitted, owner, sent| {
        route_reset_password_request(mailer, submitted, owner, sent, "random".to_owned(), "example.org")
    };
    assert!(matches!(ask(false, true, None, None), ResetRequestStep::Unavailable));
    assert!(matches!(ask(true, false, None, None), ResetRequestStep::Form));
    assert!(matches!(ask(true, true, None, None), ResetRequestStep::LocalpartForEmail));
    assert!(matches!(
        ask(true, true, Some(None), None),
        ResetRequestStep::ValidationPending { session_id } if session_id == "random"
    ));
    let alice = || Some(Some("alice".to_owned()));
    assert!(matches!(
        ask(true, true, alice(), None),
        ResetRequestStep::SendEmail { user_id } if user_id == ALICE
    ));
    assert!(matches!(
        ask(true, true, alice(), Some(None)),
        ResetRequestStep::ValidationPending { session_id } if session_id == "random"
    ));
    assert!(matches!(
        ask(true, true, alice(), Some(Some("sid".to_owned()))),
        ResetRequestStep::ValidationPending { session_id } if session_id == "sid"
    ));
}

#[test]
fn passwords_are_reset() {
    let mut users = server();
    let alice = || Some(Some("alice".to_owned()));
    let form = |new: &str, confirm: &str| {
        Some(ResetPasswordForm { new_password: new.to_owned(), confirm_new_password: confirm.to_owned() })
    };
    assert!(matches!(
        route_reset_password(&mut users, None, &None, None),
        Ok(ResetStep::ValidationPending)
    ));
    assert!(matches!(
        route_reset_password(&mut users, Some(None), &None, None),
        Err(WebError::BadRequest(t)) if t == "Inapplicable threepid session."
    ));
    assert!(matches!(
        route_reset_password(&mut users, alice(), &None, None),
        Ok(ResetStep::Form { errors, .. }) if errors.is_empty()
    ));
    assert!(matches!(
        route_reset_password(&mut users, alice(), &form("a", "b"), None),
        Ok(ResetStep::Form { errors, .. })
            if messages(&errors) == vec![("confirm_new_password", "must_match", "Passwords must match")]
    ));
    assert!(matches!(
        route_reset_password(&mut users, alice(), &form("a", "a"), None),
        Ok(ResetStep::HashPassword)
    ));
    assert!(matches!(
        route_reset_password(&mut users, alice(), &form("a", "a"), Some(Err("weak".to_owned()))),
        Ok(ResetStep::Form { errors, .. })
            if messages(&errors) == vec![("new_password", "malformed", "weak")]
    ));
    let hash = Some(Ok(HashedPassword("reset".to_owned())));
    assert!(matches!(
        route_reset_password(&mut users, alice(), &form("a", "a"), hash),
        Ok(ResetStep::Done { user_id }) if user_id == ALICE
    ));
    assert_eq!(users.password_hash(ALICE), Some("reset"));
    users.lock_account(ALICE, ALICE, 0);
    assert!(matches!(
        route_reset_password(&mut users, alice(), &None, None),
        Err(WebError::Forbidden(_))
    ));
}

fn config() -> RegistrationConfig {
    RegistrationConfig {
        allow_registration: true,
        open_registration: false,
        recaptcha: false,
        smtp: None,
    }
}

const MAIL: Option<SmtpConfig> = Some(SmtpConfig {
    require_email_for_registration: true,
    require_email_for_token_registration: true,
});

#[test]
fn ways_to_register() {
    let off = RegistrationConfig { allow_registration: false, ..config() };
    assert_eq!(
        registration_flow_status(&off, false, true),
        (TrustedFlowStatus::Unavailable, UntrustedFlowStatus::Unavailable),
    );
    assert_eq!(registration_flow_status(&off, true, true).0, TrustedFlowStatus::Available);
    assert_eq!(
        registration_flow_status(&config(), false, false),
        (TrustedFlowStatus::Unavailable, UntrustedFlowStatus::Unavailable),
    );
    let captcha = RegistrationConfig { recaptcha: true, ..config() };
    assert_eq!(
        registration_flow_status(&captcha, false, false).1,
        UntrustedFlowStatus::Available { require_email: false },
    );
    let mail = RegistrationConfig { smtp: MAIL, ..config() };
    assert_eq!(
        registration_flow_status(&mail, false, false).1,
        UntrustedFlowStatus::Available { require_email: true },
    );
    let open = RegistrationConfig { open_registration: true, ..config() };
    assert_eq!(
        registration_flow_status(&open, false, false).1,
        UntrustedFlowStatus::Available { require_email: false },
    );
}

fn registration_query(
    username: Option<&str>,
    token: Option<&str>,
    flow: Option<RequestedRegistrationFlow>,
    from_landing: bool,
) -> RegistrationQuery {
    RegistrationQuery {
        username: username.map(str::to_owned),
        token: token.map(str::to_owned),
        flow,
        from_landing,
    }
}

#[test]
fn the_registration_page() {
    let both = (TrustedFlowStatus::Available, UntrustedFlowStatus::Available { require_email: false });
    let none = (TrustedFlowStatus::Unavailable, UntrustedFlowStatus::Unavailable);
    let show = |q, statuses, error| {
        route_register(q, &config(), statuses, error, Some("site".to_owned()), ValidationErrors::new())
    };
    let trusted = Some(RequestedRegistrationFlow::Trusted);
    let untrusted = Some(RequestedRegistrationFlow::Untrusted);
    assert!(matches!(
        show(registration_query(None, None, None, false), none, None),
        RegisterPage::Unavailable
    ));
    assert!(matches!(
        show(registration_query(Some("a"), None, None, false), both, None),
        RegisterPage::BadRequest("A flow must be provided if a username is provided")
    ));
    assert!(matches!(
        show(registration_query(Some("a"), None, trusted, true), both, None),
        RegisterPage::CheckUsername
    ));
    assert!(matches!(
        show(registration_query(Some("a"), None, trusted, true), both, Some(Some("taken".to_owned()))),
        RegisterPage::UsernamePrompt { username_error: Some(e), .. } if e == "taken"
    ));
    assert!(matches!(
        show(registration_query(Some("a"), None, trusted, true), both, Some(None)),
        RegisterPage::DetailsPrompt {
            flow: RegistrationFlowParameters::Trusted { registration_token: None },
            ..
        }
    ));
    assert!(matches!(
        show(registration_query(None, Some("tok"), None, false), both, None),
        RegisterPage::DetailsPrompt {
            flow: RegistrationFlowParameters::Trusted { registration_token: Some(_) },
            ..
        }
    ));
    assert!(matches!(
        show(registration_query(Some("a"), None, untrusted, false), both, None),
        RegisterPage::DetailsPrompt {
            flow: RegistrationFlowParameters::Untrusted { recaptcha_sitekey: Some(_) },
            require_email: false,
            ..
        }
    ));
    assert!(matches!(
        show(registration_query(None, None, None, false), both, None),
        RegisterPage::UsernamePrompt { username_error: None, .. }
    ));
}

const BOTH: (TrustedFlowStatus, UntrustedFlowStatus) =
    (TrustedFlowStatus::Available, UntrustedFlowStatus::Available { require_email: false });

fn form(flow: RequestedRegistrationFlow) -> RegistrationForm {
    RegistrationForm {
        flow,
        username: "alice".to_owned(),
        email: None,
        password: "secret".to_owned(),
        confirm_password: "secret".to_owned(),
        registration_token: None,
        recaptcha_response: None,
    }
}

fn facts() -> RegistrationFacts {
    RegistrationFacts {
        user_id: Some(Ok(ALICE.to_owned())),
        password_hash: Some(Ok("hash".to_owned())),
        token_valid: None,
        recaptcha_solved: None,
        email_in_use: None,
        email_sent: None,
    }
}

fn first_error(step: RegistrationStep) -> (&'static str, &'static str, String) {
    match step {
        RegistrationStep::Refused(errors) => {
            let e = &errors.errors[0];
            (e.field, e.code, e.message.clone())
        },
        _ => panic!("the form was wrong"),
    }
}

#[test]
fn registration_forms_are_checked() {
    let mut f = form(RequestedRegistrationFlow::Trusted);
    assert!(f.validate().is_empty());
    f.password = String::new();
    assert_eq!(
        messages(&f.validate()),
        vec![
            ("password", "length", "Password cannot be empty"),
            ("confirm_password", "must_match", "Passwords must match"),
        ],
    );
    let nothing = RegistrationFacts { user_id: None, ..facts() };
    let f = form(RequestedRegistrationFlow::Untrusted);
    assert!(matches!(
        begin_registration(&f, &config(), BOTH, &nothing),
        RegistrationStep::Ask(RegistrationAsk::DetermineUserId)
    ));
    let taken = RegistrationFacts { user_id: Some(Err("taken".to_owned())), ..facts() };
    assert_eq!(
        first_error(begin_registration(&f, &config(), BOTH, &taken)),
        ("username", "invalid", "taken".to_owned()),
    );
    let unhashed = RegistrationFacts { password_hash: None, ..facts() };
    assert!(matches!(
        begin_registration(&f, &config(), BOTH, &unhashed),
        RegistrationStep::Ask(RegistrationAsk::HashPassword)
    ));
    let weak = RegistrationFacts { password_hash: Some(Err("weak".to_owned())), ..facts() };
    assert_eq!(
        first_error(begin_registration(&f, &config(), BOTH, &weak)),
        ("password", "invalid", "weak".to_owned()),
    );
}

#[test]
fn registration_with_a_token() {
    let mut f = form(RequestedRegistrationFlow::Trusted);
    assert_eq!(
        first_error(begin_registration(&f, &config(), BOTH, &facts())),
        ("registration_token", "invalid", "Invalid registration token".to_owned()),
    );
    f.registration_token = Some("tok".to_owned());
    assert!(matches!(
        begin_registration(&f, &config(), BOTH, &facts()),
        RegistrationStep::Ask(RegistrationAsk::ValidateToken)
    ));
    let invalid = RegistrationFacts { token_valid: Some(false), ..facts() };
    assert_eq!(first_error(begin_registration(&f, &config(), BOTH, &invalid)).0, "registration_token");
    let valid = RegistrationFacts { token_valid: Some(true), ..facts() };
    match begin_registration(&f, &config(), BOTH, &valid) {
        RegistrationStep::Complete(done) => {
            assert_eq!(done.user_id, ALICE);
            assert_eq!(done.password_hash.0, "hash");
            assert_eq!(done.registration_token.as_deref(), Some("tok"));
        },
        _ => panic!("nothing was missing"),
    }
}

#[test]
fn registration_with_a_captcha() {
    let captcha = RegistrationConfig { recaptcha: true, ..config() };
    let mut f = form(RequestedRegistrationFlow::Untrusted);
    assert!(matches!(
        begin_registration(&f, &captcha, BOTH, &facts()),
        RegistrationStep::BadRequest("reCAPTCHA response expected")
    ));
    f.recaptcha_response = Some("r".to_owned());
    assert!(matches!(
        begin_registration(&f, &captcha, BOTH, &facts()),
        RegistrationStep::Ask(RegistrationAsk::VerifyRecaptcha)
    ));
    let unsolved = RegistrationFacts { recaptcha_solved: Some(false), ..facts() };
    assert_eq!(
        first_error(begin_registration(&f, &captcha, BOTH, &unsolved)),
        ("recaptcha", "missing", "Please complete the CAPTCHA".to_owned()),
    );
    let solved = RegistrationFacts { recaptcha_solved: Some(true), ..facts() };
    assert!(matches!(begin_registration(&f, &captcha, BOTH, &solved), RegistrationStep::Complete(_)));
    let open = RegistrationConfig { open_registration: true, ..captcha };
    assert!(matches!(begin_registration(&f, &open, BOTH, &facts()), RegistrationStep::Complete(_)));
}

#[test]
fn registration_with_an_email_address() {
    let mail = RegistrationConfig { smtp: MAIL, ..config() };
    let mut f = form(RequestedRegistrationFlow::Untrusted);
    assert_eq!(
        first_error(begin_registration(&f, &mail, BOTH, &facts())),
        ("email", "missing", "Please provide an email address".to_owned()),
    );
    f.email = Some("a@example.org".to_owned());
    assert!(matches!(
        begin_registration(&f, &mail, BOTH, &facts()),
        RegistrationStep::Ask(RegistrationAsk::EmailInUse)
    ));
    let used = RegistrationFacts { email_in_use: Some(true), ..facts() };
    assert_eq!(
        first_error(begin_registration(&f, &mail, BOTH, &used)),
        ("email", "in_use", "This email address is already in use.".to_owned()),
    );
    let free = || RegistrationFacts { email_in_use: Some(false), ..facts() };
    assert!(matches!(
        begin_registration(&f, &mail, BOTH, &free()),
        RegistrationStep::Ask(RegistrationAsk::SendEmail)
    ));
    let unsent = RegistrationFacts { email_sent: Some(None), ..free() };
    assert_eq!(
        first_error(begin_registration(&f, &mail, BOTH, &unsent)),
        (
            "email",
            "invalid",
            "Failed to send validation email. Is this address correct?".to_owned(),
        ),
    );
    let sent = RegistrationFacts { email_sent: Some(Some("sid".to_owned())), ..free() };
    let registration = match begin_registration(&f, &mail, BOTH, &sent) {
        RegistrationStep::AwaitValidation { registration, session_id } => {
            assert_eq!(session_id, "sid");
            registration
        },
        _ => panic!("the address has to be validated"),
    };
    assert!(matches!(
        get_register_email_validate(None, None),
        EmailValidationStep::BadRequest("Inapplicable session. What are you doing here?")
    ));
    assert!(matches!(
        get_register_email_validate(Some(registration), Some(true)),
        EmailValidationStep::Complete(done) if done.user_id == ALICE
    ));
}

#[test]
fn registration_where_it_is_not_allowed() {
    let closed = RegistrationConfig { allow_registration: false, open_registration: true, ..config() };
    let untrusted = form(RequestedRegistrationFlow::Untrusted);
    let begin = |form: &RegistrationForm, first_run, any_token| {
        let statuses = registration_flow_status(&closed, first_run, any_token);
        let facts = RegistrationFacts { token_valid: Some(true), ..facts() };
        begin_registration(form, &closed, statuses, &facts)
    };
    assert!(matches!(begin(&untrusted, false, true), RegistrationStep::Unavailable));
    assert!(matches!(begin(&untrusted, true, true), RegistrationStep::Complete(_)));
    let mut trusted = form(RequestedRegistrationFlow::Trusted);
    trusted.registration_token = Some("tok".to_owned());
    assert!(matches!(begin(&trusted, false, true), RegistrationStep::Unavailable));
    assert!(matches!(begin(&trusted, true, false), RegistrationStep::Unavailable));
    match begin(&trusted, true, true) {
        RegistrationStep::Complete(registration) => {
            let done = complete_registration(registration, Some("a@example.org".to_owned()), 77);
            assert_eq!(done.user_id, ALICE);
            assert_eq!(done.password_hash.0, "hash");
            assert_eq!(done.email.as_deref(), Some("a@example.org"));
            assert_eq!(done.used_token.as_deref(), Some("tok"));
            assert_eq!(done.session.user_id, ALICE);
            assert_eq!(done.session.last_login, 77);
        },
        _ => panic!("the first account can be made"),
    }
}

#[test]
fn applications_are_granted_access() {
    let mut oauth = oauth::Service::new();
    let id = oauth.register_client(client(None, None), &vec![1, 2, 3]).unwrap();
    let query = |client_id: &str, scope: &str| AuthorizationCodeQuery {
        response_type: ResponseType::Code,
        client_id: client_id.to_owned(),
        redirect_uri: Uri::parse("https://app.example.org/cb").unwrap(),
        scope: RawScopes(scope.to_owned()),
        state: "s".to_owned(),
        response_mode: ResponseMode::Query,
        code_challenge: "c".to_owned(),
        code_challenge_method: CodeChallengeMethod::S256,
    };
    let scope = "urn:matrix:client:api:*";
    let avatar = || Avatar::for_local_user(ALICE, Some("Bob"), &None);
    let code = || "code".to_owned();
    let ask = |oauth: &mut oauth::Service, user, query, submitted| {
        route_authorization_code(oauth, user, query, submitted, code(), avatar(), 0)
    };
    let page = match ask(&mut oauth, logged_in(0), query(&id, scope), false) {
        Ok(GrantStep::Page(page)) => page,
        _ => panic!("the user is asked"),
    };
    assert_eq!(
        page.logout_query,
        format!(
            "next=authorization_code&response_type=code&client_id={id}\
             &redirect_uri=https%3A%2F%2Fapp.example.org%2Fcb&scope=urn%3Amatrix%3Aclient%3Aapi%3A*\
             &state=s&response_mode=query&code_challenge=c&code_challenge_method=S256"
        )
    );
    assert_eq!(page.user_id, ALICE);
    assert!(matches!(page.user_avatar.avatar_type, AvatarType::Initial('B')));
    assert_eq!(page.client_uri, "https://app.example.org/");
    assert_eq!(page.policy_uri, None);
    assert_eq!(page.tos_uri, None);
    assert_eq!(page.client_name, "Unknown application");
    assert!(matches!(page.client_avatar.avatar_type, AvatarType::Initial('?')));
    assert!(page.scopes.client_api);
    assert!(matches!(
        ask(&mut oauth, logged_in(0), query("none", scope), false),
        Err(WebError::BadRequest(t)) if t == "Invalid client ID"
    ));
    assert!(matches!(
        ask(&mut oauth, logged_in(0), query(&id, "x"), false),
        Err(WebError::BadRequest(t)) if t == "Invalid scope: x"
    ));
    for submitted in [false, true] {
        assert!(matches!(
            ask(&mut oauth, User(None), query(&id, scope), submitted),
            Err(WebError::LoginRequired(LoginQuery {
                next: LoginTarget::AuthorizationCode(query),
                reauthenticate: false,
            })) if query.client_id == id
        ));
    }
    assert!(oauth.pending_code_grants.get(&Key::of("code")).is_none());
    assert!(matches!(
        ask(&mut oauth, logged_in(0), query(&id, scope), true),
        Ok(GrantStep::Redirect(to)) if to == "https://app.example.org/cb?state=s&code=code"
    ));
    let pending = oauth.pending_code_grants.get(&Key::of("code")).unwrap();
    assert_eq!(pending.authorizing_user, ALICE);
    assert_eq!(pending.expected_client_id, id);
    assert_eq!(pending.code_challenge, "c");
    assert_eq!(pending.requested_at, 0);
    assert!(ask(&mut oauth, logged_in(0), query("none", scope), true).is_err());
    let target = LoginTarget::AuthorizationCode(query("x", "y"));
    assert_eq!(
        target.target_path(),
        "/_continuwuity/oauth2/grant/authorization_code?response_type=code&client_id=x\
         &redirect_uri=https%3A%2F%2Fapp.example.org%2Fcb&scope=y&state=s&response_mode=query\
         &code_challenge=c&code_challenge_method=S256"
    );
}

#[test]
fn devices_are_removed_by_their_users() {
    let mut users = users::Service::new("example.org".to_owned());
    let mut oauth = oauth::Service::new();
    let refused =
        route_remove_device(&mut users, &mut oauth, User(None), "D1", true, &Vec::new(), 1);
    let query = match refused {
        Err(WebError::LoginRequired(query)) => query,
        _ => panic!("nobody is logged in"),
    };
    assert!(!query.reauthenticate);
    assert_eq!(query.next.target_path(), "/_continuwuity/account/device/D1/remove");
    assert_eq!(
        query.login_location(),
        "/_continuwuity/account/login?next=remove_device&device=D1"
    );
}

#[test]
fn passwords_are_changed_on_their_page() {
    let mut users = users::Service::new("example.org".to_owned());
    let form = Some(change_form("old", "new", "new"));
    assert!(matches!(
        route_change_password(&mut users, User(None), &form, None, None),
        Err(WebError::LoginRequired(LoginQuery {
            next: LoginTarget::ChangePassword,
            reauthenticate: false,
        }))
    ));
    assert!(matches!(
        route_change_password(&mut users, logged_in(0), &None, None, None),
        Ok(ChangePasswordStep::Form(errors)) if errors.is_empty()
    ));
    assert!(matches!(
        route_change_password(&mut users, logged_in(0), &form, None, None),
        Ok(ChangePasswordStep::Ask(PasswordAsk::CheckPassword))
    ));
    assert!(matches!(
        route_change_password(&mut users, logged_in(0), &form, Some(false), None),
        Ok(ChangePasswordStep::Form(errors)) if !errors.is_empty()
    ));
    let hash = Some(Ok(HashedPassword("hash".to_owned())));
    assert!(matches!(
        route_change_password(&mut users, logged_in(0), &form, Some(true), hash),
        Ok(ChangePasswordStep::Success)
    ));
    assert_eq!(users.password_hash(ALICE), Some("hash"));
}
