use continuwuity::error::Error;
use continuwuity::oauth::client_metadata::{
    is_subdomain, rdns, ApplicationType, ClientMetadata, GrantType, ResponseType,
};
use continuwuity::oauth::grant::{
    AuthorizationCodeQuery, CodeChallengeMethod, RawScopes, ResponseMode, Scope, Scopes,
    TokenRequest,
};
use continuwuity::oauth::{NewTokens, OAuthTicket, Service};
use continuwuity::uri::Uri;
use continuwuity::users;

const SECOND: u128 = 1_000_000_000;

fn uri(text: &str) -> Uri {
    Uri::parse(text).expect("the text is a URI")
}

fn client(application_type: ApplicationType, redirect_uri: &str) -> ClientMetadata {
    ClientMetadata {
        application_type,
        client_name: Some("App".to_owned()),
        client_uri: uri("https://app.example.org/"),
        grant_types: vec![GrantType::AuthorizationCode, GrantType::RefreshToken],
        logo_uri: None,
        policy_uri: None,
        redirect_uris: vec![uri(redirect_uri)],
        response_types: vec![ResponseType::Code],
        token_endpoint_auth_method: None,
        tos_uri: None,
    }
}

fn query(client_id: &str, redirect_uri: &str, scope: &str) -> AuthorizationCodeQuery {
    AuthorizationCodeQuery {
        response_type: ResponseType::Code,
        client_id: client_id.to_owned(),
        redirect_uri: uri(redirect_uri),
        scope: RawScopes(scope.to_owned()),
        state: "st ate".to_owned(),
        response_mode: ResponseMode::Query,
        code_challenge: "3q0".to_owned(),
        code_challenge_method: CodeChallengeMethod::S256,
    }
}

const SCOPES: &str = "urn:matrix:client:api:* urn:matrix:client:device:ABCDEFGHIJ";

fn tokens(access: &str, refresh: &str) -> NewTokens {
    NewTokens { access_token: access.to_owned(), refresh_token: refresh.to_owned(), appservice: false }
}

fn server() -> users::Service {
    let mut users = users::Service::new("example.org".to_owned());
    users.set_password(
        "@alice:example.org",
        Some(users::account::HashedPassword("hash".to_owned())),
    );
    users
}

#[test]
fn uris_are_taken_apart() {
    let u = uri("https://user:pw@example.org:8448/path");
    assert_eq!(u.scheme(), "https");
    assert_eq!(u.domain(), Some("example.org"));
    assert!(u.has_credentials());
    assert!(u.has_port());
    assert!(u.has_authority());
    assert_eq!(u.without_port().as_str(), "https://user:pw@example.org/path");
    assert!(Uri::parse("no uri").is_none());
    assert_eq!(uri("http://[::1]/").host(), Some("[::1]"));
    assert_eq!(uri("http://[::1]/").domain(), None);
    assert!(!uri("org.example.app:/callback").has_authority());
    assert!(uri("https://a.org/").same(&uri("HTTPS://A.org")));
}

#[test]
fn subdomains() {
    assert!(is_subdomain("example.org", "example.org"));
    assert!(is_subdomain("a.example.org", "example.org"));
    assert!(is_subdomain("b.a.example.org", "a.example.org"));
    assert!(is_subdomain("b.a.example.org", "example.org"));
    assert!(!is_subdomain("badexample.org", "example.org"));
    assert!(!is_subdomain("example.org", "a.example.org"));
    assert_eq!(rdns("app.example.org"), "org.example.app");
}

#[test]
fn clients_in_order_are_accepted() {
    assert_eq!(client(ApplicationType::Web, "https://app.example.org/cb").validate(), Ok(()));
    assert_eq!(client(ApplicationType::Native, "http://localhost/cb").validate(), Ok(()));
    assert_eq!(client(ApplicationType::Native, "http://127.0.0.1/cb").validate(), Ok(()));
    assert_eq!(client(ApplicationType::Native, "http://[::1]/cb").validate(), Ok(()));
    assert_eq!(client(ApplicationType::Native, "org.example.app:/cb").validate(), Ok(()));
    let mut with_logo = client(ApplicationType::Web, "https://app.example.org/cb");
    with_logo.logo_uri = Some(uri("https://cdn.app.example.org/logo.png"));
    assert_eq!(with_logo.validate(), Ok(()));
}

#[test]
fn clients_that_are_wrong_are_refused() {
    let mut m = client(ApplicationType::Web, "https://app.example.org/cb");
    m.client_uri = uri("https://127.0.0.1/");
    assert_eq!(m.validate(), Err("Client URI must have a domain."));
    m.client_uri = uri("http://app.example.org/");
    assert_eq!(m.validate(), Err("Client URI must be HTTPS."));
    m.client_uri = uri("https://me@app.example.org/");
    assert_eq!(m.validate(), Err("Client URI must not include credentials."));
    m.client_uri = uri("https://app.example.org/");
    m.tos_uri = Some(uri("http://app.example.org/tos"));
    assert_eq!(m.validate(), Err("All metadata URIs must be HTTPS."));
    m.tos_uri = Some(uri("https://me@app.example.org/tos"));
    assert_eq!(m.validate(), Err("All metadata URIs must not include credentials."));
    m.tos_uri = Some(uri("https://example.org/tos"));
    assert_eq!(m.validate(), Err("All metadata URIs must be subdomains of the client URI."));
    assert_eq!(
        client(ApplicationType::Web, "https://me@app.example.org/cb").validate(),
        Err("HTTPS redirect URIs must not contain credentials."),
    );
    assert_eq!(
        client(ApplicationType::Web, "http://localhost/cb").validate(),
        Err("A redirect URI's scheme is not valid for this application type."),
    );
    assert_eq!(
        client(ApplicationType::Native, "http://example.org/cb").validate(),
        Err("HTTP redirect URIs for native applications must only refer to localhost."),
    );
    assert_eq!(
        client(ApplicationType::Native, "http://localhost:8080/cb").validate(),
        Err("HTTP redirect URIs for native applications do not need to specify a port. All ports will be accepted during authorization."),
    );
    assert_eq!(
        client(ApplicationType::Native, "com.other:/cb").validate(),
        Err("Private-use scheme URIs for native applications must begin with the application's client URI domain in reverse-DNS notation."),
    );
    assert_eq!(
        client(ApplicationType::Native, "org.example.app://host/cb").validate(),
        Err("Private-use scheme URIs for native applications must not have an authority."),
    );
}

#[test]
fn scopes_are_read() {
    let scopes = RawScopes(SCOPES.to_owned()).to_scopes().unwrap();
    assert!(scopes.client_api);
    assert_eq!(scopes.devices, vec!["ABCDEFGHIJ".to_owned()]);
    let old = RawScopes(
        "urn:matrix:org.matrix.msc2967.client:api:* urn:matrix:org.matrix.msc2967.client:device:ABCDEFGHIJ"
            .to_owned(),
    );
    let old = old.to_scopes().unwrap();
    assert!(old.client_api);
    assert_eq!(old.devices, vec!["ABCDEFGHIJ".to_owned()]);
    let ignored = RawScopes("openid".to_owned()).to_scopes().unwrap();
    assert!(!ignored.client_api && ignored.devices.is_empty());
    assert_eq!(
        RawScopes("nonsense".to_owned()).to_scopes().err(),
        Some("Invalid scope: nonsense".to_owned()),
    );
    assert_eq!(
        RawScopes("urn:matrix:client:api:* urn:matrix:client:api:*".to_owned()).to_scopes().err(),
        Some("Scope was specified more than once".to_owned()),
    );
    assert_eq!(
        RawScopes("urn:matrix:client:device:ABC".to_owned()).to_scopes().err(),
        Some("Invalid scope: urn:matrix:client:device:ABC".to_owned()),
    );
    assert_eq!(Scope::ClientApi.to_urn(), "urn:matrix:client:api:*");
}

#[test]
fn printed_scopes_are_read_again() {
    let mut scopes = Scopes::new();
    assert!(scopes.add_device("ZYXWV"));
    assert!(scopes.add_device("AB-._~9"));
    scopes.client_api = true;
    let text = scopes.to_text();
    assert_eq!(
        text,
        "urn:matrix:client:device:AB-._~9 urn:matrix:client:device:ZYXWV urn:matrix:client:api:*"
    );
    let read = RawScopes(text).to_scopes().unwrap();
    assert_eq!(read.devices, vec!["AB-._~9", "ZYXWV"]);
    assert!(read.client_api);
    let mut only = Scopes::new();
    only.client_api = true;
    assert!(RawScopes(only.to_text()).to_scopes().unwrap().client_api);
    // There is no name for no scopes.
    assert!(RawScopes(Scopes::new().to_text()).to_scopes().is_err());
}

#[test]
fn requests_name_their_client() {
    let request = TokenRequest::RefreshToken {
        client_id: "c1".to_owned(),
        refresh_token: "r1".to_owned(),
    };
    assert_eq!(request.client_id(), "c1");
    let request = TokenRequest::AuthorizationCode {
        code: "x".to_owned(),
        redirect_uri: uri("https://app.example.org/cb"),
        client_id: "c2".to_owned(),
        code_verifier: "v".to_owned(),
    };
    assert_eq!(request.client_id(), "c2");
}

#[test]
fn the_same_client_gets_the_same_id() {
    let mut oauth = Service::new();
    let digest = vec![1u8, 2, 3];
    let id = oauth.register_client(client(ApplicationType::Web, "https://app.example.org/cb"), &digest);
    assert_eq!(id, Ok("AQID".to_owned()));
    let again = oauth.register_client(client(ApplicationType::Web, "https://app.example.org/cb"), &digest);
    assert_eq!(again, id);
    assert!(oauth.get_client_metadata("AQID").is_some());
    assert!(oauth.get_client_metadata("other").is_none());
}

fn granted() -> (Service, users::Service) {
    let mut oauth = Service::new();
    let id = oauth
        .register_client(client(ApplicationType::Web, "https://app.example.org/cb"), &vec![1, 2, 3])
        .unwrap();
    let location = oauth
        .request_authorization_code(
            "@alice:example.org".to_owned(),
            query(&id, "https://app.example.org/cb", SCOPES),
            "code1".to_owned(),
            SECOND,
        )
        .unwrap();
    assert_eq!(location, "https://app.example.org/cb?state=st+ate&code=code1");
    (oauth, server())
}

#[test]
fn wrong_code_requests_are_refused() {
    let mut oauth = Service::new();
    let id = oauth
        .register_client(client(ApplicationType::Native, "http://localhost/cb"), &vec![1, 2, 3])
        .unwrap();
    let mut ask = |q: AuthorizationCodeQuery| {
        oauth.request_authorization_code("@alice:example.org".to_owned(), q, "c".to_owned(), 0)
    };
    assert_eq!(ask(query("none", "http://localhost/cb", SCOPES)), Err("Invalid client ID".to_owned()));
    assert_eq!(
        ask(query(&id, "http://localhost/other", SCOPES)),
        Err("Invalid redirect URI".to_owned()),
    );
    assert!(ask(query(&id, "http://localhost/cb", "nonsense")).is_err());
    assert!(ask(query(&id, "http://localhost:4711/cb", SCOPES)).is_ok());
    let mut fragment = query(&id, "http://localhost/cb", SCOPES);
    fragment.response_mode = ResponseMode::Fragment;
    assert_eq!(ask(fragment), Ok("http://localhost/cb#state=st+ate&code=c".to_owned()));
}

#[test]
fn a_code_works_once() {
    let (mut oauth, mut users) = granted();
    let redirect = uri("https://app.example.org/cb");
    // The digest 0xde 0xad encodes to the challenge "3q0".
    let digest = vec![0xdeu8, 0xad];
    let response = oauth
        .issue_token(&mut users, "code1", &redirect, "AQID", &digest, tokens("a1", "r1"), 2 * SECOND)
        .unwrap();
    assert_eq!(response.access_token, "a1");
    assert_eq!(response.refresh_token, "r1");
    assert_eq!(
        users.find_from_token("a1", 2 * SECOND),
        Some(("@alice:example.org".to_owned(), "ABCDEFGHIJ".to_owned())),
    );
    let again = oauth.issue_token(
        &mut users,
        "code1",
        &redirect,
        "AQID",
        &digest,
        tokens("a2", "r2"),
        2 * SECOND,
    );
    assert!(again.is_err());
}

#[test]
fn a_wrong_verifier_uses_the_code_up() {
    let (mut oauth, mut users) = granted();
    let redirect = uri("https://app.example.org/cb");
    let wrong = oauth.issue_token(&mut users, "code1", &redirect, "AQID", &vec![0], tokens("a", "r"), SECOND);
    assert!(wrong.is_err());
    let right =
        oauth.issue_token(&mut users, "code1", &redirect, "AQID", &vec![0xde, 0xad], tokens("a", "r"), SECOND);
    assert!(right.is_err());
}

#[test]
fn refreshed_sessions_and_revoked_tokens() {
    let (mut oauth, mut users) = granted();
    oauth
        .issue_token(
            &mut users,
            "code1",
            &uri("https://app.example.org/cb"),
            "AQID",
            &vec![0xde, 0xad],
            tokens("a1", "r1"),
            2 * SECOND,
        )
        .unwrap();
    let session = oauth.get_session_info_for_device("@alice:example.org", "ABCDEFGHIJ").unwrap();
    assert_eq!(session.client_id, "AQID");
    assert_eq!(session.current_refresh_token, "r1");
    let refreshed =
        oauth.refresh_session(&mut users, "AQID", "r1", tokens("a2", "r2"), 3 * SECOND).unwrap();
    assert_eq!(refreshed.access_token, "a2");
    assert_eq!(users.find_from_token("a1", 3 * SECOND), None);
    assert!(users.find_from_token("a2", 3 * SECOND).is_some());
    assert!(oauth.revoke_token(&mut users, "a2", &Vec::new(), 9, 3 * SECOND).is_ok());
    assert_eq!(users.find_from_token("a2", 3 * SECOND), None);
    assert!(oauth.get_session_info_for_device("@alice:example.org", "ABCDEFGHIJ").is_none());
}

#[test]
fn a_ticket_works_once() {
    let mut oauth = Service::new();
    let ticket = OAuthTicket::CrossSigningReset;
    assert_eq!(ticket.ticket_issue_path(), "/account/cross_signing_reset");
    assert!(!oauth.try_consume_ticket("alice", ticket, SECOND));
    oauth.issue_ticket("alice", ticket, SECOND);
    assert!(!oauth.try_consume_ticket("bob", ticket, 2 * SECOND));
    assert!(oauth.try_consume_ticket("alice", ticket, 2 * SECOND));
    assert!(!oauth.try_consume_ticket("alice", ticket, 2 * SECOND));
}

#[test]
fn unknown_codes_are_refused() {
    let mut oauth = Service::new();
    let mut users = server();
    let r = oauth.issue_token(
        &mut users,
        "none",
        &uri("https://app.example.org/cb"),
        "AQID",
        &vec![],
        tokens("a", "r"),
        0,
    );
    assert!(matches!(r, Err(Error::Other("Invalid code"))));
}

#[test]
fn scopes_of_a_kind_are_equal() {
    let a = Scope::Device("A".to_owned());
    let b = Scope::Device("B".to_owned());
    assert!(a.eq_kind(&b));
    assert!(!a.eq_kind(&Scope::ClientApi));
    assert!(Scope::ClientApi.eq_kind(&Scope::ClientApi));
}

#[test]
fn removed_sessions_cannot_be_refreshed() {
    let mut oauth = Service::new();
    let mut users = server();
    let scopes = RawScopes(SCOPES.to_owned()).to_scopes().unwrap();
    let alice = "@alice:example.org";
    let session = oauth.create_session(
        &mut users,
        alice.to_owned(),
        scopes,
        None,
        "client",
        tokens("a1", "r1"),
        SECOND,
    );
    assert_eq!(session.unwrap().refresh_token, "r1");
    oauth.remove_session(alice, "ABCDEFGHIJ");
    assert!(oauth.get_session_info_for_device(alice, "ABCDEFGHIJ").is_none());
    assert!(matches!(
        oauth.refresh_session(&mut users, "client", "r1", tokens("a2", "r2"), SECOND),
        Err(Error::Other("Invalid refresh token"))
    ));
}
