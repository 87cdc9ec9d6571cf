//! OAuth: clients, grants, sessions and tickets.

use crate::error::{Error, ErrorKind};
use crate::oauth::client_metadata::{
    acceptable_localhost, is_localhost, may_redirect, metadata_wrong, ApplicationType,
    ClientMetadata,
};
use crate::oauth::grant::{
    scope_text, scopes_of, AuthorizationCodeQuery, ResponseMode, Scopes, ScopesView,
    TokenResponse, TokenType,
};
use crate::order::same_str;
use crate::store::{key1, key2, Column, Key, KeyView};
use crate::text::split;
use crate::time::{is_younger_than, younger_than};
use crate::uri::{port_removed, Uri, UriView};
use crate::users;
use crate::users::devices::no_such_user;
use vstd::prelude::*;

pub mod client_metadata;
pub mod grant;

verus! {

/// How long an authorization code is good, in nanoseconds.
pub const CODE_MAX_AGE: u128 = 60000000000;

/// How long a ticket is good, in nanoseconds.
pub const TICKET_MAX_AGE: u128 = 600000000000;

/// How long an access token is good, in seconds.
pub const ACCESS_TOKEN_MAX_AGE: u64 = 3600;

/// What is kept about the session of a device.
#[derive(Debug)]
pub struct SessionInfo {
    pub client_id: String,
    pub scopes: Scopes,
    pub current_refresh_token: String,
}

#[verifier::ext_equal]
pub struct SessionView {
    pub client_id: Seq<char>,
    pub scopes: ScopesView,
    pub current_refresh_token: Seq<char>,
}

impl View for SessionInfo {
    type V = SessionView;

    open spec fn view(&self) -> SessionView {
        SessionView {
            client_id: self.client_id@,
            scopes: self.scopes@,
            current_refresh_token: self.current_refresh_token@,
        }
    }
}

/// What is kept about a refresh token.
#[derive(Debug)]
pub struct RefreshTokenInfo {
    pub client_id: String,
    pub user_id: String,
    pub device_id: String,
}

#[verifier::ext_equal]
pub struct RefreshView {
    pub client_id: Seq<char>,
    pub user_id: Seq<char>,
    pub device_id: Seq<char>,
}

impl View for RefreshTokenInfo {
    type V = RefreshView;

    open spec fn view(&self) -> RefreshView {
        RefreshView {
            client_id: self.client_id@,
            user_id: self.user_id@,
            device_id: self.device_id@,
        }
    }
}

/// A grant that waits for its code to be turned in.
#[derive(Debug)]
pub struct PendingCodeGrant {
    pub authorizing_user: String,
    pub requested_scopes: Scopes,
    pub client_name: Option<String>,
    pub expected_client_id: String,
    pub expected_redirect_uri: Uri,
    pub code_challenge: String,
    pub requested_at: u128,
}

#[verifier::ext_equal]
pub struct GrantView {
    pub authorizing_user: Seq<char>,
    pub requested_scopes: ScopesView,
    pub client_name: Option<Seq<char>>,
    pub expected_client_id: Seq<char>,
    pub expected_redirect_uri: UriView,
    pub code_challenge: Seq<char>,
    pub requested_at: u128,
}

impl View for PendingCodeGrant {
    type V = GrantView;

    open spec fn view(&self) -> GrantView {
        GrantView {
            authorizing_user: self.authorizing_user@,
            requested_scopes: self.requested_scopes@,
            client_name: users::maybe(self.client_name),
            expected_client_id: self.expected_client_id@,
            expected_redirect_uri: self.expected_redirect_uri@,
            code_challenge: self.code_challenge@,
            requested_at: self.requested_at,
        }
    }
}

impl GrantView {
    /// The grant is the client's, and not too old.
    pub open spec fn is_valid_for(self, client_id: Seq<char>, now: u128) -> bool {
        self.expected_client_id == client_id && younger_than(now, self.requested_at, CODE_MAX_AGE)
    }
}

impl PendingCodeGrant {
    pub fn is_valid_for(&self, client_id: &str, now: u128) -> (r: bool)
        ensures
            r == self@.is_valid_for(client_id@, now),
    {
        same_str(self.expected_client_id.as_str(), client_id) && is_younger_than(
            now,
            self.requested_at,
            CODE_MAX_AGE,
        )
    }
}

/// A time-limited grant for a client to perform some sensitive action.
#[derive(Clone, Copy, Debug, PartialEq, Eq, Structural)]
pub enum OAuthTicket {
    CrossSigningReset,
}

impl OAuthTicket {
    /// The path of the page that issues the ticket.
    pub open spec fn issue_path(self) -> &'static str {
        match self {
            OAuthTicket::CrossSigningReset => "/account/cross_signing_reset",
        }
    }

    pub fn ticket_issue_path(&self) -> (r: &'static str)
        ensures
            r == self.issue_path(),
    {
        match self {
            OAuthTicket::CrossSigningReset => "/account/cross_signing_reset",
        }
    }
}

/// What `base64::prelude::BASE64_STANDARD` makes of bytes.
pub uninterp spec fn base64_standard(bytes: Seq<u8>) -> Seq<char>;

/// `base64::Engine::encode` of `base64::prelude::BASE64_STANDARD`: the text that encodes the
/// bytes. It depends on the bytes alone.
#[verifier::external_body]
pub(crate) fn encode_standard(bytes: &Vec<u8>) -> (r: String)
    ensures
        r@ == base64_standard(bytes@),
{
    base64::Engine::encode(&base64::prelude::BASE64_STANDARD, bytes)
}

/// What `base64::prelude::BASE64_URL_SAFE_NO_PAD` makes of bytes.
pub uninterp spec fn base64_url(bytes: Seq<u8>) -> Seq<char>;

/// `base64::Engine::encode` of `base64::prelude::BASE64_URL_SAFE_NO_PAD`: the text that
/// encodes the bytes. It depends on the bytes alone.
#[verifier::external_body]
fn encode_url(bytes: &Vec<u8>) -> (r: String)
    ensures
        r@ == base64_url(bytes@),
{
    base64::Engine::encode(&base64::prelude::BASE64_URL_SAFE_NO_PAD, bytes)
}

/// The texts of named values.
pub open spec fn pair_views(pairs: Seq<(String, String)>) -> Seq<(Seq<char>, Seq<char>)> {
    pairs.map_values(|pair: (String, String)| (pair.0@, pair.1@))
}

/// What `serde_urlencoded::to_string` makes of named values.
pub uninterp spec fn form_encoded(pairs: Seq<(Seq<char>, Seq<char>)>) -> Seq<char>;

/// `serde_urlencoded::to_string`: the form encoding of named values. It depends on the texts
/// alone, and texts can always be encoded.
#[verifier::external_body]
pub(crate) fn encode_form(pairs: &Vec<(String, String)>) -> (r: String)
    ensures
        r@ == form_encoded(pair_views(pairs@)),
{
    serde_urlencoded::to_string(pairs).expect("texts can be encoded")
}

/// What is kept about clients, sessions, grants and tickets.
pub struct Service {
    pub clientid_clientmetadata: Column<ClientMetadata>,
    pub userdeviceid_oauthsessioninfo: Column<SessionInfo>,
    pub refreshtoken_refreshtokeninfo: Column<RefreshTokenInfo>,
    /// When each ticket was issued: by localpart and issue path.
    pub tickets: Column<u128>,
    /// By code.
    pub pending_code_grants: Column<PendingCodeGrant>,
}

#[verifier::ext_equal]
pub struct ServiceView {
    pub clients: Map<KeyView, ClientMetadata>,
    pub sessions: Map<KeyView, SessionView>,
    pub refresh_tokens: Map<KeyView, RefreshView>,
    pub tickets: Map<KeyView, u128>,
    pub pending: Map<KeyView, GrantView>,
}

impl View for Service {
    type V = ServiceView;

    open spec fn view(&self) -> ServiceView {
        ServiceView {
            clients: self.clientid_clientmetadata@,
            sessions: self.userdeviceid_oauthsessioninfo@,
            refresh_tokens: self.refreshtoken_refreshtokeninfo@,
            tickets: self.tickets@,
            pending: self.pending_code_grants@,
        }
    }
}

/// What separates a URI from the answer that is appended to it.
pub open spec fn separator(mode: ResponseMode) -> Seq<char> {
    match mode {
        ResponseMode::Fragment => "#"@,
        ResponseMode::Query => "?"@,
    }
}

/// The URI is that of a native client on its own machine, which may have any port.
pub open spec fn any_port(metadata: ClientMetadata, uri: UriView) -> bool {
    metadata.application_type is Native && (uri.host matches Some(host) && is_localhost(host))
}

/// The URI to redirect to, as it has to be among those that the client gave.
pub open spec fn stripped(metadata: ClientMetadata, uri: UriView) -> UriView {
    if any_port(metadata, uri) {
        port_removed(uri)
    } else {
        uri
    }
}

/// What is wrong with a request for an authorization code, if anything is.
pub open spec fn code_request_wrong(
    clients: Map<KeyView, ClientMetadata>,
    query: AuthorizationCodeQuery,
) -> Option<Seq<char>> {
    if !clients.contains_key(key1(query.client_id@)) {
        Some("Invalid client ID"@)
    } else {
        let metadata = clients[key1(query.client_id@)];
        if !metadata.response_types@.contains(query.response_type) {
            Some("Invalid response type"@)
        } else if !may_redirect(metadata, stripped(metadata, query.redirect_uri@)) {
            Some("Invalid redirect URI"@)
        } else {
            match scopes_of(split(query.scope.0@, ' ')) {
                Err(message) => Some(message),
                Ok(_) => None,
            }
        }
    }
}

/// The port of the URI to redirect to can be taken off where it has to be: a `file` URI has
/// none to take off.
pub open spec fn port_can_go(
    clients: Map<KeyView, ClientMetadata>,
    query: AuthorizationCodeQuery,
) -> bool {
    clients.contains_key(key1(query.client_id@)) && any_port(
        clients[key1(query.client_id@)],
        query.redirect_uri@,
    ) ==> query.redirect_uri@.scheme != "file"@
}

/// Where a user who has granted a client access is sent.
pub open spec fn granted_uri(query: AuthorizationCodeQuery, code: Seq<char>) -> Seq<char> {
    query.redirect_uri@.text + separator(query.response_mode) + form_encoded(
        seq![("state"@, query.state@), ("code"@, code)],
    )
}

impl ServiceView {
    /// A user has granted a client an authorization code.
    pub open spec fn with_grant(
        self,
        authorizing_user: Seq<char>,
        query: AuthorizationCodeQuery,
        code: Seq<char>,
        now: u128,
    ) -> ServiceView {
        ServiceView {
            pending: self.pending.insert(
                key1(code),
                GrantView {
                    authorizing_user,
                    requested_scopes: scopes_of(split(query.scope.0@, ' '))->Ok_0,
                    client_name: users::maybe(self.clients[key1(query.client_id@)].client_name),
                    expected_client_id: query.client_id@,
                    expected_redirect_uri: query.redirect_uri@,
                    code_challenge: query.code_challenge@,
                    requested_at: now,
                },
            ),
            ..self
        }
    }

    /// The session of a device is gone, with its refresh token.
    pub open spec fn without_session(self, user_id: Seq<char>, device_id: Seq<char>) -> ServiceView {
        let key = key2(user_id, device_id);
        if self.sessions.contains_key(key) {
            ServiceView {
                sessions: self.sessions.remove(key),
                refresh_tokens: self.refresh_tokens.remove(
                    key1(self.sessions[key].current_refresh_token),
                ),
                ..self
            }
        } else {
            self
        }
    }

    /// A device has a new session.
    pub open spec fn with_session(
        self,
        user_id: Seq<char>,
        device_id: Seq<char>,
        session: SessionView,
    ) -> ServiceView {
        ServiceView {
            sessions: self.sessions.insert(key2(user_id, device_id), session),
            refresh_tokens: self.refresh_tokens.insert(
                key1(session.current_refresh_token),
                RefreshView { client_id: session.client_id, user_id, device_id },
            ),
            ..self
        }
    }

    /// A refresh token has been turned in for a new one.
    pub open spec fn with_refreshed(
        self,
        refresh_token: Seq<char>,
        new_refresh_token: Seq<char>,
    ) -> ServiceView {
        let info = self.refresh_tokens[key1(refresh_token)];
        let key = key2(info.user_id, info.device_id);
        ServiceView {
            sessions: self.sessions.insert(
                key,
                SessionView {
                    current_refresh_token: new_refresh_token,
                    ..self.sessions[key]
                },
            ),
            refresh_tokens: self.refresh_tokens.remove(key1(refresh_token)).insert(
                key1(new_refresh_token),
                info,
            ),
            ..self
        }
    }

    /// The refresh token is the client's, and so is the session that it belongs to.
    pub open spec fn refreshable(self, client_id: Seq<char>, refresh_token: Seq<char>) -> bool {
        self.refresh_tokens.contains_key(key1(refresh_token)) ==> {
            let info = self.refresh_tokens[key1(refresh_token)];
            let key = key2(info.user_id, info.device_id);
            &&& info.client_id == client_id
            &&& self.sessions.contains_key(key)
            &&& self.sessions[key].client_id == client_id
        }
    }
}

/// The answer carries the tokens, for the scopes.
pub open spec fn answers(
    response: TokenResponse,
    access_token: Seq<char>,
    refresh_token: Seq<char>,
    scopes: ScopesView,
) -> bool {
    &&& response.access_token@ == access_token
    &&& response.token_type == TokenType::Bearer
    &&& response.expires_in == ACCESS_TOKEN_MAX_AGE
    &&& response.refresh_token@ == refresh_token
    &&& response.scope@ == scope_text(scopes)
}

/// Two new random tokens, and whether the first is an appservice's.
pub struct NewTokens {
    pub access_token: String,
    pub refresh_token: String,
    pub appservice: bool,
}

impl Service {
    pub fn new() -> (r: Service)
        ensures
            r@ == (ServiceView {
                clients: Map::empty(),
                sessions: Map::empty(),
                refresh_tokens: Map::empty(),
                tickets: Map::empty(),
                pending: Map::empty(),
            }),
    {
        Service {
            clientid_clientmetadata: Column::new(),
            userdeviceid_oauthsessioninfo: Column::new(),
            refreshtoken_refreshtokeninfo: Column::new(),
            tickets: Column::new(),
            pending_code_grants: Column::new(),
        }
    }

    /// Registers a client. Its ID is the given digest of what it says of itself, encoded: a
    /// client with the same digest gets the same ID, and what the first one said is kept.
    pub fn register_client(&mut self, metadata: ClientMetadata, digest: &Vec<u8>) -> (r: Result<
        String,
        &'static str,
    >)
        requires
            metadata.well_formed(),
        ensures
            match metadata_wrong(metadata) {
                Some(wrong) => r == Err::<String, &'static str>(wrong) && final(self)@ == old(
                    self,
                )@,
                None => {
                    let id = base64_standard(digest@);
                    &&& r matches Ok(client_id) && client_id@ == id
                    &&& final(self)@ == if old(self)@.clients.contains_key(key1(id)) {
                        old(self)@
                    } else {
                        ServiceView {
                            clients: old(self)@.clients.insert(key1(id), metadata),
                            ..old(self)@
                        }
                    }
                },
            },
    {
        if let Err(wrong) = metadata.validate() {
            return Err(wrong);
        }
        let client_id = encode_standard(digest);
        if !self.clientid_clientmetadata.contains(&Key::of(client_id.as_str())) {
            self.clientid_clientmetadata.insert(Key::of(client_id.as_str()), metadata);
        }
        Ok(client_id)
    }

    pub fn get_client_metadata(&self, client_id: &str) -> (r: Option<&ClientMetadata>)
        ensures
            match r {
                Some(metadata) => self@.clients.contains_key(key1(client_id@))
                    && self@.clients[key1(client_id@)] == *metadata,
                None => !self@.clients.contains_key(key1(client_id@)),
            },
    {
        self.clientid_clientmetadata.get(&Key::of(client_id))
    }

    pub fn get_session_info_for_device(&self, user_id: &str, device_id: &str) -> (r: Option<
        &SessionInfo,
    >)
        ensures
            match r {
                Some(session) => self@.sessions.contains_key(key2(user_id@, device_id@))
                    && self@.sessions[key2(user_id@, device_id@)] == session@,
                None => !self@.sessions.contains_key(key2(user_id@, device_id@)),
            },
    {
        self.userdeviceid_oauthsessioninfo.get(&Key::pair(user_id, device_id))
    }

    /// Grants a client an authorization code, which is new and random. Returns where to send
    /// the user, or what is wrong.
    pub fn request_authorization_code(
        &mut self,
        authorizing_user: String,
        query: AuthorizationCodeQuery,
        code: String,
        now: u128,
    ) -> (r: Result<String, String>)
        requires
            port_can_go(old(self)@.clients, query),
        ensures
            match code_request_wrong(old(self)@.clients, query) {
                Some(message) => (r matches Err(m) && m@ == message) && final(self)@ == old(self)@,
                None => {
                    &&& r matches Ok(uri) && uri@ == granted_uri(query, code@)
                    &&& final(self)@ == old(self)@.with_grant(
                        authorizing_user@,
                        query,
                        code@,
                        now,
                    )
                },
            },
    {
        let metadata = match self.get_client_metadata(query.client_id.as_str()) {
            None => {
                return Err("Invalid client ID".to_owned());
            },
            Some(metadata) => metadata,
        };
        if !metadata.takes_response(query.response_type) {
            return Err("Invalid response type".to_owned());
        }
        let local = match query.redirect_uri.host() {
            Some(host) => {
                proof {
                    reveal_strlit("localhost");
                    reveal_strlit("127.0.0.1");
                    reveal_strlit("[::1]");
                }
                acceptable_localhost(host)
            },
            None => false,
        };
        let redirects = if metadata.application_type == ApplicationType::Native && local {
            let without_port = query.redirect_uri.without_port();
            metadata.redirects_to(&without_port)
        } else {
            metadata.redirects_to(&query.redirect_uri)
        };
        if !redirects {
            return Err("Invalid redirect URI".to_owned());
        }
        let requested_scopes = match query.scope.to_scopes() {
            Err(message) => {
                return Err(message);
            },
            Ok(scopes) => scopes,
        };
        let client_name = match &metadata.client_name {
            Some(name) => Some(name.clone()),
            None => None,
        };
        let mut redirect_uri = query.redirect_uri.as_str().to_owned();
        match query.response_mode {
            ResponseMode::Fragment => redirect_uri.append("#"),
            ResponseMode::Query => redirect_uri.append("?"),
        }
        let mut pairs: Vec<(String, String)> = Vec::new();
        pairs.push(("state".to_owned(), query.state.clone()));
        pairs.push(("code".to_owned(), code.clone()));
        let form = encode_form(&pairs);
        proof {
            assert(pair_views(pairs@) =~= seq![("state"@, query.state@), ("code"@, code@)]);
        }
        redirect_uri.append(form.as_str());
        let pending = PendingCodeGrant {
            authorizing_user,
            requested_scopes,
            client_name,
            expected_client_id: query.client_id,
            expected_redirect_uri: query.redirect_uri,
            code_challenge: query.code_challenge,
            requested_at: now,
        };
        self.pending_code_grants.insert(Key::of(code.as_str()), pending);
        Ok(redirect_uri)
    }

    /// Turns an authorization code in for tokens. The code is used up, whatever comes of it.
    /// `digest` is the digest of the code verifier.
    pub fn issue_token(
        &mut self,
        users: &mut users::Service,
        code: &str,
        redirect_uri: &Uri,
        client_id: &str,
        digest: &Vec<u8>,
        tokens: NewTokens,
        now: u128,
    ) -> (r: Result<TokenResponse, Error>)
        ensures
            ({
                let known = old(self)@.pending.contains_key(key1(code@));
                let grant = old(self)@.pending[key1(code@)];
                let used = ServiceView {
                    pending: old(self)@.pending.remove(key1(code@)),
                    ..old(self)@
                };
                if !known || !grant.is_valid_for(client_id@, now) {
                    &&& r == Err::<TokenResponse, Error>(Error::Other("Invalid code"))
                    &&& final(self)@ == used
                    &&& final(users)@ == old(users)@
                } else if redirect_uri@.text != grant.expected_redirect_uri.text {
                    &&& r == Err::<TokenResponse, Error>(Error::Other("Unexpected redirect uri"))
                    &&& final(self)@ == used
                    &&& final(users)@ == old(users)@
                } else if base64_url(digest@) != grant.code_challenge {
                    &&& r == Err::<TokenResponse, Error>(Error::Other("Invalid code challenge"))
                    &&& final(self)@ == used
                    &&& final(users)@ == old(users)@
                } else {
                    session_created(
                        used,
                        final(self)@,
                        *old(users),
                        *final(users),
                        grant.authorizing_user,
                        grant.requested_scopes,
                        grant.client_name,
                        client_id@,
                        tokens,
                        now,
                        r,
                    )
                }
            }),
            final(users).server_name == old(users).server_name,
    {
        let grant = match self.pending_code_grants.take(&Key::of(code)) {
            None => {
                return Err(Error::Other("Invalid code"));
            },
            Some(grant) => grant,
        };
        if !grant.is_valid_for(client_id, now) {
            return Err(Error::Other("Invalid code"));
        }
        if !redirect_uri.same(&grant.expected_redirect_uri) {
            return Err(Error::Other("Unexpected redirect uri"));
        }
        let expected_code_challenge = encode_url(digest);
        if !same_str(expected_code_challenge.as_str(), grant.code_challenge.as_str()) {
            return Err(Error::Other("Invalid code challenge"));
        }
        self.create_session(
            users,
            grant.authorizing_user,
            grant.requested_scopes,
            grant.client_name,
            client_id,
            tokens,
            now,
        )
    }

    /// Makes a session for the device that the scopes name, with new tokens.
    pub fn create_session(
        &mut self,
        users: &mut users::Service,
        authorizing_user: String,
        requested_scopes: Scopes,
        client_name: Option<String>,
        client_id: &str,
        tokens: NewTokens,
        now: u128,
    ) -> (r: Result<TokenResponse, Error>)
        ensures
            session_created(
                old(self)@,
                final(self)@,
                *old(users),
                *final(users),
                authorizing_user@,
                requested_scopes@,
                users::maybe(client_name),
                client_id@,
                tokens,
                now,
                r,
            ),
            final(users).server_name == old(users).server_name,
    {
        if requested_scopes.devices.len() == 0 {
            return Err(Error::Other("No device ID scope supplied"));
        }
        let device_id = requested_scopes.devices[0].clone();
        proof {
            assert(requested_scopes@.devices[0] == device_id@);
        }
        match users.create_device(
            authorizing_user.as_str(),
            device_id.as_str(),
            tokens.access_token.as_str(),
            Some(ACCESS_TOKEN_MAX_AGE),
            client_name,
            None,
            tokens.appservice,
            now,
        ) {
            Err(e) => {
                return Err(e);
            },
            Ok(_) => {},
        }
        let scope = requested_scopes.to_text();
        self.userdeviceid_oauthsessioninfo.insert(
            Key::pair(authorizing_user.as_str(), device_id.as_str()),
            SessionInfo {
                client_id: client_id.to_owned(),
                current_refresh_token: tokens.refresh_token.clone(),
                scopes: requested_scopes,
            },
        );
        self.refreshtoken_refreshtokeninfo.insert(
            Key::of(tokens.refresh_token.as_str()),
            RefreshTokenInfo {
                client_id: client_id.to_owned(),
                user_id: authorizing_user,
                device_id,
            },
        );
        Ok(
            TokenResponse {
                access_token: tokens.access_token,
                token_type: TokenType::Bearer,
                expires_in: ACCESS_TOKEN_MAX_AGE,
                refresh_token: tokens.refresh_token,
                scope,
            },
        )
    }

    /// Turns a refresh token in for new tokens.
    pub fn refresh_session(
        &mut self,
        users: &mut users::Service,
        client_id: &str,
        refresh_token: &str,
        tokens: NewTokens,
        now: u128,
    ) -> (r: Result<TokenResponse, Error>)
        requires
            old(self)@.refreshable(client_id@, refresh_token@),
        ensures
            final(users).server_name == old(users).server_name,
            if !old(self)@.refresh_tokens.contains_key(key1(refresh_token@)) {
                &&& r == Err::<TokenResponse, Error>(Error::Other("Invalid refresh token"))
                &&& final(self)@ == old(self)@
                &&& final(users)@ == old(users)@
            } else {
                let info = old(self)@.refresh_tokens[key1(refresh_token@)];
                let key = key2(info.user_id, info.device_id);
                if !old(users)@.devices.contains_key(key) {
                    &&& r == Err::<TokenResponse, Error>(
                        Error::BadDatabase("User does not exist or device has no metadata."),
                    )
                    &&& final(self)@ == old(self)@
                    &&& final(users)@ == old(users)@
                } else if tokens.appservice {
                    &&& r == Err::<TokenResponse, Error>(appservice_token())
                    &&& final(self)@ == old(self)@
                    &&& final(users)@ == old(users)@
                } else {
                    &&& r matches Ok(response) && answers(
                        response,
                        tokens.access_token@,
                        tokens.refresh_token@,
                        old(self)@.sessions[key].scopes,
                    )
                    &&& final(self)@ == old(self)@.with_refreshed(
                        refresh_token@,
                        tokens.refresh_token@,
                    )
                    &&& final(users)@ == old(users)@.with_token(
                        info.user_id,
                        info.device_id,
                        tokens.access_token@,
                        Some(ACCESS_TOKEN_MAX_AGE),
                        now,
                    )
                }
            },
    {
        let (user_id, device_id) = match self.refreshtoken_refreshtokeninfo.get(
            &Key::of(refresh_token),
        ) {
            None => {
                return Err(Error::Other("Invalid refresh token"));
            },
            Some(info) => (info.user_id.clone(), info.device_id.clone()),
        };
        let key = Key::pair(user_id.as_str(), device_id.as_str());
        let (scopes, scope) = match self.userdeviceid_oauthsessioninfo.get(&key) {
            None => {
                return Err(Error::Other("Invalid refresh token"));
            },
            Some(session) => (session.scopes.duplicate(), session.scopes.to_text()),
        };
        match users.set_token(
            user_id.as_str(),
            device_id.as_str(),
            tokens.access_token.as_str(),
            Some(ACCESS_TOKEN_MAX_AGE),
            tokens.appservice,
            now,
        ) {
            Err(e) => {
                return Err(e);
            },
            Ok(_) => {},
        }
        self.userdeviceid_oauthsessioninfo.insert(
            key,
            SessionInfo {
                client_id: client_id.to_owned(),
                scopes,
                current_refresh_token: tokens.refresh_token.clone(),
            },
        );
        self.refreshtoken_refreshtokeninfo.remove(&Key::of(refresh_token));
        self.refreshtoken_refreshtokeninfo.insert(
            Key::of(tokens.refresh_token.as_str()),
            RefreshTokenInfo { client_id: client_id.to_owned(), user_id, device_id },
        );
        Ok(
            TokenResponse {
                access_token: tokens.access_token,
                token_type: TokenType::Bearer,
                expires_in: ACCESS_TOKEN_MAX_AGE,
                refresh_token: tokens.refresh_token,
                scope,
            },
        )
    }

    /// Revokes an access or refresh token: removes the device that it belongs to.
    /// `encrypted_rooms` are the encrypted rooms of the user.
    pub fn revoke_token(
        &mut self,
        users: &mut users::Service,
        token: &str,
        encrypted_rooms: &Vec<String>,
        count: u64,
        now: u128,
    ) -> (r: Result<(), Error>)
        ensures
            final(users).server_name == old(users).server_name,
            old(self)@.refresh_tokens.contains_key(key1(token@)) ==> {
                let info = old(self)@.refresh_tokens[key1(token@)];
                &&& r is Ok
                &&& !final(self)@.sessions.contains_key(key2(info.user_id, info.device_id))
                &&& !final(users)@.devices.contains_key(key2(info.user_id, info.device_id))
            },
            match revoked(old(self)@, old(users)@, token@, now) {
                None => {
                    &&& r == Err::<(), Error>(Error::Other("Invalid token"))
                    &&& final(self)@ == old(self)@
                    &&& final(users)@ == old(users)@
                },
                Some(owner) => {
                    &&& r is Ok
                    &&& final(self)@ == old(self)@.without_session(owner.0, owner.1)
                    &&& final(users)@ == old(users)@.without_device(
                        owner.0,
                        owner.1,
                        encrypted_rooms@,
                        count,
                    )
                },
            },
    {
        let refresh = match self.refreshtoken_refreshtokeninfo.get(&Key::of(token)) {
            Some(info) => Some((info.user_id.clone(), info.device_id.clone())),
            None => None,
        };
        let owner = match refresh {
            Some(owner) => owner,
            None => match users.find_from_token(token, now) {
                Some(owner) => owner,
                None => {
                    return Err(Error::Other("Invalid token"));
                },
            },
        };
        users.remove_device(self, owner.0.as_str(), owner.1.as_str(), encrypted_rooms, count);
        Ok(())
    }

    /// Removes the session of a device, if it has one.
    pub fn remove_session(&mut self, user_id: &str, device_id: &str)
        ensures
            final(self)@ == old(self)@.without_session(user_id@, device_id@),
    {
        let key = Key::pair(user_id, device_id);
        if self.userdeviceid_oauthsessioninfo.contains(&key) {
            if let Some(session) = self.userdeviceid_oauthsessioninfo.take(&key) {
                self.refreshtoken_refreshtokeninfo.remove(
                    &Key::of(session.current_refresh_token.as_str()),
                );
            }
        }
    }

    /// Issue a ticket for `localpart` to perform some action.
    pub fn issue_ticket(&mut self, localpart: &str, ticket: OAuthTicket, now: u128)
        ensures
            final(self)@ == (ServiceView {
                tickets: old(self)@.tickets.insert(ticket_key(localpart@, ticket), now),
                ..old(self)@
            }),
    {
        self.tickets.insert(Key::pair(localpart, ticket.ticket_issue_path()), now);
    }

    /// Try to consume an unexpired ticket for `localpart`.
    pub fn try_consume_ticket(&mut self, localpart: &str, ticket: OAuthTicket, now: u128) -> (r: bool)
        ensures
            r == old(self)@.has_ticket(localpart@, ticket, now),
            final(self)@ == (ServiceView {
                tickets: old(self)@.tickets.remove(ticket_key(localpart@, ticket)),
                ..old(self)@
            }),
    {
        match self.tickets.take(&Key::pair(localpart, ticket.ticket_issue_path())) {
            Some(issued) => is_younger_than(now, issued, TICKET_MAX_AGE),
            None => false,
        }
    }
}

pub open spec fn ticket_key(localpart: Seq<char>, ticket: OAuthTicket) -> KeyView {
    key2(localpart, ticket.issue_path()@)
}

impl ServiceView {
    /// There is an unexpired ticket.
    pub open spec fn has_ticket(self, localpart: Seq<char>, ticket: OAuthTicket, now: u128) -> bool {
        self.tickets.contains_key(ticket_key(localpart, ticket)) && younger_than(
            now,
            self.tickets[ticket_key(localpart, ticket)],
            TICKET_MAX_AGE,
        )
    }
}

/// The user and the device that a token to be revoked belongs to.
pub open spec fn revoked(
    oauth: ServiceView,
    users: users::DataView,
    token: Seq<char>,
    now: u128,
) -> Option<(Seq<char>, Seq<char>)> {
    if oauth.refresh_tokens.contains_key(key1(token)) {
        let info = oauth.refresh_tokens[key1(token)];
        Some((info.user_id, info.device_id))
    } else {
        users.token_owner(token, now)
    }
}

pub open spec fn appservice_token() -> Error {
    Error::Request(
        ErrorKind::InvalidParam,
        "Token conflicts with an existing appservice token",
    )
}

/// A session has been made, or has not: no scope names a device, there is no such account,
/// or the access token is an appservice's.
pub open spec fn session_created(
    before: ServiceView,
    after: ServiceView,
    users_before: users::Service,
    users_after: users::Service,
    user_id: Seq<char>,
    scopes: ScopesView,
    client_name: Option<Seq<char>>,
    client_id: Seq<char>,
    tokens: NewTokens,
    now: u128,
    result: Result<TokenResponse, Error>,
) -> bool {
    if scopes.devices.len() == 0 {
        &&& result == Err::<TokenResponse, Error>(Error::Other("No device ID scope supplied"))
        &&& after == before
        &&& users_after@ == users_before@
    } else if !(users_before.is_local(user_id) && users_before@.has_account(user_id)) {
        &&& result matches Err(e) && e@ == no_such_user(user_id)
        &&& after == before
        &&& users_after@ == users_before@
    } else {
        let device_id = scopes.devices[0];
        let added = users_before@.with_device(user_id, device_id, client_name, None, now);
        if tokens.appservice {
            &&& result == Err::<TokenResponse, Error>(appservice_token())
            &&& after == before
            &&& users_after@ == added
        } else {
            &&& result matches Ok(response) && answers(
                response,
                tokens.access_token@,
                tokens.refresh_token@,
                scopes,
            )
            &&& after == before.with_session(
                user_id,
                device_id,
                SessionView {
                    client_id,
                    scopes,
                    current_refresh_token: tokens.refresh_token@,
                },
            )
            &&& users_after@ == added.with_token(
                user_id,
                device_id,
                tokens.access_token@,
                Some(ACCESS_TOKEN_MAX_AGE),
                now,
            )
        }
    }
}

/// An authorization code can be turned in once: afterwards it is unknown, and the others are
/// as they were.
pub proof fn law_code_works_once(before: ServiceView, code: Seq<char>, other: Seq<char>)
    ensures
        ({
            let used = ServiceView { pending: before.pending.remove(key1(code)), ..before };
            &&& !used.pending.contains_key(key1(code))
            &&& other != code ==> used.pending.contains_key(key1(other))
                == before.pending.contains_key(key1(other)) && used.pending[key1(other)]
                == before.pending[key1(other)]
        }),
{
    assert(key1(other).first == other && key1(code).first == code);
}

/// A grant is good for the client that it was made for, for less than a minute.
pub proof fn law_grant_is_short_lived(grant: GrantView, client_id: Seq<char>, now: u128)
    ensures
        grant.is_valid_for(client_id, now) <==> client_id == grant.expected_client_id
            && grant.requested_at <= now && now - grant.requested_at < 60000000000,
{
}

/// A client that was registered is found under its ID, and a client that has the ID already
/// stays as it was.
pub proof fn law_registered_client_is_found(
    before: ServiceView,
    after: ServiceView,
    id: Seq<char>,
    metadata: ClientMetadata,
    other: Seq<char>,
)
    requires
        after == if before.clients.contains_key(key1(id)) {
            before
        } else {
            ServiceView { clients: before.clients.insert(key1(id), metadata), ..before }
        },
    ensures
        after.clients.contains_key(key1(id)),
        after.clients[key1(id)] == if before.clients.contains_key(key1(id)) {
            before.clients[key1(id)]
        } else {
            metadata
        },
        other != id ==> after.clients.contains_key(key1(other)) == before.clients.contains_key(
            key1(other),
        ) && after.clients[key1(other)] == before.clients[key1(other)],
{
    assert(key1(other).first == other && key1(id).first == id);
}

/// A ticket that was issued can be consumed once, until it expires.
pub proof fn law_ticket_works_once(
    before: ServiceView,
    localpart: Seq<char>,
    ticket: OAuthTicket,
    issued: u128,
    now: u128,
)
    ensures
        ({
            let key = ticket_key(localpart, ticket);
            let with_ticket = ServiceView { tickets: before.tickets.insert(key, issued), ..before };
            let consumed = ServiceView { tickets: with_ticket.tickets.remove(key), ..with_ticket };
            &&& with_ticket.has_ticket(localpart, ticket, now) <==> issued <= now && now - issued
                < TICKET_MAX_AGE
            &&& !consumed.has_ticket(localpart, ticket, now)
        }),
{
}

/// A refresh token that was turned in is no longer good; the new one is, for the same
/// client and device, and the session keeps its scopes.
pub proof fn law_refreshed(
    before: ServiceView,
    client_id: Seq<char>,
    old_token: Seq<char>,
    new_token: Seq<char>,
)
    requires
        before.refresh_tokens.contains_key(key1(old_token)),
        before.refreshable(client_id, old_token),
    ensures
        ({
            let after = before.with_refreshed(old_token, new_token);
            let info = before.refresh_tokens[key1(old_token)];
            let key = key2(info.user_id, info.device_id);
            &&& old_token != new_token ==> !after.refresh_tokens.contains_key(key1(old_token))
            &&& after.refresh_tokens.contains_key(key1(new_token))
            &&& after.refreshable(client_id, new_token)
            &&& after.sessions[key].scopes == before.sessions[key].scopes
            &&& after.sessions[key].current_refresh_token == new_token
        }),
{
    assert(key1(old_token).first == old_token && key1(new_token).first == new_token);
}

/// Removing a session removes its refresh token; a session that was just made is gone
/// again, with both its rows.
pub proof fn law_session_removed(
    before: ServiceView,
    user_id: Seq<char>,
    device_id: Seq<char>,
    session: SessionView,
)
    ensures
        ({
            let after = before.with_session(user_id, device_id, session).without_session(
                user_id,
                device_id,
            );
            &&& !after.sessions.contains_key(key2(user_id, device_id))
            &&& !after.refresh_tokens.contains_key(key1(session.current_refresh_token))
        }),
{
}

/// A token is revoked for the device that it belongs to: as a refresh token that is held, for
/// the device that it names, and otherwise as an access token, for the device that it was given
/// to, while it is valid. No other token is revoked.
pub proof fn law_revocation_finds_the_device(
    oauth: ServiceView,
    users: users::DataView,
    token: Seq<char>,
    now: u128,
)
    ensures
        ({
            let found = revoked(oauth, users, token, now);
            let refreshes = oauth.refresh_tokens.contains_key(key1(token));
            let info = oauth.refresh_tokens[key1(token)];
            let accesses = users.tokens.contains_key(key1(token));
            let owner = users.tokens[key1(token)];
            let key = key2(owner.0, owner.1);
            let expired = users.token_expiries.contains_key(key) && now > users.token_expiries[key]
                * 1000000000;
            &&& refreshes ==> found == Some((info.user_id, info.device_id))
            &&& !refreshes && accesses && !expired ==> found == Some(owner)
            &&& found is None <==> !refreshes && (!accesses || expired)
        }),
{
}

/// After a refresh token has been revoked, the session and the device that it names are gone,
/// and so is the refresh token, if it was the session's own. The device's access token is of no
/// use any more. Other devices of the user, and other users, keep theirs.
pub proof fn law_revoked_refresh_token_is_gone(
    oauth: ServiceView,
    users: users::DataView,
    token: Seq<char>,
    rooms: Seq<String>,
    count: u64,
    now: u128,
    other: KeyView,
)
    requires
        oauth.refresh_tokens.contains_key(key1(token)),
    ensures
        ({
            let info = oauth.refresh_tokens[key1(token)];
            let key = key2(info.user_id, info.device_id);
            let owner = revoked(oauth, users, token, now)->Some_0;
            let after = oauth.without_session(owner.0, owner.1);
            let users_after = users.without_device(owner.0, owner.1, rooms, count);
            &&& !after.sessions.contains_key(key)
            &&& !users_after.devices.contains_key(key)
            &&& !users_after.device_tokens.contains_key(key)
            &&& users.device_tokens.contains_key(key) ==> !users_after.tokens.contains_key(
                key1(users.device_tokens[key]),
            )
            &&& oauth.sessions.contains_key(key) && oauth.sessions[key].current_refresh_token
                == token ==> !after.refresh_tokens.contains_key(key1(token)) && revoked(
                after,
                users_after,
                token,
                now,
            ) == users_after.token_owner(token, now)
            &&& other != key ==> {
                &&& after.sessions.contains_key(other) == oauth.sessions.contains_key(other)
                &&& oauth.sessions.contains_key(other) ==> after.sessions[other]
                    == oauth.sessions[other]
                &&& users_after.devices.contains_key(other) == users.devices.contains_key(other)
                &&& users.devices.contains_key(other) ==> users_after.devices[other]
                    == users.devices[other]
            }
            &&& after.clients == oauth.clients
            &&& after.tickets == oauth.tickets
            &&& after.pending == oauth.pending
        }),
{
}

/// A session is made for the first device among the scopes, if there is one, the user has an
/// account here and the token is no appservice's. The answer then hands out the tokens that were
/// made, valid for an hour; the session and its refresh token are kept for the client and the
/// device; and the access token stands for the device until it expires.
pub proof fn law_created_session(
    before: ServiceView,
    after: ServiceView,
    users_before: users::Service,
    users_after: users::Service,
    user_id: Seq<char>,
    scopes: ScopesView,
    client_name: Option<Seq<char>>,
    client_id: Seq<char>,
    tokens: NewTokens,
    now: u128,
    later: u128,
    result: Result<TokenResponse, Error>,
)
    requires
        session_created(
            before,
            after,
            users_before,
            users_after,
            user_id,
            scopes,
            client_name,
            client_id,
            tokens,
            now,
            result,
        ),
    ensures
        result is Ok <==> scopes.devices.len() > 0 && users_before.is_local(user_id)
            && users_before@.passwords.contains_key(key1(user_id)) && !tokens.appservice,
        scopes.devices.len() == 0 ==> result == Err::<TokenResponse, Error>(
            Error::Other("No device ID scope supplied"),
        ),
        result is Err ==> after == before,
        result matches Ok(response) ==> {
            let key = key2(user_id, scopes.devices[0]);
            let device = users_after@.devices[key];
            &&& response.access_token@ == tokens.access_token@
            &&& response.refresh_token@ == tokens.refresh_token@
            &&& response.token_type == TokenType::Bearer
            &&& response.expires_in == 3600
            &&& response.scope@ == scope_text(scopes)
            &&& after.sessions.contains_key(key)
            &&& after.sessions[key].client_id == client_id
            &&& after.sessions[key].scopes == scopes
            &&& after.sessions[key].current_refresh_token == tokens.refresh_token@
            &&& after.refresh_tokens.contains_key(key1(tokens.refresh_token@))
            &&& after.refresh_tokens[key1(tokens.refresh_token@)] == (RefreshView {
                client_id,
                user_id,
                device_id: scopes.devices[0],
            })
            &&& users_after@.devices.contains_key(key)
            &&& device.device_id == scopes.devices[0]
            &&& device.display_name == client_name
            &&& device.last_seen_ip is None
            &&& users_after@.tokens.contains_key(key1(tokens.access_token@))
            &&& users_after@.tokens[key1(tokens.access_token@)] == (user_id, scopes.devices[0])
            &&& users_after@.token_expiries.contains_key(key)
            &&& now / 1000000000 + 3600 <= u64::MAX ==> users_after@.token_expiries[key] == now
                / 1000000000 + 3600
        },
{
}

/// A session that is made leaves every other session, refresh token, client, ticket and code
/// alone.
pub proof fn law_new_session_leaves_others(
    before: ServiceView,
    user_id: Seq<char>,
    device_id: Seq<char>,
    session: SessionView,
    other: KeyView,
)
    ensures
        ({
            let after = before.with_session(user_id, device_id, session);
            &&& other != key2(user_id, device_id) ==> after.sessions.contains_key(other)
                == before.sessions.contains_key(other) && after.sessions[other]
                == before.sessions[other]
            &&& other != key1(session.current_refresh_token) ==> after.refresh_tokens.contains_key(
                other,
            ) == before.refresh_tokens.contains_key(other) && after.refresh_tokens[other]
                == before.refresh_tokens[other]
            &&& after.clients == before.clients
            &&& after.tickets == before.tickets
            &&& after.pending == before.pending
        }),
{
}

/// Refreshing hands the session on to the new token, for the same client, user and device, and
/// leaves every other session and token alone.
pub proof fn law_refreshing_hands_the_session_on(
    before: ServiceView,
    old_token: Seq<char>,
    new_token: Seq<char>,
    other: KeyView,
)
    requires
        before.refresh_tokens.contains_key(key1(old_token)),
    ensures
        ({
            let after = before.with_refreshed(old_token, new_token);
            let info = before.refresh_tokens[key1(old_token)];
            let key = key2(info.user_id, info.device_id);
            &&& after.refresh_tokens.contains_key(key1(new_token))
            &&& after.refresh_tokens[key1(new_token)] == info
            &&& after.sessions.contains_key(key)
            &&& after.sessions[key].client_id == before.sessions[key].client_id
            &&& after.sessions[key].scopes == before.sessions[key].scopes
            &&& after.sessions[key].current_refresh_token == new_token
            &&& old_token != new_token ==> !after.refresh_tokens.contains_key(key1(old_token))
            &&& other != key1(old_token) && other != key1(new_token)
                ==> after.refresh_tokens.contains_key(other) == before.refresh_tokens.contains_key(
                other,
            ) && after.refresh_tokens[other] == before.refresh_tokens[other]
            &&& other != key ==> after.sessions.contains_key(other) == before.sessions.contains_key(
                other,
            ) && after.sessions[other] == before.sessions[other]
            &&& after.clients == before.clients
            &&& after.tickets == before.tickets
            &&& after.pending == before.pending
        }),
{
    assert(key1(old_token).first == old_token && key1(new_token).first == new_token);
}

/// A token can be refreshed by the client that it was given to, in whose session it stands.
pub proof fn law_tokens_are_refreshed_by_their_client(
    oauth: ServiceView,
    client_id: Seq<char>,
    refresh_token: Seq<char>,
)
    requires
        oauth.refresh_tokens.contains_key(key1(refresh_token)),
    ensures
        ({
            let info = oauth.refresh_tokens[key1(refresh_token)];
            let key = key2(info.user_id, info.device_id);
            oauth.refreshable(client_id, refresh_token) <==> info.client_id == client_id
                && oauth.sessions.contains_key(key) && oauth.sessions[key].client_id == client_id
        }),
{
}

/// A code is granted if the client is known, may ask for such a response, may be redirected to
/// the URI and asks for scopes that can be read. The URI is taken without its port if the client
/// is native and the URI leads to its own machine. What is wrong otherwise is said, in this
/// order.
pub proof fn law_code_requests(clients: Map<KeyView, ClientMetadata>, query: AuthorizationCodeQuery)
    ensures
        ({
            let wrong = code_request_wrong(clients, query);
            let key = key1(query.client_id@);
            let metadata = clients[key];
            let uri = query.redirect_uri@;
            let own_machine = metadata.application_type is Native && (uri.host matches Some(host)
                && is_localhost(host));
            let place = if own_machine {
                port_removed(uri)
            } else {
                uri
            };
            let answerable = metadata.response_types@.contains(query.response_type);
            let scopes = scopes_of(split(query.scope.0@, ' '));
            &&& wrong is None <==> clients.contains_key(key) && answerable && may_redirect(
                metadata,
                place,
            ) && scopes is Ok
            &&& !clients.contains_key(key) ==> wrong == Some("Invalid client ID"@)
            &&& clients.contains_key(key) && !answerable ==> wrong == Some("Invalid response type"@)
            &&& clients.contains_key(key) && answerable && !may_redirect(metadata, place) ==> wrong
                == Some("Invalid redirect URI"@)
            &&& clients.contains_key(key) && answerable && may_redirect(metadata, place) ==> (
            scopes matches Err(message) ==> wrong == Some(message))
        }),
{
}

/// A code that is granted waits, from now on, for the client that asked, with the user who
/// grants it and the scopes, redirect URI and challenge that were asked for. Nothing else
/// changes. The client hears of it behind its redirect URI, in the fragment or the query.
pub proof fn law_granted_code(
    before: ServiceView,
    authorizing_user: Seq<char>,
    query: AuthorizationCodeQuery,
    code: Seq<char>,
    now: u128,
    other: KeyView,
)
    requires
        code_request_wrong(before.clients, query) is None,
    ensures
        ({
            let after = before.with_grant(authorizing_user, query, code, now);
            let grant = after.pending[key1(code)];
            &&& after.pending.contains_key(key1(code))
            &&& grant.authorizing_user == authorizing_user
            &&& scopes_of(split(query.scope.0@, ' ')) matches Ok(scopes) && grant.requested_scopes
                == scopes
            &&& grant.client_name == match before.clients[key1(query.client_id@)].client_name {
                Some(name) => Some(name@),
                None => None,
            }
            &&& grant.expected_client_id == query.client_id@
            &&& grant.expected_redirect_uri == query.redirect_uri@
            &&& grant.code_challenge == query.code_challenge@
            &&& grant.requested_at == now
            &&& other != key1(code) ==> after.pending.contains_key(other)
                == before.pending.contains_key(other) && after.pending[other]
                == before.pending[other]
            &&& after.clients == before.clients
            &&& after.sessions == before.sessions
            &&& after.refresh_tokens == before.refresh_tokens
            &&& after.tickets == before.tickets
            &&& granted_uri(query, code) == query.redirect_uri@.text + (if query.response_mode
                is Fragment {
                "#"@
            } else {
                "?"@
            }) + form_encoded(seq![("state"@, query.state@), ("code"@, code)])
        }),
{
}

/// A ticket is good for ten minutes, for the user and the purpose that it was issued for, and
/// leaves other tickets alone.
pub proof fn law_ticket_is_short_lived(
    before: ServiceView,
    localpart: Seq<char>,
    other: Seq<char>,
    issued: u128,
    now: u128,
)
    ensures
        ({
            let ticket = OAuthTicket::CrossSigningReset;
            let after = ServiceView {
                tickets: before.tickets.insert(ticket_key(localpart, ticket), issued),
                ..before
            };
            &&& ticket_key(localpart, ticket) == key2(localpart, "/account/cross_signing_reset"@)
            &&& after.has_ticket(localpart, ticket, now) <==> issued <= now && now - issued
                < 600000000000
            &&& other != localpart ==> after.has_ticket(other, ticket, now) == before.has_ticket(
                other,
                ticket,
                now,
            )
        }),
{
    assert(ticket_key(other, OAuthTicket::CrossSigningReset).first == other);
}

/// What is said where no session is made: that the user does not exist, or that the token is an
/// appservice's.
pub proof fn law_refused_sessions(
    before: ServiceView,
    after: ServiceView,
    users_before: users::Service,
    users_after: users::Service,
    user_id: Seq<char>,
    scopes: ScopesView,
    client_name: Option<Seq<char>>,
    client_id: Seq<char>,
    tokens: NewTokens,
    now: u128,
    result: Result<TokenResponse, Error>,
)
    requires
        session_created(
            before,
            after,
            users_before,
            users_after,
            user_id,
            scopes,
            client_name,
            client_id,
            tokens,
            now,
            result,
        ),
        scopes.devices.len() > 0,
    ensures
        ({
            let exists_here = users_before.is_local(user_id)
                && users_before@.passwords.contains_key(key1(user_id));
            &&& !exists_here ==> (result matches Err(e) && e@ == no_such_user(user_id))
                && users_after@ == users_before@
            &&& exists_here && tokens.appservice ==> result == Err::<TokenResponse, Error>(
                Error::Request(
                    ErrorKind::InvalidParam,
                    "Token conflicts with an existing appservice token",
                ),
            )
        }),
{
}

/// What is told of a session is what it holds.
pub proof fn law_told_of_session_info(it: SessionInfo)
    ensures
        it@.client_id == it.client_id@,
        it@.scopes == it.scopes@,
        it@.current_refresh_token == it.current_refresh_token@,
{
}

/// What is told of a refresh token is whom it was given to.
pub proof fn law_told_of_refresh_token_info(it: RefreshTokenInfo)
    ensures
        it@.client_id == it.client_id@,
        it@.user_id == it.user_id@,
        it@.device_id == it.device_id@,
{
}

/// What is told of a pending grant is what was asked for.
pub proof fn law_told_of_pending_code_grant(it: PendingCodeGrant)
    ensures
        it@.authorizing_user == it.authorizing_user@,
        it@.requested_scopes == it.requested_scopes@,
        it@.client_name == users::maybe(it.client_name),
        it@.expected_client_id == it.expected_client_id@,
        it@.expected_redirect_uri == it.expected_redirect_uri@,
        it@.code_challenge == it.code_challenge@,
        it@.requested_at == it.requested_at,
{
}

} // verus!
