//! The page on which a user lets an application use their account.

use crate::oauth;
use crate::oauth::client_metadata::ClientMetadata;
use crate::oauth::grant::{scopes_of, AuthorizationCodeQuery, Scopes, ScopesView};
use crate::oauth::form_encoded;
use crate::store::key1;
use crate::text::split;
use crate::uri::Uri;
use crate::users::maybe;
use crate::web::pages::components::{client_avatar, Avatar, AvatarView};
use crate::web::session::{LoginQuery, LoginTarget, User};
use crate::web::WebError;
use vstd::prelude::*;

verus! {

/// What the page says about the user and the application.
pub struct Grant {
    /// The query of the page on which the user logs out, to log in as somebody else.
    pub logout_query: String,
    pub user_id: String,
    pub user_avatar: Avatar,
    pub client_uri: String,
    pub client_name: String,
    pub client_avatar: Avatar,
    pub policy_uri: Option<String>,
    pub tos_uri: Option<String>,
    pub scopes: Scopes,
}

/// The text of a URI that may be there.
pub open spec fn uri_text(uri: Option<Uri>) -> Option<Seq<char>> {
    match uri {
        Some(uri) => Some(uri@.text),
        None => None,
    }
}

fn text_of(uri: &Option<Uri>) -> (r: Option<String>)
    ensures
        maybe(r) == uri_text(*uri),
{
    match uri {
        Some(uri) => Some(uri.as_str().to_owned()),
        None => None,
    }
}

/// The page tells of the application what it says of itself, and for what it asks.
pub open spec fn shows(page: Grant, client: ClientMetadata, scopes: ScopesView) -> bool {
    &&& page.client_uri@ == client.client_uri@.text
    &&& page.client_name@ == client_name(client)
    &&& page.client_avatar@ == client_avatar(client)
    &&& maybe(page.policy_uri) == uri_text(client.policy_uri)
    &&& maybe(page.tos_uri) == uri_text(client.tos_uri)
    &&& page.scopes@ == scopes
}

/// The name of the application.
pub open spec fn client_name(client: ClientMetadata) -> Seq<char> {
    match client.client_name {
        Some(name) => name@,
        None => "Unknown application"@,
    }
}

/// What the page does.
pub enum GrantStep {
    /// The user is asked.
    Page(Grant),
    /// The user has agreed and is sent to this address.
    Redirect(String),
}

/// The query with which a user who logs out comes back to the page.
pub open spec fn logout_query(query: AuthorizationCodeQuery) -> Seq<char> {
    form_encoded(
        (LoginQuery {
            next: LoginTarget::AuthorizationCode(query),
            reauthenticate: false,
        }).pairs(),
    )
}

/// The page, for a user who is logged in. Before they have agreed it tells about the
/// application and asks; then they are sent to the application with the code. `user_avatar`
/// is the picture of the user.
pub fn route_authorization_code(
    oauth: &mut oauth::Service,
    user: User,
    query: AuthorizationCodeQuery,
    submitted: bool,
    code: String,
    user_avatar: Avatar,
    now: u128,
) -> (r: Result<GrantStep, WebError>)
    requires
        user.0 is Some && submitted ==> oauth::port_can_go(old(oauth)@.clients, query),
    ensures
        match user.0 {
            None => {
                &&& r == Err::<GrantStep, WebError>(
                    WebError::LoginRequired(
                        (LoginQuery {
                            next: LoginTarget::AuthorizationCode(query),
                            reauthenticate: false,
                        }),
                    ),
                )
                &&& final(oauth)@ == old(oauth)@
            },
            Some(session) => if submitted {
                match oauth::code_request_wrong(old(oauth)@.clients, query) {
                    Some(message) => {
                        &&& r matches Err(WebError::BadRequest(text)) && text@ == message
                        &&& final(oauth)@ == old(oauth)@
                    },
                    None => {
                        &&& r matches Ok(GrantStep::Redirect(uri)) && uri@ == oauth::granted_uri(
                            query,
                            code@,
                        )
                        &&& final(oauth)@ == old(oauth)@.with_grant(
                            session.user_id@,
                            query,
                            code@,
                            now,
                        )
                    },
                }
            } else {
                &&& final(oauth)@ == old(oauth)@
                &&& if !old(oauth)@.clients.contains_key(key1(query.client_id@)) {
                    r matches Err(WebError::BadRequest(text)) && text@ == "Invalid client ID"@
                } else {
                    match scopes_of(split(query.scope.0@, ' ')) {
                        Err(message) => r matches Err(WebError::BadRequest(text)) && text@
                            == message,
                        Ok(scopes) => {
                            &&& r matches Ok(GrantStep::Page(page))
                            &&& shows(
                                page,
                                old(oauth)@.clients[key1(query.client_id@)],
                                scopes,
                            )
                            &&& page.logout_query@ == logout_query(query)
                            &&& page.user_id == session.user_id
                            &&& page.user_avatar == user_avatar
                        },
                    }
                }
            },
        },
{
    let user_id = match user.expect(LoginTarget::AuthorizationCode(query.duplicate())) {
        Ok(user_id) => user_id,
        Err(error) => {
            return Err(error);
        },
    };
    if submitted {
        return match oauth.request_authorization_code(user_id, query, code, now) {
            Ok(uri) => Ok(GrantStep::Redirect(uri)),
            Err(message) => Err(WebError::BadRequest(message)),
        };
    }
    let client = match oauth.get_client_metadata(query.client_id.as_str()) {
        None => {
            return Err(WebError::BadRequest("Invalid client ID".to_owned()));
        },
        Some(client) => client,
    };
    let scopes = match query.scope.to_scopes() {
        Err(message) => {
            return Err(WebError::BadRequest(message));
        },
        Ok(scopes) => scopes,
    };
    let name = match &client.client_name {
        Some(name) => name.clone(),
        None => "Unknown application".to_owned(),
    };
    let back = LoginQuery {
        next: LoginTarget::AuthorizationCode(query),
        reauthenticate: false,
    };
    Ok(
        GrantStep::Page(
            Grant {
                logout_query: back.encoded(),
                user_id,
                user_avatar,
                client_uri: client.client_uri.as_str().to_owned(),
                client_name: name,
                client_avatar: Avatar::for_client(client),
                policy_uri: text_of(&client.policy_uri),
                tos_uri: text_of(&client.tos_uri),
                scopes,
            },
        ),
    )
}

/// The page on which a grant is asked for shows the client as it registered, under a stand-in
/// where it gave no name, and just the scopes that it asks for.
pub proof fn law_grant_page(page: Grant, client: ClientMetadata, scopes: ScopesView)
    requires
        shows(page, client, scopes),
    ensures
        page.client_uri@ == client.client_uri@.text,
        client.client_name matches Some(name) ==> page.client_name@ == name@,
        client.client_name is None ==> page.client_name@ == "Unknown application"@,
        client.policy_uri is None <==> page.policy_uri is None,
        client.policy_uri matches Some(uri) ==> (page.policy_uri matches Some(text) && text@
            == uri@.text),
        client.tos_uri is None <==> page.tos_uri is None,
        client.tos_uri matches Some(uri) ==> (page.tos_uri matches Some(text) && text@ == uri@.text),
        client.logo_uri matches Some(uri) ==> page.client_avatar@ == AvatarView::Image(uri@.text),
        page.scopes@ == scopes,
{
}

/// Who logs out comes back to the same request after the next login.
pub proof fn law_logout_comes_back(query: AuthorizationCodeQuery)
    ensures
        logout_query(query) == form_encoded(
            seq![("next"@, "authorization_code"@)] + query.pairs(),
        ),
{
}

} // verus!
