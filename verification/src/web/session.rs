//! Who is logged in, and where people go after they have logged in.

use crate::oauth::grant::AuthorizationCodeQuery;
use crate::oauth::{encode_form, form_encoded, pair_views};
use crate::text::glue;
use crate::time::{is_younger_than, younger_than};
use crate::users;
use crate::users::account::suspended;
use crate::web::{WebError, ROUTE_PREFIX};
use vstd::prelude::*;

verus! {

/// A login is recent for ten minutes, in nanoseconds.
pub const RECENT_LOGIN_THRESHOLD: u128 = 600_000_000_000;

/// Where people go after they have logged in.
#[derive(Debug)]
pub enum LoginTarget {
    Account,
    ChangePassword,
    ChangeEmail,
    CrossSigningReset,
    Deactivate,
    RemoveDevice { device: String },
    AuthorizationCode(AuthorizationCodeQuery),
}

impl Default for LoginTarget {
    fn default() -> (r: LoginTarget)
        ensures
            r == LoginTarget::Account,
    {
        LoginTarget::Account
    }
}

impl LoginTarget {
    /// The path below that of the server's pages.
    pub open spec fn path(self) -> Seq<char> {
        match self {
            LoginTarget::Account => "account/"@,
            LoginTarget::ChangePassword => "account/password/change"@,
            LoginTarget::ChangeEmail => "account/email/change/"@,
            LoginTarget::CrossSigningReset => "account/cross_signing_reset"@,
            LoginTarget::Deactivate => "account/deactivate"@,
            LoginTarget::RemoveDevice { device } => "account/device/"@ + device@ + "/remove"@,
            LoginTarget::AuthorizationCode(query) => "oauth2/grant/authorization_code?"@
                + form_encoded(query.pairs()),
        }
    }

    /// The name in a query.
    pub open spec fn name(self) -> &'static str {
        match self {
            LoginTarget::Account => "account",
            LoginTarget::ChangePassword => "change_password",
            LoginTarget::ChangeEmail => "change_email",
            LoginTarget::CrossSigningReset => "cross_signing_reset",
            LoginTarget::Deactivate => "deactivate",
            LoginTarget::RemoveDevice { .. } => "remove_device",
            LoginTarget::AuthorizationCode(_) => "authorization_code",
        }
    }

    /// What a query says of the target besides its name.
    pub open spec fn fields(self) -> Seq<(Seq<char>, Seq<char>)> {
        match self {
            LoginTarget::RemoveDevice { device } => seq![("device"@, device@)],
            LoginTarget::AuthorizationCode(query) => query.pairs(),
            _ => Seq::empty(),
        }
    }

    pub fn target_path(&self) -> (r: String)
        ensures
            r@ == ROUTE_PREFIX@ + "/"@ + self.path(),
    {
        let path = match self {
            LoginTarget::Account => "account/".to_owned(),
            LoginTarget::ChangePassword => "account/password/change".to_owned(),
            LoginTarget::ChangeEmail => "account/email/change/".to_owned(),
            LoginTarget::CrossSigningReset => "account/cross_signing_reset".to_owned(),
            LoginTarget::Deactivate => "account/deactivate".to_owned(),
            LoginTarget::RemoveDevice { device } => {
                let own = glue("account/device/", device.as_str());
                glue(own.as_str(), "/remove")
            },
            LoginTarget::AuthorizationCode(query) => glue(
                "oauth2/grant/authorization_code?",
                encode_form(&query.to_pairs()).as_str(),
            ),
        };
        let start = glue(ROUTE_PREFIX, "/");
        glue(start.as_str(), path.as_str())
    }

    /// The name in a query.
    pub fn query_name(&self) -> (r: &'static str)
        ensures
            r == self.name(),
    {
        match self {
            LoginTarget::Account => "account",
            LoginTarget::ChangePassword => "change_password",
            LoginTarget::ChangeEmail => "change_email",
            LoginTarget::CrossSigningReset => "cross_signing_reset",
            LoginTarget::Deactivate => "deactivate",
            LoginTarget::RemoveDevice { .. } => "remove_device",
            LoginTarget::AuthorizationCode(_) => "authorization_code",
        }
    }
}

/// The query of the login page.
#[derive(Debug)]
pub struct LoginQuery {
    pub next: LoginTarget,
    /// The user is logged in and has to show again who they are.
    pub reauthenticate: bool,
}

impl LoginQuery {
    /// The named values of the query.
    pub open spec fn pairs(self) -> Seq<(Seq<char>, Seq<char>)> {
        let next = seq![("next"@, self.next.name()@)] + self.next.fields();
        if self.reauthenticate {
            next.push(("reauthenticate"@, "true"@))
        } else {
            next
        }
    }

    /// The login page with the query.
    pub open spec fn location(self) -> Seq<char> {
        ROUTE_PREFIX@ + "/account/login?"@ + form_encoded(self.pairs())
    }

    /// The query as it stands in an address.
    pub fn encoded(&self) -> (r: String)
        ensures
            r@ == form_encoded(self.pairs()),
    {
        let mut pairs: Vec<(String, String)> = Vec::new();
        pairs.push(("next".to_owned(), self.next.query_name().to_owned()));
        let mut fields = match &self.next {
            LoginTarget::RemoveDevice { device } => {
                let mut fields: Vec<(String, String)> = Vec::new();
                fields.push(("device".to_owned(), device.clone()));
                fields
            },
            LoginTarget::AuthorizationCode(query) => query.to_pairs(),
            _ => Vec::new(),
        };
        proof {
            assert(pair_views(fields@) =~= self.next.fields());
        }
        let ghost own = fields@;
        pairs.append(&mut fields);
        proof {
            assert(pair_views(pairs@) =~= seq![("next"@, self.next.name()@)] + pair_views(own));
        }
        if self.reauthenticate {
            pairs.push(("reauthenticate".to_owned(), "true".to_owned()));
        }
        proof {
            assert(pair_views(pairs@) =~= self.pairs());
        }
        encode_form(&pairs)
    }

    /// The login page with the query.
    pub fn login_location(&self) -> (r: String)
        ensures
            r@ == self.location(),
    {
        let page = glue(ROUTE_PREFIX, "/account/login?");
        glue(page.as_str(), self.encoded().as_str())
    }
}

/// Who is logged in, and since when.
#[derive(Debug)]
pub struct UserSession {
    pub user_id: String,
    /// In nanoseconds since the Unix epoch.
    pub last_login: u128,
}

impl UserSession {
    /// Whether the user has logged in a short while ago. A login later than now is not
    /// recent: the clock has drifted.
    pub fn is_recent(&self, now: u128) -> (r: bool)
        ensures
            r == younger_than(now, self.last_login, RECENT_LOGIN_THRESHOLD),
    {
        is_younger_than(now, self.last_login, RECENT_LOGIN_THRESHOLD)
    }
}

/// The user who asks for a page, if they are logged in.
#[derive(Debug)]
pub struct User(pub Option<UserSession>);

impl User {
    /// The user's session information.
    pub fn into_session(self) -> (r: Option<UserSession>)
        ensures
            r == self.0,
    {
        self.0
    }

    /// Extract the user ID, redirecting to the login page if the user isn't logged in.
    pub fn expect(self, or_else: LoginTarget) -> (r: Result<String, WebError>)
        ensures
            r == match self.0 {
                Some(session) => Ok::<String, WebError>(session.user_id),
                None => Err(
                    WebError::LoginRequired(
                        (LoginQuery { next: or_else, reauthenticate: false }),
                    ),
                ),
            },
    {
        match self.0 {
            Some(session) => Ok(session.user_id),
            None => Err(
                WebError::LoginRequired(LoginQuery { next: or_else, reauthenticate: false }),
            ),
        }
    }

    /// Extract the user ID, redirecting to the login page if the user isn't logged in or if
    /// they haven't logged in recently.
    pub fn expect_recent(self, or_else: LoginTarget, now: u128) -> (r: Result<String, WebError>)
        ensures
            r == match self.0 {
                Some(session) => if younger_than(
                    now,
                    session.last_login,
                    RECENT_LOGIN_THRESHOLD,
                ) {
                    Ok::<String, WebError>(session.user_id)
                } else {
                    Err(
                        WebError::LoginRequired(
                            (LoginQuery { next: or_else, reauthenticate: true }),
                        ),
                    )
                },
                None => Err(
                    WebError::LoginRequired(
                        (LoginQuery { next: or_else, reauthenticate: false }),
                    ),
                ),
            },
    {
        match self.0 {
            Some(session) => {
                if session.is_recent(now) {
                    Ok(session.user_id)
                } else {
                    Err(
                        WebError::LoginRequired(
                            LoginQuery { next: or_else, reauthenticate: true },
                        ),
                    )
                }
            },
            None => Err(
                WebError::LoginRequired(LoginQuery { next: or_else, reauthenticate: false }),
            ),
        }
    }
}

/// Checks that the account may be used. Whether it is locked has to be known.
pub fn require_active(users: &users::Service, user_id: &str) -> (r: Result<(), WebError>)
    requires
        suspended(users@.locks, user_id@) is Ok,
    ensures
        match r {
            Ok(_) => users@.is_active(user_id@) && suspended(users@.locks, user_id@) == Ok::<
                bool,
                crate::error::Error,
            >(false),
            Err(WebError::Forbidden(text)) => if !users@.is_active(user_id@) {
                text@ == "Your account is deactivated."@
            } else {
                text@ == "Your account is locked."@ && suspended(users@.locks, user_id@) == Ok::<
                    bool,
                    crate::error::Error,
                >(true)
            },
            Err(_) => false,
        },
{
    if !users.is_active(user_id) {
        return Err(WebError::Forbidden("Your account is deactivated.".to_owned()));
    }
    match users.is_locked(user_id) {
        Ok(locked) => {
            if locked {
                return Err(WebError::Forbidden("Your account is locked.".to_owned()));
            }
        },
        Err(_) => {},
    }
    Ok(())
}

/// A page that asks for a recent login is never shown ten minutes after one.
pub proof fn law_recent_login_expires(session: UserSession, now: u128)
    requires
        now >= session.last_login + RECENT_LOGIN_THRESHOLD,
    ensures
        !younger_than(now, session.last_login, RECENT_LOGIN_THRESHOLD),
{
}

/// Where each login leads, and under which name: each target has its own.
pub proof fn law_login_targets(target: LoginTarget)
    ensures
        target is Account ==> target.path() == "account/"@ && target.name() == "account",
        target is ChangePassword ==> target.path() == "account/password/change"@ && target.name()
            == "change_password",
        target is ChangeEmail ==> target.path() == "account/email/change/"@ && target.name()
            == "change_email",
        target is CrossSigningReset ==> target.path() == "account/cross_signing_reset"@
            && target.name() == "cross_signing_reset",
        target is Deactivate ==> target.path() == "account/deactivate"@ && target.name()
            == "deactivate",
        target matches LoginTarget::RemoveDevice { device } ==> target.path() == "account/device/"@
            + device@ + "/remove"@ && target.name() == "remove_device" && target.fields()
            == seq![("device"@, device@)],
        target matches LoginTarget::AuthorizationCode(query) ==> target.path()
            == "oauth2/grant/authorization_code?"@ + form_encoded(query.pairs()) && target.name()
            == "authorization_code" && target.fields() == query.pairs(),
        !(target is RemoveDevice || target is AuthorizationCode) ==> target.fields().len() == 0,
{
}

/// A query for a login names its target first, then what belongs to the target, and at last that
/// the user has to prove themselves again, if so.
pub proof fn law_login_queries(query: LoginQuery)
    ensures
        query.pairs().len() == 1 + query.next.fields().len() + (if query.reauthenticate {
            1int
        } else {
            0
        }),
        query.pairs()[0] == ("next"@, query.next.name()@),
        query.reauthenticate ==> query.pairs().last() == ("reauthenticate"@, "true"@),
        forall|i: int|
            0 <= i < query.next.fields().len() ==> #[trigger] query.next.fields()[i]
                == query.pairs()[i + 1],
        query.location() == "/_continuwuity"@ + "/account/login?"@ + form_encoded(query.pairs()),
{
}

/// A login is recent for ten minutes.
pub proof fn law_recent_login(session: UserSession, now: u128)
    ensures
        younger_than(now, session.last_login, RECENT_LOGIN_THRESHOLD) <==> session.last_login <= now
            && now - session.last_login < 600000000000,
{
}

} // verus!
