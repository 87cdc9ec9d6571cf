//! The login page.

use crate::error::Error;
use crate::matrix::{is_email, parses_as_email};
use crate::text::glue;
use crate::web::session::{LoginTarget, User};
use crate::web::ROUTE_PREFIX;
use vstd::prelude::*;

verus! {

/// How the user is to be recognised.
pub enum LoginMethod {
    /// The user is logged in, and their password has to be checked.
    CheckPassword(String),
    /// The user gave an email address.
    Email(String),
    /// The user gave a user ID or localpart.
    Matrix(String),
}

/// What the login page does next.
pub enum LoginStep {
    /// The user goes on.
    Redirect(String),
    /// The page is shown.
    Page { authenticated: bool, has_next: bool, login_error: Option<String> },
    /// The user has to be recognised.
    Recognise(LoginMethod),
    /// The user is logged in from now on, and goes on.
    LogIn { user_id: String, location: String },
    BadRequest(&'static str),
}

/// What is said to the user of an error at login.
pub open spec fn login_error_text(error: Error) -> Seq<char> {
    match error {
        Error::Request(_, message) => message@,
        Error::RequestStatus(_, message, _) => message@,
        Error::RequestAbout(_, message, about) => message@ + ": "@ + about@,
        Error::RequestText(_, text) => text@,
        _ => "Internal login error"@,
    }
}

fn login_error(error: &Error) -> (r: String)
    ensures
        r@ == login_error_text(*error),
{
    match error {
        Error::Request(_, message) => (*message).to_owned(),
        Error::RequestStatus(_, message, _) => (*message).to_owned(),
        Error::RequestAbout(_, message, about) => {
            let start = glue(*message, ": ");
            glue(start.as_str(), about.as_str())
        },
        Error::RequestText(_, text) => text.clone(),
        _ => "Internal login error".to_owned(),
    }
}

/// Where the user goes on.
pub open spec fn target(next: LoginTarget) -> Seq<char> {
    ROUTE_PREFIX@ + "/"@ + next.path()
}

/// What the login page does. `identifier` is whom the user says they are, in a form that was
/// sent, and `result` whom they turned out to be.
pub open spec fn login_does(
    next: LoginTarget,
    reauthenticate: bool,
    user: User,
    form: Option<Option<String>>,
    result: Option<Result<String, Error>>,
    step: LoginStep,
) -> bool {
    match (user.0, form) {
        (Some(session), _) if !reauthenticate => step matches LoginStep::Redirect(location)
            && location@ == target(next),
        (_, None) => step == (LoginStep::Page {
            authenticated: user.0 is Some,
            has_next: !(next is Account),
            login_error: None,
        }),
        (None, Some(None)) => step == LoginStep::BadRequest("No identity provided"),
        (_, Some(identifier)) => match result {
            None => match user.0 {
                Some(session) => step == LoginStep::Recognise(
                    LoginMethod::CheckPassword(session.user_id),
                ),
                None => if is_email(identifier->Some_0@) {
                    step matches LoginStep::Recognise(LoginMethod::Email(given)) && given@
                        == identifier->Some_0@
                } else {
                    step matches LoginStep::Recognise(LoginMethod::Matrix(given)) && given@
                        == identifier->Some_0@
                },
            },
            Some(Err(error)) => {
                step matches LoginStep::Page { authenticated, has_next, login_error: Some(text) }
                    && authenticated == (user.0 is Some) && has_next == !(next is Account)
                    && text@ == login_error_text(error)
            },
            Some(Ok(user_id)) => step matches LoginStep::LogIn { user_id: id, location } && id
                == user_id && location@ == target(next),
        },
    }
}

/// The login page.
pub fn route_login(
    next: LoginTarget,
    reauthenticate: bool,
    user: User,
    form: Option<Option<String>>,
    result: Option<Result<String, Error>>,
) -> (r: LoginStep)
    ensures
        login_does(next, reauthenticate, user, form, result, r),
{
    let user_id = match user.into_session() {
        Some(session) => Some(session.user_id),
        None => None,
    };
    if user_id.is_some() && !reauthenticate {
        return LoginStep::Redirect(next.target_path());
    }
    let authenticated = user_id.is_some();
    let has_next = !matches!(next, LoginTarget::Account);
    let identifier = match form {
        None => {
            return LoginStep::Page { authenticated, has_next, login_error: None };
        },
        Some(identifier) => identifier,
    };
    let method = match user_id {
        Some(user_id) => LoginMethod::CheckPassword(user_id),
        None => match identifier {
            Some(identifier) => if parses_as_email(identifier.as_str()) {
                LoginMethod::Email(identifier)
            } else {
                LoginMethod::Matrix(identifier)
            },
            None => {
                return LoginStep::BadRequest("No identity provided");
            },
        },
    };
    match result {
        None => LoginStep::Recognise(method),
        Some(Err(error)) => LoginStep::Page {
            authenticated,
            has_next,
            login_error: Some(login_error(&error)),
        },
        Some(Ok(user_id)) => LoginStep::LogIn { user_id, location: next.target_path() },
    }
}

/// Where the user goes after they have logged out: the login page, with the query of this
/// one.
pub fn logout_location(query: Option<&str>) -> (r: String)
    ensures
        r@ == ROUTE_PREFIX@ + "/account/login?"@ + match query {
            Some(query) => query@,
            None => Seq::<char>::empty(),
        },
{
    let page = glue(ROUTE_PREFIX, "/account/login?");
    match query {
        Some(query) => glue(page.as_str(), query),
        None => {
            assert(page@ + Seq::<char>::empty() =~= page@);
            page
        },
    }
}

/// Nobody is logged in whom the server has not recognised.
pub proof fn law_only_recognised_users_log_in(
    next: LoginTarget,
    reauthenticate: bool,
    user: User,
    form: Option<Option<String>>,
    result: Option<Result<String, Error>>,
    step: LoginStep,
)
    requires
        login_does(next, reauthenticate, user, form, result, step),
        step is LogIn,
    ensures
        result == Some(Ok::<String, Error>(step->LogIn_user_id)),
        form is Some,
{
}

/// What the login page does. Who is logged in goes where they wanted, unless they have to prove
/// themselves again. Without a form the page is shown. With one, the identity is recognised: by
/// the password of who is logged in, or by an email address, or by a user ID; a good one logs in
/// and goes on, a bad one is told what is wrong.
pub proof fn law_login_page(
    next: LoginTarget,
    reauthenticate: bool,
    user: User,
    form: Option<Option<String>>,
    result: Option<Result<String, Error>>,
    step: LoginStep,
)
    requires
        login_does(next, reauthenticate, user, form, result, step),
    ensures
        ({
            let place = ROUTE_PREFIX@ + "/"@ + next.path();
            let through = user.0 is Some && !reauthenticate;
            let unnamed = user.0 is None && form == Some(None::<String>);
            let submitted = !through && form is Some && !unnamed;
            &&& through ==> (step matches LoginStep::Redirect(location) && location@ == place)
            &&& !through && form is None ==> step == (LoginStep::Page {
                authenticated: user.0 is Some,
                has_next: !(next is Account),
                login_error: None,
            })
            &&& unnamed ==> step == LoginStep::BadRequest("No identity provided")
            &&& submitted && result is None ==> {
                &&& user.0 matches Some(session) ==> step == LoginStep::Recognise(
                    LoginMethod::CheckPassword(session.user_id),
                )
                &&& user.0 is None ==> (form matches Some(Some(identifier)) ==> {
                    &&& is_email(identifier@) ==> (step matches LoginStep::Recognise(
                        LoginMethod::Email(given),
                    ) && given@ == identifier@)
                    &&& !is_email(identifier@) ==> (step matches LoginStep::Recognise(
                        LoginMethod::Matrix(given),
                    ) && given@ == identifier@)
                })
            }
            &&& submitted ==> (result matches Some(Ok(user_id)) ==> (step matches LoginStep::LogIn {
                user_id: id,
                location,
            } && id == user_id && location@ == place))
            &&& submitted ==> (result matches Some(Err(error)) ==> (step matches LoginStep::Page {
                authenticated,
                has_next,
                login_error: Some(text),
            } && authenticated == (user.0 is Some) && has_next == !(next is Account) && text@
                == login_error_text(error)))
        }),
{
}

/// What is said of a failed login: the message of a request's error, with what it is about; and of
/// any other only that there was one.
pub proof fn law_login_errors(error: Error)
    ensures
        error matches Error::Request(_, message) ==> login_error_text(error) == message@,
        error matches Error::RequestStatus(_, message, _) ==> login_error_text(error) == message@,
        error matches Error::RequestAbout(_, message, about) ==> login_error_text(error) == message@
            + ": "@ + about@,
        error matches Error::RequestText(_, text) ==> login_error_text(error) == text@,
        !(error is Request || error is RequestStatus || error is RequestAbout || error
            is RequestText) ==> login_error_text(error) == "Internal login error"@,
{
}

} // verus!
