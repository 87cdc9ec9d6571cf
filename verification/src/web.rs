//! The pages that people use in a browser.

pub mod pages;
pub mod session;
pub mod store;

use crate::error::Error;
use crate::text::glue;
use crate::web::session::LoginQuery;
use vstd::prelude::*;

verus! {

/// Where the paths of the server's own pages begin.
pub const ROUTE_PREFIX: &'static str = "/_continuwuity";

/// What is wrong with a field of a form.
#[derive(Debug)]
pub struct FieldError {
    pub field: &'static str,
    /// The rule that was broken.
    pub code: &'static str,
    pub message: String,
}

#[verifier::ext_equal]
pub struct FieldErrorView {
    pub field: &'static str,
    pub code: &'static str,
    pub message: Seq<char>,
}

impl View for FieldError {
    type V = FieldErrorView;

    open spec fn view(&self) -> FieldErrorView {
        FieldErrorView { field: self.field, code: self.code, message: self.message@ }
    }
}

/// What is wrong with a form.
#[derive(Debug)]
pub struct ValidationErrors {
    pub errors: Vec<FieldError>,
}

impl View for ValidationErrors {
    type V = Seq<FieldErrorView>;

    open spec fn view(&self) -> Seq<FieldErrorView> {
        self.errors@.map_values(|e: FieldError| e@)
    }
}

impl ValidationErrors {
    /// Nothing is wrong.
    pub fn new() -> (r: ValidationErrors)
        ensures
            r@ == Seq::<FieldErrorView>::empty(),
    {
        let r = ValidationErrors { errors: Vec::new() };
        assert(r@ =~= Seq::<FieldErrorView>::empty());
        r
    }

    pub fn add_error(&mut self, field: &'static str, code: &'static str, message: &str)
        ensures
            final(self)@ == old(self)@.push(FieldErrorView { field, code, message: message@ }),
    {
        let ghost before = self@;
        self.errors.push(FieldError { field, code, message: message.to_owned() });
        assert(self@ =~= before.push(FieldErrorView { field, code, message: message@ }));
    }

    pub fn is_empty(&self) -> (r: bool)
        ensures
            r == (self@.len() == 0),
    {
        self.errors.len() == 0
    }

    /// One thing is wrong.
    pub fn one(field: &'static str, code: &'static str, message: &str) -> (r: ValidationErrors)
        ensures
            r@ == seq![FieldErrorView { field, code, message: message@ }],
    {
        let mut errors = ValidationErrors::new();
        errors.add_error(field, code, message);
        assert(errors@ =~= seq![FieldErrorView { field, code, message: message@ }]);
        errors
    }
}

/// Why a page cannot be shown.
#[derive(Debug)]
pub enum WebError {
    ValidationError(ValidationErrors),
    QueryRejection(String),
    FormRejection(String),
    BadRequest(String),
    NotFound,
    Forbidden(String),
    LoginRequired(LoginQuery),
    Render(String),
    InternalError(Error),
    Panic(String),
}

/// How the server answers when a page cannot be shown.
pub enum ErrorResponse {
    /// The user is sent to another page.
    Redirect(String),
    /// An error page with this status.
    Page(u16),
}

impl WebError {
    /// The status of the error page; none where the user is sent to the login page.
    pub open spec fn status(self) -> Option<u16> {
        match self {
            WebError::ValidationError(_) | WebError::BadRequest(_) | WebError::QueryRejection(_)
            | WebError::FormRejection(_) | WebError::InternalError(_) => Some(400),
            WebError::NotFound => Some(404),
            WebError::Forbidden(_) => Some(403),
            WebError::LoginRequired(_) => None,
            WebError::Render(_) | WebError::Panic(_) => Some(500),
        }
    }

    /// How the server answers.
    pub fn response(&self) -> (r: ErrorResponse)
        ensures
            match *self {
                WebError::LoginRequired(query) => r matches ErrorResponse::Redirect(location)
                    && location@ == query.location(),
                _ => r matches ErrorResponse::Page(status) && Some(status) == self.status(),
            },
    {
        match self {
            WebError::ValidationError(_) => ErrorResponse::Page(400),
            WebError::BadRequest(_) => ErrorResponse::Page(400),
            WebError::QueryRejection(_) => ErrorResponse::Page(400),
            WebError::FormRejection(_) => ErrorResponse::Page(400),
            WebError::InternalError(_) => ErrorResponse::Page(400),
            WebError::NotFound => ErrorResponse::Page(404),
            WebError::Forbidden(_) => ErrorResponse::Page(403),
            WebError::LoginRequired(query) => ErrorResponse::Redirect(query.login_location()),
            WebError::Render(_) => ErrorResponse::Page(500),
            WebError::Panic(_) => ErrorResponse::Page(500),
        }
    }

    /// What is said on the error page. `details` is the text of the validation errors or of
    /// the internal error.
    pub open spec fn text(self, details: Seq<char>) -> Seq<char> {
        match self {
            WebError::ValidationError(_) => "Failed to validate form body: "@ + details,
            WebError::QueryRejection(text) => text@,
            WebError::FormRejection(text) => text@,
            WebError::BadRequest(text) => text@,
            WebError::NotFound => "This page does not exist."@,
            WebError::Forbidden(text) => "You are not allowed to request this page: "@ + text@,
            WebError::LoginRequired(_) => "You must log in to access this page"@,
            WebError::Render(text) => "Failed to render template: "@ + text@,
            WebError::InternalError(_) => details,
            WebError::Panic(text) => "Request handler panicked! "@ + text@,
        }
    }

    /// What is said on the error page. `details` is the text of the validation errors or of
    /// the internal error.
    pub fn message(&self, details: &str) -> (r: String)
        ensures
            r@ == self.text(details@),
    {
        match self {
            WebError::ValidationError(_) => glue("Failed to validate form body: ", details),
            WebError::QueryRejection(text) => text.clone(),
            WebError::FormRejection(text) => text.clone(),
            WebError::BadRequest(text) => text.clone(),
            WebError::NotFound => "This page does not exist.".to_owned(),
            WebError::Forbidden(text) => glue(
                "You are not allowed to request this page: ",
                text.as_str(),
            ),
            WebError::LoginRequired(_) => "You must log in to access this page".to_owned(),
            WebError::Render(text) => glue("Failed to render template: ", text.as_str()),
            WebError::InternalError(_) => details.to_owned(),
            WebError::Panic(text) => glue("Request handler panicked! ", text.as_str()),
        }
    }
}

/// What kind of answer an error is: the client's fault, a page that is missing or forbidden, the
/// server's own, or a way to the login page.
pub proof fn law_error_statuses(error: WebError)
    ensures
        error.status() == Some(400u16) <==> error is ValidationError || error is BadRequest || error
            is QueryRejection || error is FormRejection || error is InternalError,
        error.status() == Some(404u16) <==> error is NotFound,
        error.status() == Some(403u16) <==> error is Forbidden,
        error.status() == Some(500u16) <==> error is Render || error is Panic,
        error.status() is None <==> error is LoginRequired,
{
}

/// What an error says.
pub proof fn law_error_texts(error: WebError, details: Seq<char>)
    ensures
        error is ValidationError ==> error.text(details) == "Failed to validate form body: "@
            + details,
        error is InternalError ==> error.text(details) == details,
        error matches WebError::QueryRejection(text) ==> error.text(details) == text@,
        error matches WebError::FormRejection(text) ==> error.text(details) == text@,
        error matches WebError::BadRequest(text) ==> error.text(details) == text@,
        error is NotFound ==> error.text(details) == "This page does not exist."@,
        error matches WebError::Forbidden(text) ==> error.text(details)
            == "You are not allowed to request this page: "@ + text@,
        error is LoginRequired ==> error.text(details) == "You must log in to access this page"@,
        error matches WebError::Render(text) ==> error.text(details)
            == "Failed to render template: "@ + text@,
        error matches WebError::Panic(text) ==> error.text(details) == "Request handler panicked! "@
            + text@,
{
}

/// An error in a field is told by the field, its code and its message.
pub proof fn law_told_of_field_error(it: FieldError)
    ensures
        it@.field == it.field,
        it@.code == it.code,
        it@.message == it.message@,
{
}

} // verus!
