//! The pages for changing and resetting a password.

use crate::matrix::{make_user_id, user_id_of};
use crate::order::same_str;
use crate::store::{key1, KeyView};
use crate::users;
use crate::users::account::{suspended, HashedPassword};
use crate::web::session::{require_active, LoginQuery, LoginTarget, User};
use crate::web::{FieldErrorView, ValidationErrors, WebError};
use vstd::prelude::*;

verus! {

/// The form for changing a password.
#[derive(Debug)]
pub struct ChangePasswordForm {
    pub current_password: String,
    pub new_password: String,
    pub confirm_new_password: String,
}

/// The form for resetting a password.
#[derive(Debug)]
pub struct ResetPasswordForm {
    pub new_password: String,
    pub confirm_new_password: String,
}

/// A field must not be empty.
pub open spec fn empty_error(field: &'static str, text: Seq<char>, message: &'static str) -> Seq<
    FieldErrorView,
> {
    if text.len() == 0 {
        seq![FieldErrorView { field, code: "length", message: message@ }]
    } else {
        Seq::empty()
    }
}

/// A field must hold what another one holds.
pub open spec fn mismatch_error(
    field: &'static str,
    text: Seq<char>,
    other: Seq<char>,
    message: &'static str,
) -> Seq<FieldErrorView> {
    if text != other {
        seq![FieldErrorView { field, code: "must_match", message: message@ }]
    } else {
        Seq::empty()
    }
}

pub fn check_not_empty(
    errors: &mut ValidationErrors,
    field: &'static str,
    text: &str,
    message: &'static str,
)
    ensures
        final(errors)@ == old(errors)@ + empty_error(field, text@, message),
{
    let ghost before = errors@;
    if text.unicode_len() == 0 {
        errors.add_error(field, "length", message);
    }
    proof {
        assert(errors@ =~= before + empty_error(field, text@, message));
    }
}

pub fn check_match(
    errors: &mut ValidationErrors,
    field: &'static str,
    text: &str,
    other: &str,
    message: &'static str,
)
    ensures
        final(errors)@ == old(errors)@ + mismatch_error(field, text@, other@, message),
{
    let ghost before = errors@;
    if !same_str(text, other) {
        errors.add_error(field, "must_match", message);
    }
    proof {
        assert(errors@ =~= before + mismatch_error(field, text@, other@, message));
    }
}

impl ChangePasswordForm {
    /// What is wrong with the form.
    pub open spec fn errors(self) -> Seq<FieldErrorView> {
        empty_error(
            "current_password",
            self.current_password@,
            "Current password cannot be empty",
        ) + empty_error("new_password", self.new_password@, "New password cannot be empty")
            + mismatch_error(
            "confirm_new_password",
            self.confirm_new_password@,
            self.new_password@,
            "Passwords must match",
        )
    }

    pub fn validate(&self) -> (r: ValidationErrors)
        ensures
            r@ == self.errors(),
    {
        let mut errors = ValidationErrors::new();
        check_not_empty(
            &mut errors,
            "current_password",
            self.current_password.as_str(),
            "Current password cannot be empty",
        );
        check_not_empty(
            &mut errors,
            "new_password",
            self.new_password.as_str(),
            "New password cannot be empty",
        );
        check_match(
            &mut errors,
            "confirm_new_password",
            self.confirm_new_password.as_str(),
            self.new_password.as_str(),
            "Passwords must match",
        );
        proof {
            assert(errors@ =~= self.errors());
        }
        errors
    }
}

impl ResetPasswordForm {
    /// What is wrong with the form.
    pub open spec fn errors(self) -> Seq<FieldErrorView> {
        empty_error("new_password", self.new_password@, "Password cannot be empty")
            + mismatch_error(
            "confirm_new_password",
            self.confirm_new_password@,
            self.new_password@,
            "Passwords must match",
        )
    }

    pub fn validate(&self) -> (r: ValidationErrors)
        ensures
            r@ == self.errors(),
    {
        let mut errors = ValidationErrors::new();
        check_not_empty(
            &mut errors,
            "new_password",
            self.new_password.as_str(),
            "Password cannot be empty",
        );
        check_match(
            &mut errors,
            "confirm_new_password",
            self.confirm_new_password.as_str(),
            self.new_password.as_str(),
            "Passwords must match",
        );
        proof {
            assert(errors@ =~= self.errors());
        }
        errors
    }
}

/// What has to be found out to change a password.
#[derive(Clone, Copy, Debug, PartialEq, Eq, Structural)]
pub enum PasswordAsk {
    /// Whether the current password is right.
    CheckPassword,
    /// The hash of the new password.
    HashPassword,
}

/// What changing a password gives.
pub enum PasswordStep {
    Ask(PasswordAsk),
    Refused(ValidationErrors),
    Changed,
}

/// The accounts after a user's password has been set.
pub open spec fn with_password(
    before: users::DataView,
    user_id: Seq<char>,
    hash: HashedPassword,
) -> users::DataView {
    users::DataView { passwords: before.passwords.insert(key1(user_id), hash.0@), ..before }
}

/// A password that cannot be used.
pub open spec fn malformed(message: Seq<char>) -> Seq<FieldErrorView> {
    seq![FieldErrorView { field: "new_password", code: "malformed", message }]
}

/// What changing a user's password gives.
pub open spec fn password_changes(
    before: users::DataView,
    user_id: Seq<char>,
    form: ChangePasswordForm,
    current_right: Option<bool>,
    hashed: Option<Result<HashedPassword, String>>,
    after: users::DataView,
    r: PasswordStep,
) -> bool {
    if form.errors().len() > 0 {
        (r matches PasswordStep::Refused(errors) && errors@ == form.errors()) && after == before
    } else {
        match (current_right, hashed) {
            (None, _) => r == PasswordStep::Ask(PasswordAsk::CheckPassword) && after == before,
            (Some(false), _) => {
                &&& r matches PasswordStep::Refused(errors) && errors@ == seq![
                    FieldErrorView {
                        field: "current_password",
                        code: "wrong",
                        message: "Incorrect password"@,
                    },
                ]
                &&& after == before
            },
            (Some(true), None) => r == PasswordStep::Ask(PasswordAsk::HashPassword) && after
                == before,
            (Some(true), Some(Err(message))) => {
                &&& r matches PasswordStep::Refused(errors) && errors@ == malformed(message@)
                &&& after == before
            },
            (Some(true), Some(Ok(hash))) => r == PasswordStep::Changed && after == with_password(
                before,
                user_id,
                hash,
            ),
        }
    }
}

/// Changes a user's password. `current_right` is whether the current password is right, and
/// `hashed` the hash of the new one, or why it has none.
pub fn change_password(
    users: &mut users::Service,
    user_id: &str,
    form: &ChangePasswordForm,
    current_right: Option<bool>,
    hashed: Option<Result<HashedPassword, String>>,
) -> (r: PasswordStep)
    ensures
        final(users).server_name == old(users).server_name,
        password_changes(
            old(users)@,
            user_id@,
            *form,
            current_right,
            hashed,
            final(users)@,
            r,
        ),
{
    let errors = form.validate();
    if !errors.is_empty() {
        return PasswordStep::Refused(errors);
    }
    match current_right {
        None => {
            return PasswordStep::Ask(PasswordAsk::CheckPassword);
        },
        Some(right) => {
            if !right {
                return PasswordStep::Refused(
                    ValidationErrors::one("current_password", "wrong", "Incorrect password"),
                );
            }
        },
    }
    match hashed {
        None => PasswordStep::Ask(PasswordAsk::HashPassword),
        Some(Err(message)) => PasswordStep::Refused(
            ValidationErrors::one("new_password", "malformed", message.as_str()),
        ),
        Some(Ok(hash)) => {
            users.set_password(user_id, Some(hash));
            PasswordStep::Changed
        },
    }
}

/// What the page for changing a password does next.
pub enum ChangePasswordStep {
    Ask(PasswordAsk),
    /// The form is shown, with what is wrong with what was sent.
    Form(ValidationErrors),
    Success,
}

/// The page for changing a password, for a user who is logged in. `form` is what was sent,
/// `current_right` whether the current password is right, and `hashed` the hash of the new
/// one, or why it has none.
pub fn route_change_password(
    users: &mut users::Service,
    user: User,
    form: &Option<ChangePasswordForm>,
    current_right: Option<bool>,
    hashed: Option<Result<HashedPassword, String>>,
) -> (r: Result<ChangePasswordStep, WebError>)
    ensures
        final(users).server_name == old(users).server_name,
        match (user.0, *form) {
            (None, _) => {
                &&& r == Err::<ChangePasswordStep, WebError>(
                    WebError::LoginRequired(
                        (LoginQuery { next: LoginTarget::ChangePassword, reauthenticate: false }),
                    ),
                )
                &&& final(users)@ == old(users)@
            },
            (Some(_), None) => {
                &&& r matches Ok(ChangePasswordStep::Form(errors)) && errors@.len() == 0
                &&& final(users)@ == old(users)@
            },
            (Some(session), Some(form)) => {
                &&& r matches Ok(step) && password_changes(
                    old(users)@,
                    session.user_id@,
                    form,
                    current_right,
                    hashed,
                    final(users)@,
                    match step {
                        ChangePasswordStep::Ask(ask) => PasswordStep::Ask(ask),
                        ChangePasswordStep::Form(errors) => PasswordStep::Refused(errors),
                        ChangePasswordStep::Success => PasswordStep::Changed,
                    },
                )
            },
        },
{
    let user_id = match user.expect(LoginTarget::ChangePassword) {
        Ok(user_id) => user_id,
        Err(error) => {
            return Err(error);
        },
    };
    match form {
        None => Ok(ChangePasswordStep::Form(ValidationErrors::new())),
        Some(form) => match change_password(
            users,
            user_id.as_str(),
            form,
            current_right,
            hashed,
        ) {
            PasswordStep::Ask(ask) => Ok(ChangePasswordStep::Ask(ask)),
            PasswordStep::Refused(errors) => Ok(ChangePasswordStep::Form(errors)),
            PasswordStep::Changed => Ok(ChangePasswordStep::Success),
        },
    }
}

/// What the page for asking for a reset does next.
pub enum ResetRequestStep {
    /// There are no emails on this server.
    Unavailable,
    Form,
    /// Whose address it is has to be found out.
    LocalpartForEmail,
    /// An email has to be sent to the user.
    SendEmail { user_id: String },
    /// The user has to follow the link in the email.
    ValidationPending { session_id: String },
}

/// The page for asking for a reset. `owner` is the localpart of the user with the address,
/// `sent` the validation session of the email, and `random_id` is used in place of one where
/// none was sent, to not give that away.
pub fn route_reset_password_request(
    has_mailer: bool,
    submitted: bool,
    owner: Option<Option<String>>,
    sent: Option<Option<String>>,
    random_id: String,
    server_name: &str,
) -> (r: ResetRequestStep)
    ensures
        if !has_mailer {
            r == ResetRequestStep::Unavailable
        } else if !submitted {
            r == ResetRequestStep::Form
        } else {
            match (owner, sent) {
                (None, _) => r == ResetRequestStep::LocalpartForEmail,
                (Some(None), _) => r == (ResetRequestStep::ValidationPending {
                    session_id: random_id,
                }),
                (Some(Some(localpart)), None) => r matches ResetRequestStep::SendEmail { user_id }
                    && user_id@ == user_id_of(localpart@, server_name@),
                (Some(Some(_)), Some(None)) => r == (ResetRequestStep::ValidationPending {
                    session_id: random_id,
                }),
                (Some(Some(_)), Some(Some(session_id))) => r
                    == (ResetRequestStep::ValidationPending { session_id }),
            }
        },
{
    if !has_mailer {
        return ResetRequestStep::Unavailable;
    }
    if !submitted {
        return ResetRequestStep::Form;
    }
    match owner {
        None => ResetRequestStep::LocalpartForEmail,
        Some(None) => ResetRequestStep::ValidationPending { session_id: random_id },
        Some(Some(localpart)) => match sent {
            None => ResetRequestStep::SendEmail {
                user_id: make_user_id(localpart.as_str(), server_name),
            },
            Some(None) => ResetRequestStep::ValidationPending { session_id: random_id },
            Some(Some(session_id)) => ResetRequestStep::ValidationPending { session_id },
        },
    }
}

/// What the page for resetting a password does next.
pub enum ResetStep {
    /// The link in the email has not been followed.
    ValidationPending,
    /// The form is shown, with what was wrong with it.
    Form { user_id: String, errors: ValidationErrors },
    /// The new password has to be hashed.
    HashPassword,
    /// The password has been set, and the validation session is to be used up.
    Done { user_id: String },
}

/// The page for resetting a password. `owner` is, if the link has been followed, the
/// localpart of the user with the validated address, if there is one; `hashed` is the hash
/// of the new password, or why it has none.
pub fn route_reset_password(
    users: &mut users::Service,
    owner: Option<Option<String>>,
    form: &Option<ResetPasswordForm>,
    hashed: Option<Result<HashedPassword, String>>,
) -> (r: Result<ResetStep, WebError>)
    requires
        owner matches Some(Some(localpart)) ==> suspended(
            old(users)@.locks,
            user_id_of(localpart@, old(users).server_name@),
        ) is Ok,
    ensures
        final(users).server_name == old(users).server_name,
        match owner {
            None => r == Ok::<ResetStep, WebError>(ResetStep::ValidationPending) && final(users)@
                == old(users)@,
            Some(None) => (r matches Err(WebError::BadRequest(text)) && text@
                == "Inapplicable threepid session."@) && final(users)@ == old(users)@,
            Some(Some(localpart)) => {
                let user_id = user_id_of(localpart@, old(users).server_name@);
                if !old(users)@.is_active(user_id) {
                    (r matches Err(WebError::Forbidden(text)) && text@
                        == "Your account is deactivated."@) && final(users)@ == old(users)@
                } else if suspended(old(users)@.locks, user_id) == Ok::<bool, crate::error::Error>(
                    true,
                ) {
                    (r matches Err(WebError::Forbidden(text)) && text@
                        == "Your account is locked."@) && final(users)@ == old(users)@
                } else {
                    match (*form, hashed) {
                        (None, _) => (r matches Ok(ResetStep::Form { user_id: id, errors }) && id@
                            == user_id && errors@.len() == 0) && final(users)@ == old(users)@,
                        (Some(form), hashed) => if form.errors().len() > 0 {
                            (r matches Ok(ResetStep::Form { user_id: id, errors }) && id@
                                == user_id && errors@ == form.errors()) && final(users)@
                                == old(users)@
                        } else {
                            match hashed {
                                None => r == Ok::<ResetStep, WebError>(ResetStep::HashPassword)
                                    && final(users)@ == old(users)@,
                                Some(Err(message)) => (r matches Ok(
                                    ResetStep::Form { user_id: id, errors },
                                ) && id@ == user_id && errors@ == malformed(message@))
                                    && final(users)@ == old(users)@,
                                Some(Ok(hash)) => (r matches Ok(ResetStep::Done { user_id: id })
                                    && id@ == user_id) && final(users)@ == with_password(
                                    old(users)@,
                                    user_id,
                                    hash,
                                ),
                            }
                        },
                    }
                }
            },
        },
{
    let localpart = match owner {
        None => {
            return Ok(ResetStep::ValidationPending);
        },
        Some(None) => {
            return Err(WebError::BadRequest("Inapplicable threepid session.".to_owned()));
        },
        Some(Some(localpart)) => localpart,
    };
    let user_id = make_user_id(localpart.as_str(), users.server_name.as_str());
    match require_active(users, user_id.as_str()) {
        Ok(_) => {},
        Err(error) => {
            return Err(error);
        },
    }
    let form = match form {
        None => {
            return Ok(ResetStep::Form { user_id, errors: ValidationErrors::new() });
        },
        Some(form) => form,
    };
    let errors = form.validate();
    if !errors.is_empty() {
        return Ok(ResetStep::Form { user_id, errors });
    }
    match hashed {
        None => Ok(ResetStep::HashPassword),
        Some(Err(message)) => Ok(
            ResetStep::Form {
                user_id,
                errors: ValidationErrors::one("new_password", "malformed", message.as_str()),
            },
        ),
        Some(Ok(hash)) => {
            users.set_password(user_id.as_str(), Some(hash));
            Ok(ResetStep::Done { user_id })
        },
    }
}

/// The forms: a new password has to be there and to be repeated, and a change needs the current
/// one too. Each thing that is missing is told under its field, in the form's order.
pub proof fn law_password_forms(change: ChangePasswordForm, reset: ResetPasswordForm)
    ensures
        change.errors().len() == 0 <==> change.current_password@.len() > 0
            && change.new_password@.len() > 0 && change.confirm_new_password@
            == change.new_password@,
        reset.errors().len() == 0 <==> reset.new_password@.len() > 0 && reset.confirm_new_password@
            == reset.new_password@,
        change.current_password@.len() == 0 ==> change.errors()[0] == (FieldErrorView {
            field: "current_password",
            code: "length",
            message: "Current password cannot be empty"@,
        }),
        change.current_password@.len() > 0 && change.new_password@.len() == 0 ==> change.errors()[0]
            == (FieldErrorView {
            field: "new_password",
            code: "length",
            message: "New password cannot be empty"@,
        }),
        reset.new_password@.len() == 0 ==> reset.errors()[0] == (FieldErrorView {
            field: "new_password",
            code: "length",
            message: "Password cannot be empty"@,
        }),
        change.confirm_new_password@ != change.new_password@ ==> change.errors().last() == (
        FieldErrorView {
            field: "confirm_new_password",
            code: "must_match",
            message: "Passwords must match"@,
        }),
        reset.confirm_new_password@ != reset.new_password@ ==> reset.errors().last() == (
        FieldErrorView {
            field: "confirm_new_password",
            code: "must_match",
            message: "Passwords must match"@,
        }),
{
}

/// A password changes exactly if the form is in order, the current password is right and the new
/// one could be hashed. It then becomes the user's, and nothing else changes; otherwise nothing
/// changes at all, and what is missing is asked for or what is wrong is told.
pub proof fn law_password_changes(
    before: users::DataView,
    user_id: Seq<char>,
    form: ChangePasswordForm,
    current_right: Option<bool>,
    hashed: Option<Result<HashedPassword, String>>,
    after: users::DataView,
    r: PasswordStep,
    other: KeyView,
)
    requires
        password_changes(before, user_id, form, current_right, hashed, after, r),
    ensures
        ({
            let sound = form.current_password@.len() > 0 && form.new_password@.len() > 0
                && form.confirm_new_password@ == form.new_password@;
            &&& r is Changed <==> sound && current_right == Some(true) && (hashed matches Some(
                Ok(_),
            ))
            &&& r is Changed ==> {
                &&& after.passwords.contains_key(key1(user_id)) && after.passwords[key1(user_id)]
                    == hashed->Some_0->Ok_0.0@
                &&& other != key1(user_id) ==> after.passwords.contains_key(other)
                    == before.passwords.contains_key(other) && after.passwords[other]
                    == before.passwords[other]
                &&& after == (users::DataView { passwords: after.passwords, ..before })
            }
            &&& !(r is Changed) ==> after == before
            &&& r == PasswordStep::Ask(PasswordAsk::CheckPassword) <==> sound && current_right
                is None
            &&& r == PasswordStep::Ask(PasswordAsk::HashPassword) <==> sound && current_right
                == Some(true) && hashed is None
            &&& sound && current_right == Some(false) ==> (r matches PasswordStep::Refused(errors)
                && errors@ == seq![
                FieldErrorView {
                    field: "current_password",
                    code: "wrong",
                    message: "Incorrect password"@,
                },
            ])
            &&& sound && current_right == Some(true) ==> (hashed matches Some(Err(message)) ==> (
            r matches PasswordStep::Refused(errors) && errors@ == seq![
                FieldErrorView { field: "new_password", code: "malformed", message: message@ },
            ]))
        }),
{
    law_password_forms(form, ResetPasswordForm {
        new_password: form.new_password,
        confirm_new_password: form.confirm_new_password,
    });
}

} // verus!
