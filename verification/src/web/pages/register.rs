//! The pages for registering an account.

use crate::users::account::HashedPassword;
use crate::users::maybe;
use crate::web::pages::password::{check_match, check_not_empty, empty_error, mismatch_error};
use crate::web::session::UserSession;
use crate::web::{FieldErrorView, ValidationErrors};
use vstd::prelude::*;

verus! {

/// Whether people with a registration token may register.
#[derive(Clone, Copy, Debug, PartialEq, Eq, Structural)]
pub enum TrustedFlowStatus {
    Unavailable,
    Available,
}

/// Whether anybody may register.
#[derive(Clone, Copy, Debug, PartialEq, Eq, Structural)]
pub enum UntrustedFlowStatus {
    Unavailable,
    Available { require_email: bool },
}

/// The way to register that was asked for.
#[derive(Clone, Copy, Debug, PartialEq, Eq, Structural)]
pub enum RequestedRegistrationFlow {
    Untrusted,
    Trusted,
}

/// When emails are needed, where the server can send them.
#[derive(Clone, Copy, Debug)]
pub struct SmtpConfig {
    pub require_email_for_registration: bool,
    pub require_email_for_token_registration: bool,
}

/// What the server's configuration says about registration.
#[derive(Clone, Copy, Debug)]
pub struct RegistrationConfig {
    pub allow_registration: bool,
    /// Anybody may register, without any proof.
    pub open_registration: bool,
    /// CAPTCHAs are configured.
    pub recaptcha: bool,
    pub smtp: Option<SmtpConfig>,
}

impl RegistrationConfig {
    /// An email address is needed to register without a token.
    pub open spec fn email_without_token(self) -> bool {
        self.smtp matches Some(smtp) && smtp.require_email_for_registration
    }

    /// An email address is needed to register with a token.
    pub open spec fn email_with_token(self) -> bool {
        self.smtp matches Some(smtp) && smtp.require_email_for_token_registration
    }

    /// An email address has to be validated before the account is made.
    pub open spec fn requires_email(self, flow: RequestedRegistrationFlow) -> bool {
        match flow {
            RequestedRegistrationFlow::Trusted => self.email_with_token(),
            RequestedRegistrationFlow::Untrusted => !self.open_registration
                && self.email_without_token(),
        }
    }

    fn needs_email_without_token(&self) -> (r: bool)
        ensures
            r == self.email_without_token(),
    {
        match &self.smtp {
            Some(smtp) => smtp.require_email_for_registration,
            None => false,
        }
    }

    fn needs_email_with_token(&self) -> (r: bool)
        ensures
            r == self.email_with_token(),
    {
        match &self.smtp {
            Some(smtp) => smtp.require_email_for_token_registration,
            None => false,
        }
    }
}

/// Whether people with a registration token may register.
pub open spec fn trusted_status(
    config: RegistrationConfig,
    first_run: bool,
    any_token: bool,
) -> TrustedFlowStatus {
    if (config.allow_registration || first_run) && any_token {
        TrustedFlowStatus::Available
    } else {
        TrustedFlowStatus::Unavailable
    }
}

/// Whether anybody may register.
pub open spec fn untrusted_status(
    config: RegistrationConfig,
    first_run: bool,
) -> UntrustedFlowStatus {
    if !(config.allow_registration || first_run) {
        UntrustedFlowStatus::Unavailable
    } else if config.recaptcha || config.email_without_token() {
        UntrustedFlowStatus::Available { require_email: config.email_without_token() }
    } else if config.open_registration {
        UntrustedFlowStatus::Available { require_email: false }
    } else {
        UntrustedFlowStatus::Unavailable
    }
}

/// The way to register that a form uses is there.
pub open spec fn flow_available(
    flow: RequestedRegistrationFlow,
    statuses: (TrustedFlowStatus, UntrustedFlowStatus),
) -> bool {
    match flow {
        RequestedRegistrationFlow::Trusted => statuses.0 is Available,
        RequestedRegistrationFlow::Untrusted => statuses.1 is Available,
    }
}

/// Which ways to register there are. Registration is allowed if it's enabled in the
/// configuration or if this is the first run, so the first account can be created.
///
/// The trusted flow is only available if any registration tokens exist. The untrusted flow is
/// available if an email is required for registration, or CAPTCHAs are configured, or open
/// registration is enabled.
pub fn registration_flow_status(
    config: &RegistrationConfig,
    first_run: bool,
    any_token: bool,
) -> (r: (TrustedFlowStatus, UntrustedFlowStatus))
    ensures
        r == (
            trusted_status(*config, first_run, any_token),
            untrusted_status(*config, first_run),
        ),
{
    let allow_registration = config.allow_registration || first_run;
    let trusted = if !allow_registration {
        TrustedFlowStatus::Unavailable
    } else if any_token {
        TrustedFlowStatus::Available
    } else {
        TrustedFlowStatus::Unavailable
    };
    let require_email = config.needs_email_without_token();
    let untrusted = if !allow_registration {
        UntrustedFlowStatus::Unavailable
    } else if config.recaptcha || require_email {
        UntrustedFlowStatus::Available { require_email }
    } else if config.open_registration {
        UntrustedFlowStatus::Available { require_email: false }
    } else {
        UntrustedFlowStatus::Unavailable
    };
    (trusted, untrusted)
}

/// The query of the registration page.
#[derive(Debug)]
pub struct RegistrationQuery {
    pub username: Option<String>,
    pub token: Option<String>,
    pub flow: Option<RequestedRegistrationFlow>,
    pub from_landing: bool,
}

/// What is special about a way to register.
#[derive(Debug)]
pub enum RegistrationFlowParameters {
    Untrusted { recaptcha_sitekey: Option<String> },
    Trusted { registration_token: Option<String> },
}

/// What the registration page shows.
pub enum RegisterPage {
    /// Whether the username can be used has to be found out first.
    CheckUsername,
    BadRequest(&'static str),
    Unavailable,
    UsernamePrompt {
        trusted_flow_status: TrustedFlowStatus,
        untrusted_flow_status: UntrustedFlowStatus,
        username_error: Option<String>,
    },
    DetailsPrompt {
        username: Option<String>,
        require_email: bool,
        flow: RegistrationFlowParameters,
        validation_errors: ValidationErrors,
    },
}

/// What the registration page shows. `username_error` is what is wrong with the username,
/// once that is known.
pub open spec fn register_shows(
    query: RegistrationQuery,
    config: RegistrationConfig,
    statuses: (TrustedFlowStatus, UntrustedFlowStatus),
    username_error: Option<Option<String>>,
    recaptcha_sitekey: Option<String>,
    validation_errors: ValidationErrors,
    page: RegisterPage,
) -> bool {
    if statuses.0 == TrustedFlowStatus::Unavailable && statuses.1
        == UntrustedFlowStatus::Unavailable {
        page == RegisterPage::Unavailable
    } else if query.username is Some && query.flow is None {
        page == RegisterPage::BadRequest("A flow must be provided if a username is provided")
    } else if query.username is Some && query.from_landing && username_error is None {
        page == RegisterPage::CheckUsername
    } else if query.username is Some && query.from_landing && (username_error matches Some(
        Some(_),
    )) {
        page == (RegisterPage::UsernamePrompt {
            trusted_flow_status: statuses.0,
            untrusted_flow_status: statuses.1,
            username_error: username_error->Some_0,
        })
    } else if query.flow == Some(RequestedRegistrationFlow::Trusted) || query.token is Some {
        page == (RegisterPage::DetailsPrompt {
            username: query.username,
            require_email: config.email_with_token(),
            flow: RegistrationFlowParameters::Trusted { registration_token: query.token },
            validation_errors,
        })
    } else if query.flow == Some(RequestedRegistrationFlow::Untrusted) {
        page == (RegisterPage::DetailsPrompt {
            username: query.username,
            require_email: config.email_without_token(),
            flow: RegistrationFlowParameters::Untrusted { recaptcha_sitekey },
            validation_errors,
        })
    } else {
        page == (RegisterPage::UsernamePrompt {
            trusted_flow_status: statuses.0,
            untrusted_flow_status: statuses.1,
            username_error: None,
        })
    }
}

/// The registration page. A username that comes from the landing page is checked before the
/// details form is shown, to keep the user from wasting their time.
pub fn route_register(
    query: RegistrationQuery,
    config: &RegistrationConfig,
    statuses: (TrustedFlowStatus, UntrustedFlowStatus),
    username_error: Option<Option<String>>,
    recaptcha_sitekey: Option<String>,
    validation_errors: ValidationErrors,
) -> (r: RegisterPage)
    ensures
        register_shows(
            query,
            *config,
            statuses,
            username_error,
            recaptcha_sitekey,
            validation_errors,
            r,
        ),
{
    let (trusted_flow_status, untrusted_flow_status) = statuses;
    if trusted_flow_status == TrustedFlowStatus::Unavailable && untrusted_flow_status
        == UntrustedFlowStatus::Unavailable {
        return RegisterPage::Unavailable;
    }
    if query.username.is_some() && query.flow.is_none() {
        return RegisterPage::BadRequest("A flow must be provided if a username is provided");
    }
    if query.username.is_some() && query.from_landing {
        match username_error {
            None => {
                return RegisterPage::CheckUsername;
            },
            Some(Some(message)) => {
                return RegisterPage::UsernamePrompt {
                    trusted_flow_status,
                    untrusted_flow_status,
                    username_error: Some(message),
                };
            },
            Some(None) => {},
        }
    }
    let trusted = match query.flow {
        Some(RequestedRegistrationFlow::Trusted) => true,
        _ => query.token.is_some(),
    };
    if trusted {
        return RegisterPage::DetailsPrompt {
            username: query.username,
            require_email: config.needs_email_with_token(),
            flow: RegistrationFlowParameters::Trusted { registration_token: query.token },
            validation_errors,
        };
    }
    match query.flow {
        Some(_) => RegisterPage::DetailsPrompt {
            username: query.username,
            require_email: config.needs_email_without_token(),
            flow: RegistrationFlowParameters::Untrusted { recaptcha_sitekey },
            validation_errors,
        },
        None => RegisterPage::UsernamePrompt {
            trusted_flow_status,
            untrusted_flow_status,
            username_error: None,
        },
    }
}

/// The form of the registration page.
#[derive(Debug)]
pub struct RegistrationForm {
    pub flow: RequestedRegistrationFlow,
    pub username: String,
    pub email: Option<String>,
    pub password: String,
    pub confirm_password: String,
    pub registration_token: Option<String>,
    pub recaptcha_response: Option<String>,
}

impl RegistrationForm {
    /// What is wrong with the form.
    pub open spec fn errors(self) -> Seq<FieldErrorView> {
        empty_error("password", self.password@, "Password cannot be empty") + mismatch_error(
            "confirm_password",
            self.confirm_password@,
            self.password@,
            "Passwords must match",
        )
    }

    pub fn validate(&self) -> (r: ValidationErrors)
        ensures
            r@ == self.errors(),
    {
        let mut errors = ValidationErrors::new();
        check_not_empty(
            &mut errors,
            "password",
            self.password.as_str(),
            "Password cannot be empty",
        );
        check_match(
            &mut errors,
            "confirm_password",
            self.confirm_password.as_str(),
            self.password.as_str(),
            "Passwords must match",
        );
        proof {
            assert(errors@ =~= self.errors());
        }
        errors
    }
}

/// An account that is to be made.
#[derive(Debug)]
pub struct CompletedRegistration {
    pub user_id: String,
    pub password_hash: HashedPassword,
    pub registration_token: Option<String>,
}

#[verifier::ext_equal]
pub struct CompletedView {
    pub user_id: Seq<char>,
    pub password_hash: Seq<char>,
    pub registration_token: Option<Seq<char>>,
}

impl View for CompletedRegistration {
    type V = CompletedView;

    open spec fn view(&self) -> CompletedView {
        CompletedView {
            user_id: self.user_id@,
            password_hash: self.password_hash.0@,
            registration_token: maybe(self.registration_token),
        }
    }
}

/// What has to be found out to register an account.
#[derive(Clone, Copy, Debug, PartialEq, Eq, Structural)]
pub enum RegistrationAsk {
    /// The user ID for the username.
    DetermineUserId,
    /// The hash of the password.
    HashPassword,
    /// Whether the registration token is valid.
    ValidateToken,
    /// Whether the CAPTCHA was solved.
    VerifyRecaptcha,
    /// Whether the email address is in use.
    EmailInUse,
    /// The validation session of the email.
    SendEmail,
}

/// What has been found out.
pub struct RegistrationFacts {
    /// The user ID, or what is wrong with the username.
    pub user_id: Option<Result<String, String>>,
    /// The hash, or what is wrong with the password.
    pub password_hash: Option<Result<String, String>>,
    pub token_valid: Option<bool>,
    pub recaptcha_solved: Option<bool>,
    pub email_in_use: Option<bool>,
    /// The validation session; none where the email could not be sent.
    pub email_sent: Option<Option<String>>,
}

impl RegistrationFacts {
    /// Nothing is known.
    pub fn new() -> (r: RegistrationFacts)
        ensures
            r == (RegistrationFacts {
                user_id: None,
                password_hash: None,
                token_valid: None,
                recaptcha_solved: None,
                email_in_use: None,
                email_sent: None,
            }),
    {
        RegistrationFacts {
            user_id: None,
            password_hash: None,
            token_valid: None,
            recaptcha_solved: None,
            email_in_use: None,
            email_sent: None,
        }
    }
}

/// What registering an account gives.
pub enum RegistrationStep {
    /// The way to register that the form uses is not there: nothing is made, and the page says
    /// so.
    Unavailable,
    Ask(RegistrationAsk),
    BadRequest(&'static str),
    Refused(ValidationErrors),
    /// The account is to be made once the email address has been validated.
    AwaitValidation { registration: CompletedRegistration, session_id: String },
    /// The account is to be made, and the user to be logged in.
    Complete(CompletedRegistration),
}

pub enum RegistrationStepView {
    Unavailable,
    Ask(RegistrationAsk),
    BadRequest(&'static str),
    Refused(Seq<FieldErrorView>),
    AwaitValidation { registration: CompletedView, session_id: Seq<char> },
    Complete(CompletedView),
}

impl View for RegistrationStep {
    type V = RegistrationStepView;

    open spec fn view(&self) -> RegistrationStepView {
        match *self {
            RegistrationStep::Unavailable => RegistrationStepView::Unavailable,
            RegistrationStep::Ask(ask) => RegistrationStepView::Ask(ask),
            RegistrationStep::BadRequest(text) => RegistrationStepView::BadRequest(text),
            RegistrationStep::Refused(errors) => RegistrationStepView::Refused(errors@),
            RegistrationStep::AwaitValidation { registration, session_id } =>
                RegistrationStepView::AwaitValidation {
                registration: registration@,
                session_id: session_id@,
            },
            RegistrationStep::Complete(registration) => RegistrationStepView::Complete(
                registration@,
            ),
        }
    }
}

pub open spec fn refused(
    field: &'static str,
    code: &'static str,
    message: Seq<char>,
) -> RegistrationStepView {
    RegistrationStepView::Refused(seq![FieldErrorView { field, code, message }])
}

fn refuse(field: &'static str, code: &'static str, message: &str) -> (r: RegistrationStep)
    ensures
        r@ == refused(field, code, message@),
{
    RegistrationStep::Refused(ValidationErrors::one(field, code, message))
}

/// The fields of the form that show that the user may register: `Ok` if they do.
pub open spec fn proof_of_trust(
    form: RegistrationForm,
    config: RegistrationConfig,
    facts: RegistrationFacts,
) -> Result<(), RegistrationStepView> {
    match form.flow {
        RequestedRegistrationFlow::Trusted => if form.registration_token is None {
            Err(refused("registration_token", "invalid", "Invalid registration token"@))
        } else {
            match facts.token_valid {
                None => Err(RegistrationStepView::Ask(RegistrationAsk::ValidateToken)),
                Some(true) => Ok(()),
                Some(false) => Err(
                    refused("registration_token", "invalid", "Invalid registration token"@),
                ),
            }
        },
        RequestedRegistrationFlow::Untrusted => if config.open_registration || !config.recaptcha {
            Ok(())
        } else if form.recaptcha_response is None {
            Err(RegistrationStepView::BadRequest("reCAPTCHA response expected"))
        } else {
            match facts.recaptcha_solved {
                None => Err(RegistrationStepView::Ask(RegistrationAsk::VerifyRecaptcha)),
                Some(true) => Ok(()),
                Some(false) => Err(
                    refused("recaptcha", "missing", "Please complete the CAPTCHA"@),
                ),
            }
        },
    }
}

/// What happens with the email address of an account that may be made.
pub open spec fn email_step(
    form: RegistrationForm,
    config: RegistrationConfig,
    facts: RegistrationFacts,
    registration: CompletedView,
) -> RegistrationStepView {
    if !config.requires_email(form.flow) {
        RegistrationStepView::Complete(registration)
    } else if form.email is None {
        refused("email", "missing", "Please provide an email address"@)
    } else {
        match (facts.email_in_use, facts.email_sent) {
            (None, _) => RegistrationStepView::Ask(RegistrationAsk::EmailInUse),
            (Some(true), _) => refused(
                "email",
                "in_use",
                "This email address is already in use."@,
            ),
            (Some(false), None) => RegistrationStepView::Ask(RegistrationAsk::SendEmail),
            (Some(false), Some(None)) => refused(
                "email",
                "invalid",
                "Failed to send validation email. Is this address correct?"@,
            ),
            (Some(false), Some(Some(session_id))) => RegistrationStepView::AwaitValidation {
                registration,
                session_id: session_id@,
            },
        }
    }
}

/// What registering an account gives.
pub open spec fn registration_step(
    form: RegistrationForm,
    config: RegistrationConfig,
    statuses: (TrustedFlowStatus, UntrustedFlowStatus),
    facts: RegistrationFacts,
) -> RegistrationStepView {
    if flow_available(form.flow, statuses) {
        available_step(form, config, facts)
    } else {
        RegistrationStepView::Unavailable
    }
}

/// What registering an account gives where the way to register that the form uses is there.
pub open spec fn available_step(
    form: RegistrationForm,
    config: RegistrationConfig,
    facts: RegistrationFacts,
) -> RegistrationStepView {
    match facts.user_id {
        None => RegistrationStepView::Ask(RegistrationAsk::DetermineUserId),
        Some(Err(message)) => refused("username", "invalid", message@),
        Some(Ok(user_id)) => match facts.password_hash {
            None => RegistrationStepView::Ask(RegistrationAsk::HashPassword),
            Some(Err(message)) => refused("password", "invalid", message@),
            Some(Ok(hash)) => match proof_of_trust(form, config, facts) {
                Err(step) => step,
                Ok(_) => email_step(
                    form,
                    config,
                    facts,
                    CompletedView {
                        user_id: user_id@,
                        password_hash: hash@,
                        registration_token: match form.flow {
                            RequestedRegistrationFlow::Trusted => maybe(form.registration_token),
                            RequestedRegistrationFlow::Untrusted => None,
                        },
                    },
                ),
            },
        },
    }
}

fn check_trust(
    form: &RegistrationForm,
    config: &RegistrationConfig,
    facts: &RegistrationFacts,
) -> (r: Option<RegistrationStep>)
    ensures
        match proof_of_trust(*form, *config, *facts) {
            Ok(_) => r is None,
            Err(step) => r matches Some(s) && s@ == step,
        },
{
    match form.flow {
        RequestedRegistrationFlow::Trusted => {
            if form.registration_token.is_none() {
                return Some(
                    refuse("registration_token", "invalid", "Invalid registration token"),
                );
            }
            match facts.token_valid {
                None => Some(RegistrationStep::Ask(RegistrationAsk::ValidateToken)),
                Some(valid) => if valid {
                    None
                } else {
                    Some(refuse("registration_token", "invalid", "Invalid registration token"))
                },
            }
        },
        RequestedRegistrationFlow::Untrusted => {
            if config.open_registration || !config.recaptcha {
                return None;
            }
            if form.recaptcha_response.is_none() {
                return Some(RegistrationStep::BadRequest("reCAPTCHA response expected"));
            }
            match facts.recaptcha_solved {
                None => Some(RegistrationStep::Ask(RegistrationAsk::VerifyRecaptcha)),
                Some(solved) => if solved {
                    None
                } else {
                    Some(refuse("recaptcha", "missing", "Please complete the CAPTCHA"))
                },
            }
        },
    }
}

/// Registers an account, as far as that can be done before its email address has been
/// validated. `statuses` are those of [`registration_flow_status`].
pub fn begin_registration(
    form: &RegistrationForm,
    config: &RegistrationConfig,
    statuses: (TrustedFlowStatus, UntrustedFlowStatus),
    facts: &RegistrationFacts,
) -> (r: RegistrationStep)
    ensures
        r@ == registration_step(*form, *config, statuses, *facts),
{
    let unavailable = match form.flow {
        RequestedRegistrationFlow::Trusted => statuses.0 == TrustedFlowStatus::Unavailable,
        RequestedRegistrationFlow::Untrusted => statuses.1 == UntrustedFlowStatus::Unavailable,
    };
    if unavailable {
        return RegistrationStep::Unavailable;
    }
    let user_id = match &facts.user_id {
        None => {
            return RegistrationStep::Ask(RegistrationAsk::DetermineUserId);
        },
        Some(Err(message)) => {
            return refuse("username", "invalid", message.as_str());
        },
        Some(Ok(user_id)) => user_id.clone(),
    };
    let hash = match &facts.password_hash {
        None => {
            return RegistrationStep::Ask(RegistrationAsk::HashPassword);
        },
        Some(Err(message)) => {
            return refuse("password", "invalid", message.as_str());
        },
        Some(Ok(hash)) => hash.clone(),
    };
    if let Some(step) = check_trust(form, config, facts) {
        return step;
    }
    let registration_token: Option<String> = match form.flow {
        RequestedRegistrationFlow::Trusted => match &form.registration_token {
            Some(token) => Some(token.clone()),
            None => None,
        },
        RequestedRegistrationFlow::Untrusted => None,
    };
    let registration = CompletedRegistration {
        user_id,
        password_hash: HashedPassword(hash),
        registration_token,
    };
    let require_email = match form.flow {
        RequestedRegistrationFlow::Trusted => config.needs_email_with_token(),
        RequestedRegistrationFlow::Untrusted => !config.open_registration
            && config.needs_email_without_token(),
    };
    if !require_email {
        return RegistrationStep::Complete(registration);
    }
    if form.email.is_none() {
        return refuse("email", "missing", "Please provide an email address");
    }
    match facts.email_in_use {
        None => {
            return RegistrationStep::Ask(RegistrationAsk::EmailInUse);
        },
        Some(in_use) => {
            if in_use {
                return refuse("email", "in_use", "This email address is already in use.");
            }
        },
    }
    match &facts.email_sent {
        None => RegistrationStep::Ask(RegistrationAsk::SendEmail),
        Some(None) => refuse(
            "email",
            "invalid",
            "Failed to send validation email. Is this address correct?",
        ),
        Some(Some(session_id)) => RegistrationStep::AwaitValidation {
            registration,
            session_id: session_id.clone(),
        },
    }
}

/// What is done to complete a registration: the account is made, the token is marked as used,
/// and the user is logged in.
#[derive(Debug)]
pub struct Completion {
    pub user_id: String,
    pub password_hash: HashedPassword,
    pub email: Option<String>,
    pub used_token: Option<String>,
    pub session: UserSession,
}

/// Completes a registration, with the email address if one has been validated.
pub fn complete_registration(
    registration: CompletedRegistration,
    email: Option<String>,
    now: u128,
) -> (r: Completion)
    ensures
        r.user_id == registration.user_id,
        r.password_hash == registration.password_hash,
        r.email == email,
        r.used_token == registration.registration_token,
        r.session.user_id == registration.user_id,
        r.session.last_login == now,
{
    let session = UserSession { user_id: registration.user_id.clone(), last_login: now };
    Completion {
        user_id: registration.user_id,
        password_hash: registration.password_hash,
        email,
        used_token: registration.registration_token,
        session,
    }
}

/// What the page that follows the link in a registration email does next.
pub enum EmailValidationStep {
    BadRequest(&'static str),
    /// Whether the link has been followed has to be found out.
    CheckSession,
    /// The link has not been followed.
    ValidationPending,
    /// The account is to be made, with the email address, and the user to be logged in.
    Complete(CompletedRegistration),
}

/// The page that follows the link in a registration email. `registration` is the account
/// that is to be made, and `validated` whether the link has been followed.
pub fn get_register_email_validate(
    registration: Option<CompletedRegistration>,
    validated: Option<bool>,
) -> (r: EmailValidationStep)
    ensures
        r == match registration {
            None => EmailValidationStep::BadRequest(
                "Inapplicable session. What are you doing here?",
            ),
            Some(registration) => match validated {
                None => EmailValidationStep::CheckSession,
                Some(false) => EmailValidationStep::ValidationPending,
                Some(true) => EmailValidationStep::Complete(registration),
            },
        },
{
    match registration {
        None => EmailValidationStep::BadRequest("Inapplicable session. What are you doing here?"),
        Some(registration) => match validated {
            None => EmailValidationStep::CheckSession,
            Some(valid) => if valid {
                EmailValidationStep::Complete(registration)
            } else {
                EmailValidationStep::ValidationPending
            },
        },
    }
}

/// An account is made only where registration is allowed, in the configuration or for the
/// first run, and in a way that is there; with a user ID and a hash that are in order; with
/// the trusted flow only with a valid token, and with the untrusted flow, unless registration
/// is open, only with a solved CAPTCHA where those are configured.
pub proof fn law_registration_needs_proof(
    form: RegistrationForm,
    config: RegistrationConfig,
    first_run: bool,
    any_token: bool,
    facts: RegistrationFacts,
)
    requires
        ({
            let statuses = (
                trusted_status(config, first_run, any_token),
                untrusted_status(config, first_run),
            );
            let step = registration_step(form, config, statuses, facts);
            step is Complete || step is AwaitValidation
        }),
    ensures
        config.allow_registration || first_run,
        facts.user_id matches Some(Ok(_)),
        facts.password_hash matches Some(Ok(_)),
        form.flow == RequestedRegistrationFlow::Trusted ==> any_token && form.registration_token
            is Some && facts.token_valid == Some(true),
        form.flow == RequestedRegistrationFlow::Untrusted ==> config.open_registration
            || config.recaptcha || config.email_without_token(),
        form.flow == RequestedRegistrationFlow::Untrusted && !config.open_registration
            && config.recaptcha ==> facts.recaptcha_solved == Some(true),
{
}

/// Where an email address is needed no account is made before it has been validated, and
/// none for an address in use.
pub proof fn law_required_email_is_validated(
    form: RegistrationForm,
    config: RegistrationConfig,
    statuses: (TrustedFlowStatus, UntrustedFlowStatus),
    facts: RegistrationFacts,
)
    requires
        config.requires_email(form.flow),
    ensures
        !(registration_step(form, config, statuses, facts) is Complete),
        registration_step(form, config, statuses, facts) is AwaitValidation ==> form.email is Some
            && facts.email_in_use == Some(false),
{
}

/// Email is asked for where it is configured: with a token if tokens need it, and without one if
/// other registrations do and registration is not open to all.
pub proof fn law_when_email_is_required(config: RegistrationConfig)
    ensures
        config.requires_email(RequestedRegistrationFlow::Trusted) <==> (config.smtp matches Some(smtp)
            && smtp.require_email_for_token_registration),
        config.requires_email(RequestedRegistrationFlow::Untrusted) <==> !config.open_registration
            && (config.smtp matches Some(smtp) && smtp.require_email_for_registration),
        config.email_with_token() <==> (config.smtp matches Some(smtp)
            && smtp.require_email_for_token_registration),
        config.email_without_token() <==> (config.smtp matches Some(smtp)
            && smtp.require_email_for_registration),
{
}

/// Which ways to register there are. While registration is allowed, or on the first run: with a
/// token, if there is one; and without one if there is a CAPTCHA, a required email address, or
/// registration is open to all. Otherwise there is none.
pub proof fn law_ways_to_register(config: RegistrationConfig, first_run: bool, any_token: bool)
    ensures
        ({
            let allowed = config.allow_registration || first_run;
            let email = config.smtp matches Some(smtp) && smtp.require_email_for_registration;
            &&& trusted_status(config, first_run, any_token) is Available <==> allowed && any_token
            &&& untrusted_status(config, first_run) is Available <==> allowed && (config.recaptcha
                || email || config.open_registration)
            &&& untrusted_status(config, first_run) matches UntrustedFlowStatus::Available {
                require_email,
            } ==> require_email == email
        }),
{
}

/// A flow can be used if it is available.
pub proof fn law_available_flows(statuses: (TrustedFlowStatus, UntrustedFlowStatus))
    ensures
        flow_available(RequestedRegistrationFlow::Trusted, statuses) <==> statuses.0 is Available,
        flow_available(RequestedRegistrationFlow::Untrusted, statuses) <==> statuses.1 is Available,
{
}

/// What the page shows: nothing if no way is open; the username is asked for at first, and again
/// if it is not good; then the details of the flow that was chosen, which is the trusted one if
/// there is a token. A username needs a flow.
pub proof fn law_register_page(
    query: RegistrationQuery,
    config: RegistrationConfig,
    statuses: (TrustedFlowStatus, UntrustedFlowStatus),
    username_error: Option<Option<String>>,
    recaptcha_sitekey: Option<String>,
    validation_errors: ValidationErrors,
    page: RegisterPage,
)
    requires
        register_shows(
            query,
            config,
            statuses,
            username_error,
            recaptcha_sitekey,
            validation_errors,
            page,
        ),
    ensures
        ({
            let open = statuses.0 is Available || statuses.1 is Available;
            let unguided = query.username is Some && query.flow is None;
            let landed = query.username is Some && query.from_landing;
            let named_well = !landed || username_error == Some(None::<String>);
            let trusted = query.flow == Some(RequestedRegistrationFlow::Trusted) || query.token
                is Some;
            &&& page is Unavailable <==> !open
            &&& open && unguided ==> page == RegisterPage::BadRequest(
                "A flow must be provided if a username is provided",
            )
            &&& open && !unguided ==> {
                &&& page is CheckUsername <==> landed && username_error is None
                &&& landed && (username_error matches Some(Some(_))) ==> page == (
                RegisterPage::UsernamePrompt {
                    trusted_flow_status: statuses.0,
                    untrusted_flow_status: statuses.1,
                    username_error: username_error->Some_0,
                })
                &&& named_well && trusted ==> (page matches RegisterPage::DetailsPrompt {
                    username,
                    require_email,
                    flow,
                    validation_errors: errors,
                } && username == query.username && errors == validation_errors && flow == (
                RegistrationFlowParameters::Trusted { registration_token: query.token })
                    && require_email == (config.smtp matches Some(smtp)
                    && smtp.require_email_for_token_registration))
                &&& named_well && !trusted && query.flow == Some(
                    RequestedRegistrationFlow::Untrusted,
                ) ==> (page matches RegisterPage::DetailsPrompt {
                    username,
                    require_email,
                    flow,
                    validation_errors: errors,
                } && username == query.username && errors == validation_errors && flow == (
                RegistrationFlowParameters::Untrusted { recaptcha_sitekey }) && require_email == (
                config.smtp matches Some(smtp) && smtp.require_email_for_registration))
                &&& named_well && !trusted && query.flow is None ==> page == (
                RegisterPage::UsernamePrompt {
                    trusted_flow_status: statuses.0,
                    untrusted_flow_status: statuses.1,
                    username_error: None,
                })
            }
        }),
{
}

/// A form is in order exactly if the password is there and was repeated.
pub proof fn law_registration_form(form: RegistrationForm)
    ensures
        form.errors().len() == 0 <==> form.password@.len() > 0 && form.confirm_password@
            == form.password@,
        form.password@.len() == 0 ==> form.errors()[0] == (FieldErrorView {
            field: "password",
            code: "length",
            message: "Password cannot be empty"@,
        }),
        form.confirm_password@ != form.password@ ==> form.errors().last() == (FieldErrorView {
            field: "confirm_password",
            code: "must_match",
            message: "Passwords must match"@,
        }),
{
}

/// What stands between a form and an account: the username, the password's hash, and then a token
/// that is valid, or, unless registration is open to all, a CAPTCHA that was solved where there
/// are any. They come in this order, and each that fails says why.
pub proof fn law_registration_steps(
    form: RegistrationForm,
    config: RegistrationConfig,
    statuses: (TrustedFlowStatus, UntrustedFlowStatus),
    facts: RegistrationFacts,
)
    ensures
        ({
            let step = registration_step(form, config, statuses, facts);
            let trusted = form.flow == RequestedRegistrationFlow::Trusted;
            let open = if trusted {
                statuses.0 is Available
            } else {
                statuses.1 is Available
            };
            let named = open && (facts.user_id matches Some(Ok(_)));
            let hashed = named && (facts.password_hash matches Some(Ok(_)));
            let tests = !config.open_registration && config.recaptcha;
            let wrong = |field: &'static str, code: &'static str, message: Seq<char>|
                step == RegistrationStepView::Refused(seq![FieldErrorView { field, code, message }]);
            let asks = |ask: RegistrationAsk| step == RegistrationStepView::Ask(ask);
            &&& step is Unavailable <==> !open
            &&& asks(RegistrationAsk::DetermineUserId) <==> open && facts.user_id is None
            &&& open ==> (facts.user_id matches Some(Err(message)) ==> wrong(
                "username",
                "invalid",
                message@,
            ))
            &&& asks(RegistrationAsk::HashPassword) <==> named && facts.password_hash is None
            &&& named ==> (facts.password_hash matches Some(Err(message)) ==> wrong(
                "password",
                "invalid",
                message@,
            ))
            &&& asks(RegistrationAsk::ValidateToken) <==> hashed && trusted
                && form.registration_token is Some && facts.token_valid is None
            &&& hashed && trusted && (form.registration_token is None || facts.token_valid == Some(
                false,
            )) ==> wrong("registration_token", "invalid", "Invalid registration token"@)
            &&& asks(RegistrationAsk::VerifyRecaptcha) <==> hashed && !trusted && tests
                && form.recaptcha_response is Some && facts.recaptcha_solved is None
            &&& hashed && !trusted && tests && form.recaptcha_response is None ==> step
                == RegistrationStepView::BadRequest("reCAPTCHA response expected")
            &&& hashed && !trusted && tests && form.recaptcha_response is Some
                && facts.recaptcha_solved == Some(false) ==> wrong(
                "recaptcha",
                "missing",
                "Please complete the CAPTCHA"@,
            )
        }),
{
}

/// Once the proof of trust is given, an email address has to be there, unused and reachable if it
/// is required; and without that requirement the registration is complete. It is for the user and
/// the password that were found, and bears the token in the trusted flow alone.
pub proof fn law_trusted_registrations_complete(
    form: RegistrationForm,
    config: RegistrationConfig,
    statuses: (TrustedFlowStatus, UntrustedFlowStatus),
    facts: RegistrationFacts,
)
    requires
        facts.user_id matches Some(Ok(_)),
        facts.password_hash matches Some(Ok(_)),
        form.flow == RequestedRegistrationFlow::Trusted ==> statuses.0 is Available
            && form.registration_token is Some && facts.token_valid == Some(true),
        form.flow == RequestedRegistrationFlow::Untrusted ==> statuses.1 is Available && (
        config.open_registration || !config.recaptcha || form.recaptcha_response is Some
            && facts.recaptcha_solved == Some(true)),
    ensures
        ({
            let step = registration_step(form, config, statuses, facts);
            let trusted = form.flow == RequestedRegistrationFlow::Trusted;
            let registration = CompletedView {
                user_id: facts.user_id->Some_0->Ok_0@,
                password_hash: facts.password_hash->Some_0->Ok_0@,
                registration_token: if trusted {
                    Some(form.registration_token->Some_0@)
                } else {
                    None
                },
            };
            let email = config.smtp matches Some(smtp) && if trusted {
                smtp.require_email_for_token_registration
            } else {
                !config.open_registration && smtp.require_email_for_registration
            };
            let wrong = |code: &'static str, message: Seq<char>|
                step == RegistrationStepView::Refused(
                    seq![FieldErrorView { field: "email", code, message }],
                );
            &&& !email ==> step == RegistrationStepView::Complete(registration)
            &&& email && form.email is None ==> wrong("missing", "Please provide an email address"@)
            &&& email && form.email is Some ==> {
                &&& facts.email_in_use is None ==> step == RegistrationStepView::Ask(
                    RegistrationAsk::EmailInUse,
                )
                &&& facts.email_in_use == Some(true) ==> wrong(
                    "in_use",
                    "This email address is already in use."@,
                )
                &&& facts.email_in_use == Some(false) ==> {
                    &&& facts.email_sent is None ==> step == RegistrationStepView::Ask(
                        RegistrationAsk::SendEmail,
                    )
                    &&& facts.email_sent == Some(None::<String>) ==> wrong(
                        "invalid",
                        "Failed to send validation email. Is this address correct?"@,
                    )
                    &&& facts.email_sent matches Some(Some(session)) ==> step == (
                    RegistrationStepView::AwaitValidation { registration, session_id: session@ })
                }
            }
        }),
{
}

/// What is told of a registration is whom it is for and by which token.
pub proof fn law_told_of_completed_registration(it: CompletedRegistration)
    ensures
        it@.user_id == it.user_id@,
        it@.password_hash == it.password_hash.0@,
        it@.registration_token == maybe(it.registration_token),
{
}

/// The steps of a registration are told as they are.
pub proof fn law_told_of_registration_step(it: RegistrationStep)
    ensures
        it is Unavailable ==> it@ is Unavailable,
        it matches RegistrationStep::Ask(ask) ==> it@ == RegistrationStepView::Ask(ask),
        it matches RegistrationStep::BadRequest(text) ==> it@
            == RegistrationStepView::BadRequest(text),
        it matches RegistrationStep::Refused(errors) ==> it@
            == RegistrationStepView::Refused(errors@),
        it matches RegistrationStep::AwaitValidation { registration, session_id } ==> it@
            == (RegistrationStepView::AwaitValidation { registration: registration@, session_id: session_id@ }),
        it matches RegistrationStep::Complete(registration) ==> it@
            == RegistrationStepView::Complete(registration@),
{
}

} // verus!
