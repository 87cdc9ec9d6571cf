//! User-interactive authentication: a client completes the stages of one of several flows.

use crate::error::{Error, ErrorKind};
use crate::matrix::{
    complete_user_id, completed_user_id, is_email, localpart, localpart_of, parses_as_email,
};
use crate::oauth::OAuthTicket;
use crate::order::same_str;
use crate::store::{key1, Column, Key, KeyView};
use crate::text::{glue, trim, trimmed};
use crate::users::maybe;
use crate::web::ROUTE_PREFIX;
use vstd::prelude::*;

verus! {

/// The stages that there are.
#[derive(Clone, Copy, Debug, PartialEq, Eq, Structural)]
pub enum AuthType {
    Dummy,
    EmailIdentity,
    Msisdn,
    OAuth,
    Password,
    ReCaptcha,
    RegistrationToken,
    Sso,
    Terms,
}

/// The stages that have to be completed together.
#[derive(Debug)]
pub struct AuthFlow {
    pub stages: Vec<AuthType>,
}

/// Why a stage failed.
#[derive(Debug)]
pub struct StandardErrorBody {
    pub kind: ErrorKind,
    pub message: String,
}

#[verifier::ext_equal]
pub struct ErrorBodyView {
    pub kind: ErrorKind,
    pub message: Seq<char>,
}

impl View for StandardErrorBody {
    type V = ErrorBodyView;

    open spec fn view(&self) -> ErrorBodyView {
        ErrorBodyView { kind: self.kind, message: self.message@ }
    }
}

/// The parameters of the stages of a session.
#[derive(Debug)]
pub enum Params {
    /// JSON that the caller gave.
    Given(String),
    /// The address of the page that issues a ticket.
    TicketUrl(String),
}

pub enum ParamsView {
    Given(Seq<char>),
    TicketUrl(Seq<char>),
}

impl View for Params {
    type V = ParamsView;

    open spec fn view(&self) -> ParamsView {
        match *self {
            Params::Given(json) => ParamsView::Given(json@),
            Params::TicketUrl(url) => ParamsView::TicketUrl(url@),
        }
    }
}

impl Params {
    pub fn duplicate(&self) -> (r: Params)
        ensures
            r@ == self@,
    {
        match self {
            Params::Given(json) => Params::Given(json.clone()),
            Params::TicketUrl(url) => Params::TicketUrl(url.clone()),
        }
    }
}

/// What a client is told of its session.
#[derive(Debug)]
pub struct UiaaInfo {
    pub flows: Vec<AuthFlow>,
    pub completed: Vec<AuthType>,
    pub params: Params,
    pub session: String,
    pub auth_error: Option<StandardErrorBody>,
}

#[verifier::ext_equal]
pub struct InfoView {
    pub flows: Seq<Seq<AuthType>>,
    pub completed: Seq<AuthType>,
    pub params: ParamsView,
    pub session: Seq<char>,
    pub auth_error: Option<ErrorBodyView>,
}

pub open spec fn flows_view(flows: Seq<AuthFlow>) -> Seq<Seq<AuthType>> {
    flows.map_values(|f: AuthFlow| f.stages@)
}

impl View for UiaaInfo {
    type V = InfoView;

    open spec fn view(&self) -> InfoView {
        InfoView {
            flows: flows_view(self.flows@),
            completed: self.completed@,
            params: self.params@,
            session: self.session@,
            auth_error: match self.auth_error {
                Some(e) => Some(e@),
                None => None,
            },
        }
    }
}

/// Information about the authenticated user's identity.
///
/// A field of this struct will only be Some if the user completed a stage which provided
/// that information. If multiple stages provide the same field, authentication will fail
/// if they do not all provide _identical_ values for that field.
#[derive(Debug)]
pub struct Identity {
    /// The authenticated user's user ID, if it could be determined.
    ///
    /// This will be Some if:
    /// - The user completed a m.login.password stage
    /// - The user completed a m.login.email.identity stage, and their email has an
    ///   associated user ID
    pub localpart: Option<String>,
    /// The authenticated user's email address, if it could be determined.
    ///
    /// This will be Some if:
    /// - The user completed a m.login.email.identity stage
    /// - The user completed a m.login.password stage, and their user ID has an associated
    ///   email
    pub email: Option<String>,
}

#[verifier::ext_equal]
pub struct IdentityView {
    pub localpart: Option<Seq<char>>,
    pub email: Option<Seq<char>>,
}

impl View for Identity {
    type V = IdentityView;

    open spec fn view(&self) -> IdentityView {
        IdentityView { localpart: maybe(self.localpart), email: maybe(self.email) }
    }
}

/// Nothing is known of the user.
pub open spec fn unknown() -> IdentityView {
    IdentityView { localpart: None, email: None }
}

impl IdentityView {
    /// The user has this localpart, unless another one is known.
    pub open spec fn with_localpart(self, localpart: Seq<char>) -> Result<
        IdentityView,
        ErrorBodyView,
    > {
        match self.localpart {
            None => Ok(IdentityView { localpart: Some(localpart), ..self }),
            Some(known) => if known == localpart {
                Ok(self)
            } else {
                Err(
                    ErrorBodyView {
                        kind: ErrorKind::InvalidParam,
                        message: "User ID mismatch"@,
                    },
                )
            },
        }
    }

    /// The user has this email address, unless another one is known.
    pub open spec fn with_email(self, email: Seq<char>) -> Result<IdentityView, ErrorBodyView> {
        match self.email {
            None => Ok(IdentityView { email: Some(email), ..self }),
            Some(known) => if known == email {
                Ok(self)
            } else {
                Err(
                    ErrorBodyView { kind: ErrorKind::InvalidParam, message: "Email mismatch"@ },
                )
            },
        }
    }
}

fn body(kind: ErrorKind, message: &str) -> (r: StandardErrorBody)
    ensures
        r@ == (ErrorBodyView { kind, message: message@ }),
{
    StandardErrorBody { kind, message: message.to_owned() }
}

impl Identity {
    pub fn unknown() -> (r: Identity)
        ensures
            r@ == unknown(),
    {
        Identity { localpart: None, email: None }
    }

    pub fn try_set_localpart(&mut self, localpart: &str) -> (r: Result<(), StandardErrorBody>)
        ensures
            match old(self)@.with_localpart(localpart@) {
                Ok(view) => r is Ok && final(self)@ == view,
                Err(view) => (r matches Err(e) && e@ == view) && final(self)@ == old(self)@,
            },
    {
        match &self.localpart {
            None => {
                self.localpart = Some(localpart.to_owned());
                Ok(())
            },
            Some(known) => {
                if same_str(known.as_str(), localpart) {
                    Ok(())
                } else {
                    Err(body(ErrorKind::InvalidParam, "User ID mismatch"))
                }
            },
        }
    }

    pub fn try_set_email(&mut self, email: &str) -> (r: Result<(), StandardErrorBody>)
        ensures
            match old(self)@.with_email(email@) {
                Ok(view) => r is Ok && final(self)@ == view,
                Err(view) => (r matches Err(e) && e@ == view) && final(self)@ == old(self)@,
            },
    {
        match &self.email {
            None => {
                self.email = Some(email.to_owned());
                Ok(())
            },
            Some(known) => {
                if same_str(known.as_str(), email) {
                    Ok(())
                } else {
                    Err(body(ErrorKind::InvalidParam, "Email mismatch"))
                }
            },
        }
    }

    /// Create an Identity with the localpart of the provided user ID and all other fields
    /// set to None.
    pub fn from_user_id(user_id: &str) -> (r: Identity)
        requires
            user_id@.len() > 0,
            user_id@[0] == '@',
        ensures
            r@ == (IdentityView { localpart: Some(localpart(user_id@)), email: None }),
    {
        Identity { localpart: Some(localpart_of(user_id)), email: None }
    }

    pub fn duplicate(&self) -> (r: Identity)
        ensures
            r@ == self@,
    {
        Identity {
            localpart: match &self.localpart {
                Some(l) => Some(l.clone()),
                None => None,
            },
            email: match &self.email {
                Some(e) => Some(e.clone()),
                None => None,
            },
        }
    }
}

/// What a session knows of its user.
#[derive(Debug)]
pub enum UiaaSessionMetadata {
    Legacy { identity: Identity },
    OAuth { localpart: String, ticket: OAuthTicket },
}

pub enum MetadataView {
    Legacy { identity: IdentityView },
    OAuth { localpart: Seq<char>, ticket: OAuthTicket },
}

impl View for UiaaSessionMetadata {
    type V = MetadataView;

    open spec fn view(&self) -> MetadataView {
        match *self {
            UiaaSessionMetadata::Legacy { identity } => MetadataView::Legacy {
                identity: identity@,
            },
            UiaaSessionMetadata::OAuth { localpart, ticket } => MetadataView::OAuth {
                localpart: localpart@,
                ticket,
            },
        }
    }
}

impl MetadataView {
    pub open spec fn identity(self) -> IdentityView {
        match self {
            MetadataView::Legacy { identity } => identity,
            MetadataView::OAuth { localpart, .. } => IdentityView {
                localpart: Some(localpart),
                email: None,
            },
        }
    }
}

impl UiaaSessionMetadata {
    pub fn into_identity(self) -> (r: Identity)
        ensures
            r@ == self@.identity(),
    {
        match self {
            UiaaSessionMetadata::Legacy { identity } => identity,
            UiaaSessionMetadata::OAuth { localpart, .. } => Identity {
                localpart: Some(localpart),
                email: None,
            },
        }
    }

    pub fn duplicate(&self) -> (r: UiaaSessionMetadata)
        ensures
            r@ == self@,
    {
        match self {
            UiaaSessionMetadata::Legacy { identity } => UiaaSessionMetadata::Legacy {
                identity: identity.duplicate(),
            },
            UiaaSessionMetadata::OAuth { localpart, ticket } => UiaaSessionMetadata::OAuth {
                localpart: localpart.clone(),
                ticket: *ticket,
            },
        }
    }
}

/// A session.
#[derive(Debug)]
pub struct UiaaSession {
    pub session_metadata: UiaaSessionMetadata,
    pub info: UiaaInfo,
}

#[verifier::ext_equal]
pub struct SessionView {
    pub metadata: MetadataView,
    pub info: InfoView,
}

impl View for UiaaSession {
    type V = SessionView;

    open spec fn view(&self) -> SessionView {
        SessionView { metadata: self.session_metadata@, info: self.info@ }
    }
}

/// Whom a client names when it sends a password.
#[derive(Debug)]
pub enum UserIdentifier {
    /// A user ID or localpart.
    Matrix(String),
    Email(String),
    Other,
}

/// What a client sends to complete a stage.
#[derive(Debug)]
pub enum AuthData {
    Dummy,
    EmailIdentity,
    OAuth,
    Password { identifier: UserIdentifier },
    ReCaptcha,
    RegistrationToken,
    Terms,
    /// The client asks whether a stage has been completed elsewhere.
    FallbackAcknowledgement,
    Msisdn,
    Sso,
    /// A stage of a type that no flow holds.
    Unknown,
}

impl AuthData {
    /// The stage that the data is for, if it is one that a flow can hold.
    pub open spec fn stage(self) -> Option<AuthType> {
        match self {
            AuthData::Dummy => Some(AuthType::Dummy),
            AuthData::EmailIdentity => Some(AuthType::EmailIdentity),
            AuthData::OAuth => Some(AuthType::OAuth),
            AuthData::Password { .. } => Some(AuthType::Password),
            AuthData::ReCaptcha => Some(AuthType::ReCaptcha),
            AuthData::RegistrationToken => Some(AuthType::RegistrationToken),
            AuthData::Terms => Some(AuthType::Terms),
            AuthData::Msisdn => Some(AuthType::Msisdn),
            AuthData::Sso => Some(AuthType::Sso),
            AuthData::FallbackAcknowledgement => None,
            AuthData::Unknown => None,
        }
    }

    pub fn auth_type(&self) -> (r: Option<AuthType>)
        ensures
            r == self.stage(),
    {
        match self {
            AuthData::Dummy => Some(AuthType::Dummy),
            AuthData::EmailIdentity => Some(AuthType::EmailIdentity),
            AuthData::OAuth => Some(AuthType::OAuth),
            AuthData::Password { .. } => Some(AuthType::Password),
            AuthData::ReCaptcha => Some(AuthType::ReCaptcha),
            AuthData::RegistrationToken => Some(AuthType::RegistrationToken),
            AuthData::Terms => Some(AuthType::Terms),
            AuthData::Msisdn => Some(AuthType::Msisdn),
            AuthData::Sso => Some(AuthType::Sso),
            AuthData::FallbackAcknowledgement => None,
            AuthData::Unknown => None,
        }
    }
}

/// What has to be found out next to check a stage.
#[derive(Clone, Copy, Debug, PartialEq, Eq, Structural)]
pub enum StageAsk {
    /// Whether the session's ticket can be consumed.
    ConsumeTicket,
    /// The email address of the client's validation session.
    ThreepidSession,
    /// The localpart of the user with that email address.
    LocalpartForEmail,
    /// Whether the password is that of the user named.
    CheckPassword,
    /// The email address of the user named.
    EmailForLocalpart,
    /// Whether the CAPTCHA was solved.
    VerifyRecaptcha,
    /// Whether the registration token is valid; if so, it is used.
    UseToken,
}

/// What has been found out.
pub struct StageFacts {
    pub ticket_consumed: Option<bool>,
    /// The email address of the validation session, or why there is none.
    pub threepid_session: Option<Result<String, String>>,
    pub localpart_for_email: Option<Option<String>>,
    pub password_right: Option<bool>,
    pub email_for_localpart: Option<Option<String>>,
    pub recaptcha_solved: Option<bool>,
    pub token_used: Option<bool>,
}

impl StageFacts {
    /// Nothing is known.
    pub fn new() -> (r: StageFacts)
        ensures
            r == (StageFacts {
                ticket_consumed: None,
                threepid_session: None,
                localpart_for_email: None,
                password_right: None,
                email_for_localpart: None,
                recaptcha_solved: None,
                token_used: None,
            }),
    {
        StageFacts {
            ticket_consumed: None,
            threepid_session: None,
            localpart_for_email: None,
            password_right: None,
            email_for_localpart: None,
            recaptcha_solved: None,
            token_used: None,
        }
    }
}

/// What checking a stage gives.
pub enum StageOutcome {
    Ask(StageAsk),
    Completed(AuthType, UiaaSessionMetadata),
    Failed(StandardErrorBody),
}

pub enum StageView {
    Ask(StageAsk),
    Completed(AuthType, MetadataView),
    Failed(ErrorBodyView),
}

impl View for StageOutcome {
    type V = StageView;

    open spec fn view(&self) -> StageView {
        match *self {
            StageOutcome::Ask(ask) => StageView::Ask(ask),
            StageOutcome::Completed(stage, metadata) => StageView::Completed(stage, metadata@),
            StageOutcome::Failed(error) => StageView::Failed(error@),
        }
    }
}

pub open spec fn failed(kind: ErrorKind, message: Seq<char>) -> StageView {
    StageView::Failed(ErrorBodyView { kind, message })
}

/// The user whom a client names with its password. `by_email` is the localpart of the user
/// with the email address that it gave.
pub open spec fn named_user(
    identifier: UserIdentifier,
    by_email: Option<Option<String>>,
    server_name: Seq<char>,
) -> Option<Seq<char>> {
    match identifier {
        UserIdentifier::Matrix(user) => completed_user_id(user@, server_name).ok(),
        UserIdentifier::Email(_) => match by_email {
            Some(Some(localpart)) => completed_user_id(localpart@, server_name).ok(),
            _ => None,
        },
        UserIdentifier::Other => None,
    }
}

/// The user whom a client names with its password.
pub fn password_user(
    identifier: &UserIdentifier,
    by_email: &Option<Option<String>>,
    server_name: &str,
) -> (r: Option<String>)
    ensures
        match r {
            Some(user) => named_user(*identifier, *by_email, server_name@) == Some(user@)
                && user@.len() > 0 && user@[0] == '@',
            None => named_user(*identifier, *by_email, server_name@) is None,
        },
{
    match identifier {
        UserIdentifier::Matrix(user) => complete_user_id(user.as_str(), server_name).ok(),
        UserIdentifier::Email(_) => match by_email {
            Some(Some(localpart)) => complete_user_id(localpart.as_str(), server_name).ok(),
            _ => None,
        },
        UserIdentifier::Other => None,
    }
}

/// What checking an email stage gives.
pub open spec fn email_stage(identity: IdentityView, facts: StageFacts) -> StageView {
    match facts.threepid_session {
        None => StageView::Ask(StageAsk::ThreepidSession),
        Some(Err(message)) => failed(ErrorKind::ThreepidAuthFailed, message@),
        Some(Ok(email)) => match facts.localpart_for_email {
            None => StageView::Ask(StageAsk::LocalpartForEmail),
            Some(known) => {
                let named = match known {
                    Some(localpart) => identity.with_localpart(localpart@),
                    None => Ok(identity),
                };
                match named {
                    Err(e) => StageView::Failed(e),
                    Ok(identity) => match identity.with_email(email@) {
                        Err(e) => StageView::Failed(e),
                        Ok(identity) => StageView::Completed(
                            AuthType::EmailIdentity,
                            MetadataView::Legacy { identity },
                        ),
                    },
                }
            },
        },
    }
}

/// What checking a password stage gives, once it is clear that the user can be looked up.
pub open spec fn password_stage_for(
    identity: IdentityView,
    identifier: UserIdentifier,
    facts: StageFacts,
    server_name: Seq<char>,
) -> StageView {
    match named_user(identifier, facts.localpart_for_email, server_name) {
        None => failed(ErrorKind::InvalidParam, "User ID is malformed"@),
        Some(user) => match facts.password_right {
            None => StageView::Ask(StageAsk::CheckPassword),
            Some(false) => failed(ErrorKind::Forbidden, "Invalid identifier or password"@),
            Some(true) => match identity.with_localpart(localpart(user)) {
                Err(e) => StageView::Failed(e),
                Ok(identity) => match facts.email_for_localpart {
                    None => StageView::Ask(StageAsk::EmailForLocalpart),
                    Some(None) => StageView::Completed(
                        AuthType::Password,
                        MetadataView::Legacy { identity },
                    ),
                    Some(Some(email)) => match identity.with_email(email@) {
                        Err(e) => StageView::Failed(e),
                        Ok(identity) => StageView::Completed(
                            AuthType::Password,
                            MetadataView::Legacy { identity },
                        ),
                    },
                },
            },
        },
    }
}

/// What checking a password stage gives.
pub open spec fn password_stage(
    identity: IdentityView,
    identifier: UserIdentifier,
    facts: StageFacts,
    server_name: Seq<char>,
) -> StageView {
    match identifier {
        UserIdentifier::Other => failed(
            ErrorKind::Unrecognized,
            "Identifier type not recognized"@,
        ),
        UserIdentifier::Matrix(_) => password_stage_for(identity, identifier, facts, server_name),
        UserIdentifier::Email(email) => if !is_email(email@) {
            failed(ErrorKind::InvalidParam, "Email is malformed"@)
        } else {
            match facts.localpart_for_email {
                None => StageView::Ask(StageAsk::LocalpartForEmail),
                Some(None) => failed(ErrorKind::Forbidden, "Invalid identifier or password"@),
                Some(Some(_)) => match identity.with_email(email@) {
                    Err(e) => StageView::Failed(e),
                    Ok(identity) => password_stage_for(identity, identifier, facts, server_name),
                },
            }
        },
    }
}

/// What checking a stage gives. `recaptcha` tells whether CAPTCHAs are configured.
pub open spec fn stage_of(
    auth: AuthData,
    metadata: MetadataView,
    facts: StageFacts,
    server_name: Seq<char>,
    recaptcha: bool,
) -> StageView {
    match metadata {
        MetadataView::OAuth { .. } => match facts.ticket_consumed {
            None => StageView::Ask(StageAsk::ConsumeTicket),
            Some(true) => StageView::Completed(AuthType::OAuth, metadata),
            Some(false) => failed(ErrorKind::Forbidden, "No OAuth ticket available"@),
        },
        MetadataView::Legacy { identity } => match auth {
            AuthData::Dummy => StageView::Completed(AuthType::Dummy, metadata),
            AuthData::Terms => StageView::Completed(AuthType::Terms, metadata),
            AuthData::EmailIdentity => email_stage(identity, facts),
            AuthData::Password { identifier } => password_stage(
                identity,
                identifier,
                facts,
                server_name,
            ),
            AuthData::ReCaptcha => if !recaptcha {
                failed(ErrorKind::Forbidden, "ReCaptcha is not configured"@)
            } else {
                match facts.recaptcha_solved {
                    None => StageView::Ask(StageAsk::VerifyRecaptcha),
                    Some(true) => StageView::Completed(AuthType::ReCaptcha, metadata),
                    Some(false) => failed(
                        ErrorKind::Forbidden,
                        "ReCaptcha verification failed"@,
                    ),
                }
            },
            AuthData::RegistrationToken => match facts.token_used {
                None => StageView::Ask(StageAsk::UseToken),
                Some(true) => StageView::Completed(AuthType::RegistrationToken, metadata),
                Some(false) => failed(ErrorKind::Forbidden, "Invalid registration token"@),
            },
            _ => failed(ErrorKind::Unrecognized, "Unsupported stage type"@),
        },
    }
}

fn fail(kind: ErrorKind, message: &str) -> (r: StageOutcome)
    ensures
        r@ == failed(kind, message@),
{
    StageOutcome::Failed(body(kind, message))
}

fn check_email(identity: Identity, facts: &StageFacts) -> (r: StageOutcome)
    ensures
        r@ == email_stage(identity@, *facts),
{
    let email = match &facts.threepid_session {
        None => {
            return StageOutcome::Ask(StageAsk::ThreepidSession);
        },
        Some(Err(message)) => {
            return fail(ErrorKind::ThreepidAuthFailed, message.as_str());
        },
        Some(Ok(email)) => email,
    };
    let known = match &facts.localpart_for_email {
        None => {
            return StageOutcome::Ask(StageAsk::LocalpartForEmail);
        },
        Some(known) => known,
    };
    let mut identity = identity;
    if let Some(localpart) = known {
        if let Err(e) = identity.try_set_localpart(localpart.as_str()) {
            return StageOutcome::Failed(e);
        }
    }
    if let Err(e) = identity.try_set_email(email.as_str()) {
        return StageOutcome::Failed(e);
    }
    StageOutcome::Completed(AuthType::EmailIdentity, UiaaSessionMetadata::Legacy { identity })
}

fn check_password_for(
    identity: Identity,
    identifier: &UserIdentifier,
    facts: &StageFacts,
    server_name: &str,
) -> (r: StageOutcome)
    ensures
        r@ == password_stage_for(identity@, *identifier, *facts, server_name@),
{
    let user = match password_user(identifier, &facts.localpart_for_email, server_name) {
        None => {
            return fail(ErrorKind::InvalidParam, "User ID is malformed");
        },
        Some(user) => user,
    };
    match facts.password_right {
        None => {
            return StageOutcome::Ask(StageAsk::CheckPassword);
        },
        Some(right) => {
            if !right {
                return fail(ErrorKind::Forbidden, "Invalid identifier or password");
            }
        },
    }
    let mut identity = identity;
    let own = localpart_of(user.as_str());
    if let Err(e) = identity.try_set_localpart(own.as_str()) {
        return StageOutcome::Failed(e);
    }
    match &facts.email_for_localpart {
        None => {
            return StageOutcome::Ask(StageAsk::EmailForLocalpart);
        },
        Some(None) => {},
        Some(Some(email)) => {
            if let Err(e) = identity.try_set_email(email.as_str()) {
                return StageOutcome::Failed(e);
            }
        },
    }
    StageOutcome::Completed(AuthType::Password, UiaaSessionMetadata::Legacy { identity })
}

fn check_password_stage(
    identity: Identity,
    identifier: &UserIdentifier,
    facts: &StageFacts,
    server_name: &str,
) -> (r: StageOutcome)
    ensures
        r@ == password_stage(identity@, *identifier, *facts, server_name@),
{
    match identifier {
        UserIdentifier::Other => fail(ErrorKind::Unrecognized, "Identifier type not recognized"),
        UserIdentifier::Matrix(_) => check_password_for(identity, identifier, facts, server_name),
        UserIdentifier::Email(email) => {
            if !parses_as_email(email.as_str()) {
                return fail(ErrorKind::InvalidParam, "Email is malformed");
            }
            match &facts.localpart_for_email {
                None => StageOutcome::Ask(StageAsk::LocalpartForEmail),
                Some(None) => fail(ErrorKind::Forbidden, "Invalid identifier or password"),
                Some(Some(_)) => {
                    let mut identity = identity;
                    if let Err(e) = identity.try_set_email(email.as_str()) {
                        return StageOutcome::Failed(e);
                    }
                    check_password_for(identity, identifier, facts, server_name)
                },
            }
        },
    }
}

/// Check if the provided authentication data is valid. In a session of an OAuth client it
/// is for the OAuth stage.
///
/// Returns the completed stage's type on success and error information on failure, or what
/// has to be found out first.
pub fn check_stage(
    auth: &AuthData,
    session_metadata: UiaaSessionMetadata,
    facts: &StageFacts,
    server_name: &str,
    recaptcha: bool,
) -> (r: StageOutcome)
    requires
        session_metadata is OAuth ==> auth is OAuth,
    ensures
        r@ == stage_of(*auth, session_metadata@, *facts, server_name@, recaptcha),
{
    let identity = match session_metadata {
        UiaaSessionMetadata::OAuth { localpart, ticket } => {
            return match facts.ticket_consumed {
                None => StageOutcome::Ask(StageAsk::ConsumeTicket),
                Some(consumed) => if consumed {
                    StageOutcome::Completed(
                        AuthType::OAuth,
                        UiaaSessionMetadata::OAuth { localpart, ticket },
                    )
                } else {
                    fail(ErrorKind::Forbidden, "No OAuth ticket available")
                },
            };
        },
        UiaaSessionMetadata::Legacy { identity } => identity,
    };
    match auth {
        AuthData::Dummy => StageOutcome::Completed(
            AuthType::Dummy,
            UiaaSessionMetadata::Legacy { identity },
        ),
        AuthData::Terms => StageOutcome::Completed(
            AuthType::Terms,
            UiaaSessionMetadata::Legacy { identity },
        ),
        AuthData::EmailIdentity => check_email(identity, facts),
        AuthData::Password { identifier } => check_password_stage(
            identity,
            identifier,
            facts,
            server_name,
        ),
        AuthData::ReCaptcha => {
            if !recaptcha {
                return fail(ErrorKind::Forbidden, "ReCaptcha is not configured");
            }
            match facts.recaptcha_solved {
                None => StageOutcome::Ask(StageAsk::VerifyRecaptcha),
                Some(solved) => if solved {
                    StageOutcome::Completed(
                        AuthType::ReCaptcha,
                        UiaaSessionMetadata::Legacy { identity },
                    )
                } else {
                    fail(ErrorKind::Forbidden, "ReCaptcha verification failed")
                },
            }
        },
        AuthData::RegistrationToken => match facts.token_used {
            None => StageOutcome::Ask(StageAsk::UseToken),
            Some(used) => if used {
                StageOutcome::Completed(
                    AuthType::RegistrationToken,
                    UiaaSessionMetadata::Legacy { identity },
                )
            } else {
                fail(ErrorKind::Forbidden, "Invalid registration token")
            },
        },
        _ => fail(ErrorKind::Unrecognized, "Unsupported stage type"),
    }
}

/// All stages of a flow have been completed.
pub open spec fn flow_completed(flow: Seq<AuthType>, completed: Seq<AuthType>) -> bool {
    forall|i: int| 0 <= i < flow.len() ==> completed.contains(#[trigger] flow[i])
}

/// All stages of one of the flows have been completed.
pub open spec fn any_completed(flows: Seq<Seq<AuthType>>, completed: Seq<AuthType>) -> bool {
    exists|i: int| 0 <= i < flows.len() && flow_completed(#[trigger] flows[i], completed)
}

/// One of the flows holds the stage.
pub open spec fn in_flows(flows: Seq<Seq<AuthType>>, stage: AuthType) -> bool {
    exists|i: int| 0 <= i < flows.len() && (#[trigger] flows[i]).contains(stage)
}

fn has_stage(stages: &Vec<AuthType>, stage: AuthType) -> (r: bool)
    ensures
        r == stages@.contains(stage),
{
    let mut i: usize = 0;
    while i < stages.len()
        invariant
            i <= stages@.len(),
            forall|j: int| 0 <= j < i ==> #[trigger] stages@[j] != stage,
        decreases stages@.len() - i,
    {
        if stages[i] == stage {
            return true;
        }
        i = i + 1;
    }
    false
}

fn stage_in_flows(flows: &Vec<AuthFlow>, stage: AuthType) -> (r: bool)
    ensures
        r == in_flows(flows_view(flows@), stage),
{
    let mut i: usize = 0;
    while i < flows.len()
        invariant
            i <= flows@.len(),
            forall|j: int|
                0 <= j < i ==> !(#[trigger] flows_view(flows@)[j]).contains(stage),
        decreases flows@.len() - i,
    {
        assert(flows_view(flows@)[i as int] == flows@[i as int].stages@);
        if has_stage(&flows[i].stages, stage) {
            return true;
        }
        i = i + 1;
    }
    false
}

fn is_flow_completed(flow: &Vec<AuthType>, completed: &Vec<AuthType>) -> (r: bool)
    ensures
        r == flow_completed(flow@, completed@),
{
    let mut i: usize = 0;
    while i < flow.len()
        invariant
            i <= flow@.len(),
            forall|j: int| 0 <= j < i ==> completed@.contains(#[trigger] flow@[j]),
        decreases flow@.len() - i,
    {
        if !has_stage(completed, flow[i]) {
            return false;
        }
        i = i + 1;
    }
    true
}

fn is_any_completed(flows: &Vec<AuthFlow>, completed: &Vec<AuthType>) -> (r: bool)
    ensures
        r == any_completed(flows_view(flows@), completed@),
{
    let mut i: usize = 0;
    while i < flows.len()
        invariant
            i <= flows@.len(),
            forall|j: int|
                0 <= j < i ==> !flow_completed(#[trigger] flows_view(flows@)[j], completed@),
        decreases flows@.len() - i,
    {
        assert(flows_view(flows@)[i as int] == flows@[i as int].stages@);
        if is_flow_completed(&flows[i].stages, completed) {
            return true;
        }
        i = i + 1;
    }
    false
}

fn copy_stages(stages: &Vec<AuthType>) -> (r: Vec<AuthType>)
    ensures
        r@ == stages@,
{
    let mut out: Vec<AuthType> = Vec::new();
    let mut i: usize = 0;
    while i < stages.len()
        invariant
            i <= stages@.len(),
            out@ == stages@.take(i as int),
        decreases stages@.len() - i,
    {
        out.push(stages[i]);
        proof {
            assert(stages@.take(i + 1) =~= stages@.take(i as int).push(stages@[i as int]));
        }
        i = i + 1;
    }
    assert(out@ =~= stages@);
    out
}

impl UiaaInfo {
    pub fn duplicate(&self) -> (r: UiaaInfo)
        ensures
            r@ == self@,
    {
        let mut flows: Vec<AuthFlow> = Vec::new();
        let mut i: usize = 0;
        while i < self.flows.len()
            invariant
                i <= self.flows@.len(),
                flows_view(flows@) == flows_view(self.flows@).take(i as int),
            decreases self.flows@.len() - i,
        {
            let ghost before = flows_view(flows@);
            let flow = AuthFlow { stages: copy_stages(&self.flows[i].stages) };
            flows.push(flow);
            proof {
                assert(flows_view(flows@) =~= before.push(self.flows@[i as int].stages@));
                assert(flows_view(self.flows@).take(i + 1) =~= flows_view(self.flows@).take(
                    i as int,
                ).push(self.flows@[i as int].stages@));
            }
            i = i + 1;
        }
        proof {
            assert(flows_view(self.flows@).take(i as int) =~= flows_view(self.flows@));
        }
        UiaaInfo {
            flows,
            completed: copy_stages(&self.completed),
            params: self.params.duplicate(),
            session: self.session.clone(),
            auth_error: match &self.auth_error {
                Some(e) => Some(StandardErrorBody { kind: e.kind, message: e.message.clone() }),
                None => None,
            },
        }
    }
}

/// Who starts a session.
pub struct UiaaInitiator<'a> {
    pub user_id: &'a str,
    pub device_id: &'a str,
    pub oauth_ticket: Option<OAuthTicket>,
}

impl<'a> UiaaInitiator<'a> {
    pub fn new(user_id: &'a str, device_id: &'a str) -> (r: UiaaInitiator<'a>)
        ensures
            r.user_id == user_id,
            r.device_id == device_id,
            r.oauth_ticket is None,
    {
        UiaaInitiator { user_id, device_id, oauth_ticket: None }
    }

    pub fn with_oauth_ticket(
        user_id: &'a str,
        device_id: &'a str,
        oauth_ticket: OAuthTicket,
    ) -> (r: UiaaInitiator<'a>)
        ensures
            r.user_id == user_id,
            r.device_id == device_id,
            r.oauth_ticket == Some(oauth_ticket),
    {
        UiaaInitiator { user_id, device_id, oauth_ticket: Some(oauth_ticket) }
    }
}

/// What `url::Url::join` makes of a URL and a reference.
pub uninterp spec fn joined_url(base: Seq<char>, reference: Seq<char>) -> Option<Seq<char>>;

/// `url::Url::join`: the URL that a reference names, seen from another one. It depends on the
/// two alone.
#[verifier::external_body]
fn join_url(base: &str, reference: &str) -> (r: Option<String>)
    ensures
        match r {
            Some(url) => joined_url(base@, reference@) == Some(url@),
            None => joined_url(base@, reference@) is None,
        },
{
    url::Url::parse(base).ok()?.join(reference).ok().map(|url| url.as_str().to_owned())
}

/// The address of the page that issues a ticket, on the server that clients use.
pub fn ticket_url(client_domain: &str, ticket: &OAuthTicket) -> (r: Option<String>)
    ensures
        match r {
            Some(url) => joined_url(client_domain@, ROUTE_PREFIX@ + ticket.issue_path()@) == Some(
                url@,
            ),
            None => joined_url(client_domain@, ROUTE_PREFIX@ + ticket.issue_path()@) is None,
        },
{
    let path = glue(ROUTE_PREFIX, ticket.ticket_issue_path());
    join_url(client_domain, path.as_str())
}

/// The registration token that a client means.
pub fn registration_token(token: &str) -> (r: String)
    ensures
        r@ == trimmed(token@),
{
    trim(token).to_owned()
}

/// The sessions that are under way.
pub struct Service {
    pub uiaa_sessions: Column<UiaaSession>,
}

impl View for Service {
    type V = Map<KeyView, SessionView>;

    open spec fn view(&self) -> Map<KeyView, SessionView> {
        self.uiaa_sessions@
    }
}

/// A session of an OAuth client has one flow, of the OAuth stage alone.
pub open spec fn consistent(session: SessionView) -> bool {
    session.metadata is OAuth ==> session.info.flows == seq![seq![AuthType::OAuth]]
}

/// The sessions are consistent.
pub open spec fn all_consistent(sessions: Map<KeyView, SessionView>) -> bool {
    forall|k: KeyView| #[trigger] sessions.contains_key(k) ==> consistent(sessions[k])
}

/// The session that is created for an initiator; none for an OAuth client without a ticket.
pub open spec fn new_session(
    session_id: Seq<char>,
    flows: Seq<Seq<AuthType>>,
    params: ParamsView,
    initiator: Option<UiaaInitiator>,
    is_oauth: bool,
    ticket_url: Seq<char>,
) -> Option<SessionView> {
    let info = InfoView {
        flows,
        completed: Seq::empty(),
        params,
        session: session_id,
        auth_error: None,
    };
    match initiator {
        None => Some(SessionView { metadata: MetadataView::Legacy { identity: unknown() }, info }),
        Some(initiator) => if !is_oauth {
            Some(
                SessionView {
                    metadata: MetadataView::Legacy {
                        identity: IdentityView {
                            localpart: Some(localpart(initiator.user_id@)),
                            email: None,
                        },
                    },
                    info,
                },
            )
        } else {
            match initiator.oauth_ticket {
                None => None,
                Some(ticket) => Some(
                    SessionView {
                        metadata: MetadataView::OAuth {
                            localpart: localpart(initiator.user_id@),
                            ticket,
                        },
                        info: InfoView {
                            flows: seq![seq![AuthType::OAuth]],
                            params: ParamsView::TicketUrl(ticket_url),
                            ..info
                        },
                    },
                ),
            }
        },
    }
}

/// How authentication begins.
pub enum Authentication {
    /// The client has to complete stages.
    Challenge(UiaaInfo),
    /// The session with this ID goes on with the authentication data.
    Continue(String),
    Failed(Error),
}

/// How authentication begins, and the sessions after it. `created` is the session that is
/// created where one is needed.
pub open spec fn begun(
    before: Map<KeyView, SessionView>,
    after: Map<KeyView, SessionView>,
    has_auth: bool,
    session: Option<&str>,
    new_id: Seq<char>,
    created: Option<SessionView>,
    r: Authentication,
) -> bool {
    if has_auth && session is Some {
        &&& r matches Authentication::Continue(id) && id@ == session->Some_0@
        &&& after == before
    } else {
        match created {
            None => {
                &&& r == Authentication::Failed(
                    Error::Request(
                        ErrorKind::Forbidden,
                        "Clients authorized with OAuth cannot use this route.",
                    ),
                )
                &&& after == before
            },
            Some(created) => {
                &&& after == before.insert(key1(new_id), created)
                &&& match r {
                    Authentication::Continue(id) => has_auth && id@ == new_id,
                    Authentication::Challenge(info) => !has_auth && info@ == created.info,
                    Authentication::Failed(_) => false,
                }
            },
        }
    }
}

/// What continuing a session gives.
pub enum UiaaStep {
    /// Something has to be found out first.
    Ask(StageAsk),
    /// The user is authenticated.
    Authenticated(Identity),
    /// More stages have to be completed.
    Incomplete(UiaaInfo),
    Failed(Error),
}

/// The session after its stage has been checked.
pub open spec fn after_stage(session: SessionView, stage: StageView) -> SessionView {
    match stage {
        StageView::Completed(completed, metadata) => SessionView {
            metadata,
            info: InfoView {
                completed: session.info.completed.push(completed),
                auth_error: None,
                ..session.info
            },
        },
        StageView::Failed(error) => SessionView {
            info: InfoView { auth_error: Some(error), ..session.info },
            ..session
        },
        StageView::Ask(_) => session,
    }
}

/// What continuing a session gives, and the sessions after it.
pub open spec fn continued(
    before: Map<KeyView, SessionView>,
    after: Map<KeyView, SessionView>,
    auth: AuthData,
    session_id: Seq<char>,
    facts: StageFacts,
    server_name: Seq<char>,
    recaptcha: bool,
    step: UiaaStep,
) -> bool {
    let key = key1(session_id);
    if !before.contains_key(key) {
        &&& step == UiaaStep::Failed(Error::Request(ErrorKind::InvalidParam, "Invalid session"))
        &&& after == before
    } else if auth is FallbackAcknowledgement {
        &&& step matches UiaaStep::Incomplete(info) && info@ == before[key].info
        &&& after == before
    } else if auth.stage() is None || !in_flows(before[key].info.flows, auth.stage()->Some_0) {
        &&& step == UiaaStep::Failed(
            Error::Request(ErrorKind::InvalidParam, "No flows include the supplied stage"),
        )
        &&& after == before
    } else if before[key].info.completed.contains(auth.stage()->Some_0) {
        finished(before, after, key, before[key], step)
    } else {
        let stage = stage_of(auth, before[key].metadata, facts, server_name, recaptcha);
        match stage {
            StageView::Ask(ask) => step == UiaaStep::Ask(ask) && after == before,
            _ => finished(before, after, key, after_stage(before[key], stage), step),
        }
    }
}

/// A session ends when all stages of a flow have been completed; else it is kept.
pub open spec fn finished(
    before: Map<KeyView, SessionView>,
    after: Map<KeyView, SessionView>,
    key: KeyView,
    session: SessionView,
    step: UiaaStep,
) -> bool {
    if any_completed(session.info.flows, session.info.completed) {
        &&& step matches UiaaStep::Authenticated(identity) && identity@
            == session.metadata.identity()
        &&& after == before.remove(key)
    } else {
        &&& step matches UiaaStep::Incomplete(info) && info@ == session.info
        &&& after == before.insert(key, session)
    }
}

impl Service {
    pub fn new() -> (r: Service)
        ensures
            r@ == Map::<KeyView, SessionView>::empty(),
            all_consistent(r@),
    {
        Service { uiaa_sessions: Column::new() }
    }

    /// Create a new UIAA session with a random session ID.
    ///
    /// What is known of the initiator's identity has to be what the stages say. `is_oauth`
    /// tells whether the initiator's device is an OAuth client's; its session is over when
    /// the ticket is there, and `ticket_url` is where to get one.
    ///
    /// Returns the info of the newly created session.
    pub fn create_session(
        &mut self,
        session_id: String,
        flows: Vec<AuthFlow>,
        params: Params,
        initiator: &Option<UiaaInitiator>,
        is_oauth: bool,
        ticket_url: &str,
    ) -> (r: Result<UiaaInfo, Error>)
        requires
            all_consistent(old(self)@),
            *initiator matches Some(i) ==> i.user_id@.len() > 0 && i.user_id@[0] == '@',
        ensures
            all_consistent(final(self)@),
            match new_session(
                session_id@,
                flows_view(flows@),
                params@,
                *initiator,
                is_oauth,
                ticket_url@,
            ) {
                None => {
                    &&& r == Err::<UiaaInfo, Error>(
                        Error::Request(
                            ErrorKind::Forbidden,
                            "Clients authorized with OAuth cannot use this route.",
                        ),
                    )
                    &&& final(self)@ == old(self)@
                },
                Some(session) => {
                    &&& r matches Ok(info) && info@ == session.info
                    &&& final(self)@ == old(self)@.insert(key1(session_id@), session)
                },
            },
    {
        let key = Key::of(session_id.as_str());
        let mut info = UiaaInfo {
            flows,
            completed: Vec::new(),
            params,
            session: session_id,
            auth_error: None,
        };
        let session_metadata = match initiator {
            None => UiaaSessionMetadata::Legacy { identity: Identity::unknown() },
            Some(initiator) => {
                if !is_oauth {
                    UiaaSessionMetadata::Legacy {
                        identity: Identity::from_user_id(initiator.user_id),
                    }
                } else {
                    match initiator.oauth_ticket {
                        None => {
                            return Err(
                                Error::Request(
                                    ErrorKind::Forbidden,
                                    "Clients authorized with OAuth cannot use this route.",
                                ),
                            );
                        },
                        Some(ticket) => {
                            let mut stages: Vec<AuthType> = Vec::new();
                            stages.push(AuthType::OAuth);
                            let mut flows: Vec<AuthFlow> = Vec::new();
                            flows.push(AuthFlow { stages });
                            proof {
                                assert(stages@ =~= seq![AuthType::OAuth]);
                                assert(flows_view(flows@) =~= seq![seq![AuthType::OAuth]]);
                            }
                            info.flows = flows;
                            info.params = Params::TicketUrl(ticket_url.to_owned());
                            UiaaSessionMetadata::OAuth {
                                localpart: localpart_of(initiator.user_id),
                                ticket,
                            }
                        },
                    }
                }
            },
        };
        let told = info.duplicate();
        self.uiaa_sessions.insert(key, UiaaSession { session_metadata, info });
        Ok(told)
    }

    /// Start the UIAA authentication sequence for a route, given whether the client sent
    /// authentication data, and the session that it named in it.
    ///
    /// Clients are allowed to send authentication data and no session if they want to start
    /// with it. If that happens, a new session is created here.
    pub fn authenticate(
        &mut self,
        has_auth: bool,
        session: Option<&str>,
        new_id: String,
        flows: Vec<AuthFlow>,
        params: Params,
        initiator: &Option<UiaaInitiator>,
        is_oauth: bool,
        ticket_url: &str,
    ) -> (r: Authentication)
        requires
            all_consistent(old(self)@),
            *initiator matches Some(i) ==> i.user_id@.len() > 0 && i.user_id@[0] == '@',
        ensures
            all_consistent(final(self)@),
            begun(
                old(self)@,
                final(self)@,
                has_auth,
                session,
                new_id@,
                new_session(
                    new_id@,
                    flows_view(flows@),
                    params@,
                    *initiator,
                    is_oauth,
                    ticket_url@,
                ),
                r,
            ),
    {
        if has_auth {
            if let Some(session) = session {
                return Authentication::Continue(session.to_owned());
            }
        }
        let id = new_id.clone();
        match self.create_session(new_id, flows, params, initiator, is_oauth, ticket_url) {
            Err(error) => Authentication::Failed(error),
            Ok(info) => if has_auth {
                Authentication::Continue(id)
            } else {
                Authentication::Challenge(info)
            },
        }
    }

    /// A helper to perform UIAA authentication with just a password stage.
    pub fn authenticate_password(
        &mut self,
        has_auth: bool,
        session: Option<&str>,
        new_id: String,
        initiator: UiaaInitiator,
        is_oauth: bool,
        ticket_url: &str,
    ) -> (r: Authentication)
        requires
            all_consistent(old(self)@),
            initiator.user_id@.len() > 0,
            initiator.user_id@[0] == '@',
        ensures
            all_consistent(final(self)@),
            begun(
                old(self)@,
                final(self)@,
                has_auth,
                session,
                new_id@,
                new_session(
                    new_id@,
                    seq![seq![AuthType::Password]],
                    ParamsView::Given("null"@),
                    Some(initiator),
                    is_oauth,
                    ticket_url@,
                ),
                r,
            ),
    {
        let mut stages: Vec<AuthType> = Vec::new();
        stages.push(AuthType::Password);
        let mut flows: Vec<AuthFlow> = Vec::new();
        flows.push(AuthFlow { stages });
        proof {
            assert(stages@ =~= seq![AuthType::Password]);
            assert(flows_view(flows@) =~= seq![seq![AuthType::Password]]);
        }
        self.authenticate(
            has_auth,
            session,
            new_id,
            flows,
            Params::Given("null".to_owned()),
            &Some(initiator),
            is_oauth,
            ticket_url,
        )
    }

    /// Proceed with UIAA authentication given a client's authorization data, and what has
    /// been found out about it.
    pub fn continue_session(
        &mut self,
        auth: &AuthData,
        session_id: &str,
        facts: &StageFacts,
        server_name: &str,
        recaptcha: bool,
    ) -> (r: UiaaStep)
        requires
            all_consistent(old(self)@),
        ensures
            all_consistent(final(self)@),
            continued(
                old(self)@,
                final(self)@,
                *auth,
                session_id@,
                *facts,
                server_name@,
                recaptcha,
                r,
            ),
    {
        let key = Key::of(session_id);
        let (metadata, stage, already): (UiaaSessionMetadata, AuthType, bool) =
            match self.uiaa_sessions.get(&key) {
            None => {
                return UiaaStep::Failed(
                    Error::Request(ErrorKind::InvalidParam, "Invalid session"),
                );
            },
            Some(session) => {
                if let AuthData::FallbackAcknowledgement = auth {
                    return UiaaStep::Incomplete(session.info.duplicate());
                }
                let stage = match auth.auth_type() {
                    None => {
                        return UiaaStep::Failed(
                            Error::Request(
                                ErrorKind::InvalidParam,
                                "No flows include the supplied stage",
                            ),
                        );
                    },
                    Some(stage) => stage,
                };
                if !stage_in_flows(&session.info.flows, stage) {
                    return UiaaStep::Failed(
                        Error::Request(
                            ErrorKind::InvalidParam,
                            "No flows include the supplied stage",
                        ),
                    );
                }
                (
                    session.session_metadata.duplicate(),
                    stage,
                    has_stage(&session.info.completed, stage),
                )
            },
        };
        let ghost start = self@;
        proof {
            let flows = start[key@].info.flows;
            if metadata is OAuth {
                assert(consistent(start[key@]));
                let i = choose|i: int| 0 <= i < flows.len() && (#[trigger] flows[i]).contains(stage);
                assert(flows[i] == seq![AuthType::OAuth]);
                assert(stage == AuthType::OAuth);
            }
        }
        let outcome = if already {
            None
        } else {
            match check_stage(auth, metadata, facts, server_name, recaptcha) {
                StageOutcome::Ask(ask) => {
                    return UiaaStep::Ask(ask);
                },
                other => Some(other),
            }
        };
        let mut session = match self.uiaa_sessions.take(&key) {
            None => {
                return UiaaStep::Failed(
                    Error::Request(ErrorKind::InvalidParam, "Invalid session"),
                );
            },
            Some(session) => session,
        };
        match outcome {
            None => {},
            Some(StageOutcome::Completed(completed, updated)) => {
                session.info.auth_error = None;
                session.info.completed.push(completed);
                session.session_metadata = updated;
            },
            Some(StageOutcome::Failed(error)) => {
                session.info.auth_error = Some(error);
            },
            Some(StageOutcome::Ask(_)) => {},
        }
        if is_any_completed(&session.info.flows, &session.info.completed) {
            UiaaStep::Authenticated(session.session_metadata.into_identity())
        } else {
            let told = session.info.duplicate();
            let ghost kept = session@;
            self.uiaa_sessions.insert(key, session);
            proof {
                assert(start.remove(key@).insert(key@, kept) =~= start.insert(key@, kept));
            }
            UiaaStep::Incomplete(told)
        }
    }
}

/// Authentication succeeds only if all stages of one of the session's flows have been
/// completed, and the session is over then.
pub proof fn law_all_stages_of_a_flow(
    before: Map<KeyView, SessionView>,
    after: Map<KeyView, SessionView>,
    auth: AuthData,
    session_id: Seq<char>,
    facts: StageFacts,
    server_name: Seq<char>,
    recaptcha: bool,
    step: UiaaStep,
)
    requires
        all_consistent(before),
        continued(before, after, auth, session_id, facts, server_name, recaptcha, step),
        step is Authenticated,
    ensures
        before.contains_key(key1(session_id)),
        !after.contains_key(key1(session_id)),
        exists|i: int|
            0 <= i < before[key1(session_id)].info.flows.len() && forall|j: int|
                0 <= j < (#[trigger] before[key1(session_id)].info.flows[i]).len() ==> {
                    ||| before[key1(session_id)].info.completed.contains(
                        #[trigger] before[key1(session_id)].info.flows[i][j],
                    )
                    ||| auth.stage() == Some(before[key1(session_id)].info.flows[i][j])
                },
{
    let session = before[key1(session_id)];
    let stage = auth.stage()->Some_0;
    if session.info.completed.contains(stage) {
        let i = choose|i: int|
            0 <= i < session.info.flows.len() && flow_completed(
                #[trigger] session.info.flows[i],
                session.info.completed,
            );
        assert(flow_completed(session.info.flows[i], session.info.completed));
    } else {
        let view = stage_of(auth, session.metadata, facts, server_name, recaptcha);
        let later = after_stage(session, view);
        assert(consistent(session));
        if session.metadata is OAuth {
            let k = choose|k: int|
                0 <= k < session.info.flows.len() && (#[trigger] session.info.flows[k]).contains(
                    stage,
                );
            assert(session.info.flows[k] == seq![AuthType::OAuth]);
        }
        let i = choose|i: int|
            0 <= i < session.info.flows.len() && flow_completed(
                #[trigger] session.info.flows[i],
                later.info.completed,
            );
        assert(flow_completed(session.info.flows[i], later.info.completed));
        assert forall|j: int| 0 <= j < session.info.flows[i].len() implies {
            ||| session.info.completed.contains(#[trigger] session.info.flows[i][j])
            ||| auth.stage() == Some(session.info.flows[i][j])
        } by {
            let s = session.info.flows[i][j];
            assert(later.info.completed.contains(s));
            let k = choose|k: int|
                0 <= k < later.info.completed.len() && later.info.completed[k] == s;
            if k < session.info.completed.len() {
                assert(session.info.completed[k] == s);
            }
        }
    }
}

/// A stage that fails changes nothing that is known of the user, and completes nothing.
pub proof fn law_failure_keeps_identity(session: SessionView, error: ErrorBodyView)
    ensures
        after_stage(session, StageView::Failed(error)).metadata == session.metadata,
        after_stage(session, StageView::Failed(error)).info.completed == session.info.completed,
{
}

/// What is known of the user never changes: stages that say something else fail.
pub proof fn law_identity_is_consistent(
    auth: AuthData,
    metadata: MetadataView,
    facts: StageFacts,
    server_name: Seq<char>,
    recaptcha: bool,
)
    requires
        stage_of(auth, metadata, facts, server_name, recaptcha) is Completed,
    ensures
        ({
            let known = metadata.identity();
            let later = stage_of(auth, metadata, facts, server_name, recaptcha)->Completed_1.identity();
            &&& known.localpart is Some ==> later.localpart == known.localpart
            &&& known.email is Some ==> later.email == known.email
        }),
{
}

/// In a session of an OAuth client only its ticket completes a stage.
pub proof fn law_oauth_needs_ticket(
    auth: AuthData,
    metadata: MetadataView,
    facts: StageFacts,
    server_name: Seq<char>,
    recaptcha: bool,
)
    requires
        metadata is OAuth,
        stage_of(auth, metadata, facts, server_name, recaptcha) is Completed,
    ensures
        facts.ticket_consumed == Some(true),
{
}

/// A password stage is completed only with the right password.
pub proof fn law_password_has_to_be_right(
    identifier: UserIdentifier,
    identity: IdentityView,
    facts: StageFacts,
    server_name: Seq<char>,
    recaptcha: bool,
)
    requires
        stage_of(
            AuthData::Password { identifier },
            MetadataView::Legacy { identity },
            facts,
            server_name,
            recaptcha,
        ) is Completed,
    ensures
        facts.password_right == Some(true),
{
}

/// The stages that need one fact: in a session that is no OAuth client's, a registration token
/// that was used, or a CAPTCHA that was solved where there are any, completes the stage and keeps
/// what is known of the user, and nothing else does. Dummy and terms stages always complete.
pub proof fn law_stages_complete(
    identity: IdentityView,
    facts: StageFacts,
    server_name: Seq<char>,
    recaptcha: bool,
)
    ensures
        ({
            let metadata = MetadataView::Legacy { identity };
            let stage = |auth: AuthData| stage_of(auth, metadata, facts, server_name, recaptcha);
            let done = |kind: AuthType| StageView::Completed(kind, metadata);
            let refused = |message: Seq<char>|
                StageView::Failed(ErrorBodyView { kind: ErrorKind::Forbidden, message });
            &&& stage(AuthData::Dummy) == done(AuthType::Dummy)
            &&& stage(AuthData::Terms) == done(AuthType::Terms)
            &&& stage(AuthData::RegistrationToken) == done(AuthType::RegistrationToken)
                <==> facts.token_used == Some(true)
            &&& stage(AuthData::RegistrationToken) is Completed <==> facts.token_used == Some(true)
            &&& stage(AuthData::RegistrationToken) == StageView::Ask(StageAsk::UseToken)
                <==> facts.token_used is None
            &&& stage(AuthData::RegistrationToken) == refused("Invalid registration token"@)
                <==> facts.token_used == Some(false)
            &&& stage(AuthData::ReCaptcha) == done(AuthType::ReCaptcha) <==> recaptcha
                && facts.recaptcha_solved == Some(true)
            &&& stage(AuthData::ReCaptcha) is Completed <==> recaptcha && facts.recaptcha_solved
                == Some(true)
            &&& stage(AuthData::ReCaptcha) == StageView::Ask(StageAsk::VerifyRecaptcha)
                <==> recaptcha && facts.recaptcha_solved is None
            &&& recaptcha && facts.recaptcha_solved == Some(false) ==> stage(AuthData::ReCaptcha)
                == refused("ReCaptcha verification failed"@)
            &&& !recaptcha ==> stage(AuthData::ReCaptcha) == refused(
                "ReCaptcha is not configured"@,
            )
        }),
{
}

/// The stage of an OAuth client's session completes exactly if its ticket was there to consume,
/// and says nothing new of the user. A stage that is not known here fails.
pub proof fn law_oauth_stage(
    auth: AuthData,
    metadata: MetadataView,
    facts: StageFacts,
    server_name: Seq<char>,
    recaptcha: bool,
)
    ensures
        ({
            let stage = stage_of(auth, metadata, facts, server_name, recaptcha);
            &&& metadata is OAuth ==> {
                &&& facts.ticket_consumed is None ==> stage == StageView::Ask(
                    StageAsk::ConsumeTicket,
                )
                &&& facts.ticket_consumed == Some(true) ==> stage == StageView::Completed(
                    AuthType::OAuth,
                    metadata,
                )
                &&& facts.ticket_consumed == Some(false) ==> stage == StageView::Failed(
                    ErrorBodyView {
                        kind: ErrorKind::Forbidden,
                        message: "No OAuth ticket available"@,
                    },
                )
            }
            &&& metadata is Legacy && (auth is OAuth || auth is FallbackAcknowledgement || auth
                is Msisdn || auth is Sso || auth is Unknown) ==> stage == StageView::Failed(
                ErrorBodyView {
                    kind: ErrorKind::Unrecognized,
                    message: "Unsupported stage type"@,
                },
            )
        }),
{
}

/// A password that is right completes the stage, for a user whom nothing known before
/// contradicts, and adds who the user is: the localpart, and the email address if there is one.
pub proof fn law_right_passwords_complete(
    user: Seq<char>,
    identifier: UserIdentifier,
    identity: IdentityView,
    facts: StageFacts,
    server_name: Seq<char>,
    recaptcha: bool,
)
    requires
        identifier matches UserIdentifier::Matrix(named) && (completed_user_id(
            named@,
            server_name,
        ) matches Ok(found) && found == user),
    ensures
        ({
            let stage = stage_of(
                AuthData::Password { identifier },
                MetadataView::Legacy { identity },
                facts,
                server_name,
                recaptcha,
            );
            let same_user = identity.localpart is None || identity.localpart == Some(
                localpart(user),
            );
            let email = match facts.email_for_localpart {
                Some(Some(email)) => Some(email@),
                _ => None,
            };
            let same_email = identity.email is None || email is None || identity.email == email;
            &&& stage == StageView::Ask(StageAsk::CheckPassword) <==> facts.password_right is None
            &&& facts.password_right == Some(false) ==> stage == StageView::Failed(
                ErrorBodyView {
                    kind: ErrorKind::Forbidden,
                    message: "Invalid identifier or password"@,
                },
            )
            &&& stage == StageView::Ask(StageAsk::EmailForLocalpart) <==> facts.password_right
                == Some(true) && same_user && facts.email_for_localpart is None
            &&& stage is Completed <==> facts.password_right == Some(true) && same_user
                && facts.email_for_localpart is Some && same_email
            &&& stage is Completed ==> stage == StageView::Completed(
                AuthType::Password,
                MetadataView::Legacy {
                    identity: IdentityView {
                        localpart: Some(localpart(user)),
                        email: if email is Some {
                            email
                        } else {
                            identity.email
                        },
                    },
                },
            )
        }),
{
}

/// A user who is named by an email address is the one that the address belongs to. If it belongs
/// to nobody the answer is that of a wrong password; and a right password completes the stage
/// with the address and the localpart, unless they contradict what is known.
pub proof fn law_passwords_by_email(
    address: String,
    identity: IdentityView,
    facts: StageFacts,
    server_name: Seq<char>,
    recaptcha: bool,
)
    requires
        is_email(address@),
    ensures
        ({
            let stage = stage_of(
                AuthData::Password { identifier: UserIdentifier::Email(address) },
                MetadataView::Legacy { identity },
                facts,
                server_name,
                recaptcha,
            );
            &&& stage == StageView::Ask(StageAsk::LocalpartForEmail) <==> facts.localpart_for_email
                is None
            &&& facts.localpart_for_email == Some(None::<String>) ==> stage == StageView::Failed(
                ErrorBodyView {
                    kind: ErrorKind::Forbidden,
                    message: "Invalid identifier or password"@,
                },
            )
            &&& facts.localpart_for_email matches Some(Some(known)) ==> (completed_user_id(
                known@,
                server_name,
            ) matches Ok(user) ==> {
                let same_user = identity.localpart is None || identity.localpart == Some(
                    localpart(user),
                );
                let same_email = identity.email is None || identity.email == Some(address@);
                &&& same_email && same_user && facts.password_right == Some(true)
                    && facts.email_for_localpart == Some(None::<String>) ==> stage
                    == StageView::Completed(
                    AuthType::Password,
                    MetadataView::Legacy {
                        identity: IdentityView {
                            localpart: Some(localpart(user)),
                            email: Some(address@),
                        },
                    },
                )
                &&& same_email ==> (stage == StageView::Ask(StageAsk::CheckPassword)
                    <==> facts.password_right is None)
                &&& same_email && facts.password_right == Some(false) ==> stage
                    == StageView::Failed(
                    ErrorBodyView {
                        kind: ErrorKind::Forbidden,
                        message: "Invalid identifier or password"@,
                    },
                )
                &&& !same_email ==> stage == StageView::Failed(
                    ErrorBodyView { kind: ErrorKind::InvalidParam, message: "Email mismatch"@ },
                )
                &&& same_email && !same_user && facts.password_right == Some(true) ==> stage
                    == StageView::Failed(
                    ErrorBodyView { kind: ErrorKind::InvalidParam, message: "User ID mismatch"@ },
                )
            })
        }),
{
}

/// What cannot be read as a user is refused: an identifier of another kind, a malformed email
/// address, and a name that makes no user ID.
pub proof fn law_malformed_identifiers(
    identifier: UserIdentifier,
    identity: IdentityView,
    facts: StageFacts,
    server_name: Seq<char>,
    recaptcha: bool,
)
    ensures
        ({
            let stage = stage_of(
                AuthData::Password { identifier },
                MetadataView::Legacy { identity },
                facts,
                server_name,
                recaptcha,
            );
            &&& identifier is Other ==> stage == StageView::Failed(
                ErrorBodyView {
                    kind: ErrorKind::Unrecognized,
                    message: "Identifier type not recognized"@,
                },
            )
            &&& identifier matches UserIdentifier::Email(address) ==> !is_email(address@) ==> stage
                == StageView::Failed(
                ErrorBodyView { kind: ErrorKind::InvalidParam, message: "Email is malformed"@ },
            )
            &&& identifier matches UserIdentifier::Matrix(user) ==> completed_user_id(
                user@,
                server_name,
            ) is Err ==> stage == StageView::Failed(
                ErrorBodyView { kind: ErrorKind::InvalidParam, message: "User ID is malformed"@ },
            )
        }),
{
}

/// The email stage: an address that was confirmed completes it, for a user whom nothing known
/// before contradicts, and adds the address, and the localpart of the account that it belongs to.
pub proof fn law_confirmed_emails_complete(
    identity: IdentityView,
    facts: StageFacts,
    server_name: Seq<char>,
    recaptcha: bool,
)
    ensures
        ({
            let stage = stage_of(
                AuthData::EmailIdentity,
                MetadataView::Legacy { identity },
                facts,
                server_name,
                recaptcha,
            );
            &&& stage == StageView::Ask(StageAsk::ThreepidSession) <==> facts.threepid_session
                is None
            &&& facts.threepid_session matches Some(Err(message)) ==> stage == StageView::Failed(
                ErrorBodyView { kind: ErrorKind::ThreepidAuthFailed, message: message@ },
            )
            &&& facts.threepid_session matches Some(Ok(address)) ==> {
                let owner = match facts.localpart_for_email {
                    Some(Some(owner)) => Some(owner@),
                    _ => None,
                };
                let same_user = owner is None || identity.localpart is None || identity.localpart
                    == owner;
                let same_email = identity.email is None || identity.email == Some(address@);
                &&& stage == StageView::Ask(StageAsk::LocalpartForEmail)
                    <==> facts.localpart_for_email is None
                &&& stage is Completed <==> facts.localpart_for_email is Some && same_user
                    && same_email
                &&& stage is Completed ==> stage == StageView::Completed(
                    AuthType::EmailIdentity,
                    MetadataView::Legacy {
                        identity: IdentityView {
                            localpart: if owner is Some {
                                owner
                            } else {
                                identity.localpart
                            },
                            email: Some(address@),
                        },
                    },
                )
            }
        }),
{
}

/// A stage that completes is added to those that are done and takes the last error away; one
/// that fails leaves its error behind. The flows, the parameters and the name of the session stay
/// as they are.
pub proof fn law_stage_is_recorded(session: SessionView, stage: StageView)
    ensures
        ({
            let after = after_stage(session, stage);
            &&& after.info.flows == session.info.flows
            &&& after.info.params == session.info.params
            &&& after.info.session == session.info.session
            &&& stage matches StageView::Completed(kind, metadata) ==> {
                &&& after.info.completed == session.info.completed.push(kind)
                &&& after.info.auth_error is None
                &&& after.metadata == metadata
            }
            &&& stage matches StageView::Failed(error) ==> {
                &&& after.info.auth_error == Some(error)
                &&& after.info.completed == session.info.completed
                &&& after.metadata == session.metadata
            }
            &&& stage is Ask ==> after == session
        }),
{
}

/// Once every stage of some flow is done the session is over and its user known; until then the
/// session is kept and its challenge is put again. No other session changes.
pub proof fn law_session_ends_when_a_flow_is_done(
    before: Map<KeyView, SessionView>,
    after: Map<KeyView, SessionView>,
    session_id: Seq<char>,
    session: SessionView,
    step: UiaaStep,
    other: KeyView,
    i: int,
)
    requires
        finished(before, after, key1(session_id), session, step),
    ensures
        0 <= i < session.info.flows.len() && (forall|kind: AuthType| #[trigger]
            session.info.flows[i].contains(kind) ==> session.info.completed.contains(kind))
            ==> step is Authenticated,
        step is Authenticated ==> exists|j: int|
            0 <= j < session.info.flows.len() && flow_completed(
                #[trigger] session.info.flows[j],
                session.info.completed,
            ),
        0 <= i < session.info.flows.len() && flow_completed(
            session.info.flows[i],
            session.info.completed,
        ) ==> forall|k: int|
            0 <= k < session.info.flows[i].len() ==> session.info.completed.contains(
                #[trigger] session.info.flows[i][k],
            ),
        step is Authenticated || step is Incomplete,
        step matches UiaaStep::Authenticated(identity) ==> {
            &&& !after.contains_key(key1(session_id))
            &&& session.metadata matches MetadataView::Legacy { identity: known } ==> identity@
                == known
            &&& session.metadata matches MetadataView::OAuth { localpart, .. }
                ==> identity@.localpart == Some(localpart) && identity@.email is None
        },
        step matches UiaaStep::Incomplete(info) ==> {
            &&& after.contains_key(key1(session_id)) && after[key1(session_id)] == session
            &&& info@ == session.info
        },
        other != key1(session_id) ==> after.contains_key(other) == before.contains_key(other) && (
        before.contains_key(other) ==> after[other] == before[other]),
{
    let flows = session.info.flows;
    let completed = session.info.completed;
    if 0 <= i < flows.len() && forall|kind: AuthType| #[trigger]
        flows[i].contains(kind) ==> completed.contains(kind) {
        assert forall|j: int| 0 <= j < flows[i].len() implies completed.contains(
            #[trigger] flows[i][j],
        ) by {
            assert(flows[i].contains(flows[i][j]));
        }
        assert(flow_completed(flows[i], completed));
    }
}

/// Going on with a session: one that is not known is refused, as is a stage that no flow has. A
/// stage that was done before is not gone through again, and a mere acknowledgement puts the
/// challenge again.
pub proof fn law_sessions_go_on(
    before: Map<KeyView, SessionView>,
    after: Map<KeyView, SessionView>,
    auth: AuthData,
    session_id: Seq<char>,
    facts: StageFacts,
    server_name: Seq<char>,
    recaptcha: bool,
    step: UiaaStep,
)
    requires
        continued(before, after, auth, session_id, facts, server_name, recaptcha, step),
    ensures
        ({
            let key = key1(session_id);
            let session = before[key];
            let offered = |kind: AuthType|
                exists|i: int|
                    0 <= i < session.info.flows.len() && (#[trigger] session.info.flows[i]).contains(
                        kind,
                    );
            &&& !before.contains_key(key) ==> step == UiaaStep::Failed(
                Error::Request(ErrorKind::InvalidParam, "Invalid session"),
            ) && after == before
            &&& before.contains_key(key) && auth is FallbackAcknowledgement ==> (
            step matches UiaaStep::Incomplete(info) && info@ == session.info) && after == before
            &&& before.contains_key(key) && auth is Unknown ==> step == UiaaStep::Failed(
                Error::Request(ErrorKind::InvalidParam, "No flows include the supplied stage"),
            ) && after == before
            &&& before.contains_key(key) ==> (auth.stage() matches Some(kind) ==> {
                &&& !offered(kind) ==> step == UiaaStep::Failed(
                    Error::Request(ErrorKind::InvalidParam, "No flows include the supplied stage"),
                ) && after == before
                &&& offered(kind) && session.info.completed.contains(kind) ==> finished(
                    before,
                    after,
                    key,
                    session,
                    step,
                )
                &&& offered(kind) && !session.info.completed.contains(kind) ==> {
                    let stage = stage_of(auth, session.metadata, facts, server_name, recaptcha);
                    &&& stage matches StageView::Ask(ask) ==> step == UiaaStep::Ask(ask) && after
                        == before
                    &&& !(stage is Ask) ==> finished(
                        before,
                        after,
                        key,
                        after_stage(session, stage),
                        step,
                    )
                }
            })
        }),
{
}

/// Each kind of authentication is its own stage.
pub proof fn law_stage_of_each_kind(auth: AuthData)
    ensures
        auth.stage() == Some(AuthType::Dummy) <==> auth is Dummy,
        auth.stage() == Some(AuthType::EmailIdentity) <==> auth is EmailIdentity,
        auth.stage() == Some(AuthType::OAuth) <==> auth is OAuth,
        auth.stage() == Some(AuthType::Password) <==> auth is Password,
        auth.stage() == Some(AuthType::ReCaptcha) <==> auth is ReCaptcha,
        auth.stage() == Some(AuthType::RegistrationToken) <==> auth is RegistrationToken,
        auth.stage() == Some(AuthType::Terms) <==> auth is Terms,
        auth.stage() == Some(AuthType::Msisdn) <==> auth is Msisdn,
        auth.stage() == Some(AuthType::Sso) <==> auth is Sso,
        auth.stage() is None <==> auth is FallbackAcknowledgement || auth is Unknown,
{
}

/// A new session has nothing done yet. It is an OAuth client's exactly if the one who begins it
/// is, and then needs a ticket, has the one OAuth flow, and points to where a ticket can be had;
/// such a client without a ticket gets none. Otherwise the session has the flows and parameters
/// that were given, and knows the localpart of the one who begins it, if anybody.
pub proof fn law_new_sessions(
    session_id: Seq<char>,
    flows: Seq<Seq<AuthType>>,
    params: ParamsView,
    initiator: Option<UiaaInitiator>,
    is_oauth: bool,
    ticket_url: Seq<char>,
)
    ensures
        ({
            let made = new_session(session_id, flows, params, initiator, is_oauth, ticket_url);
            let oauth = initiator is Some && is_oauth;
            &&& made is None <==> oauth && initiator->Some_0.oauth_ticket is None
            &&& made matches Some(session) ==> {
                &&& session.info.session == session_id
                &&& session.info.completed == Seq::<AuthType>::empty()
                &&& session.info.auth_error is None
                &&& !oauth ==> session.info.flows == flows && session.info.params == params
                &&& oauth ==> session.info.flows == seq![seq![AuthType::OAuth]]
                    && session.info.params == ParamsView::TicketUrl(ticket_url)
                &&& initiator is None ==> session.metadata == MetadataView::Legacy {
                    identity: IdentityView { localpart: None, email: None },
                }
                &&& initiator matches Some(who) ==> if is_oauth {
                    who.oauth_ticket matches Some(ticket) && session.metadata
                        == MetadataView::OAuth { localpart: localpart(who.user_id@), ticket }
                } else {
                    session.metadata == MetadataView::Legacy {
                        identity: IdentityView {
                            localpart: Some(localpart(who.user_id@)),
                            email: None,
                        },
                    }
                }
            }
        }),
{
}

/// A request that names its session goes on with it. Any other begins one: without
/// authentication its challenge is put, and with some it goes on at once.
pub proof fn law_authentication_begins(
    before: Map<KeyView, SessionView>,
    after: Map<KeyView, SessionView>,
    has_auth: bool,
    session: Option<&str>,
    new_id: Seq<char>,
    created: Option<SessionView>,
    r: Authentication,
)
    requires
        begun(before, after, has_auth, session, new_id, created, r),
    ensures
        has_auth ==> (session matches Some(id) ==> (r matches Authentication::Continue(named)
            && named@ == id@) && after == before),
        !(has_auth && session is Some) && created is None ==> r == Authentication::Failed(
            Error::Request(
                ErrorKind::Forbidden,
                "Clients authorized with OAuth cannot use this route.",
            ),
        ) && after == before,
        !(has_auth && session is Some) ==> (created matches Some(made) ==> {
            &&& after == before.insert(key1(new_id), made)
            &&& has_auth ==> (r matches Authentication::Continue(named) && named@ == new_id)
            &&& !has_auth ==> (r matches Authentication::Challenge(info) && info@ == made.info)
        }),
{
}

/// What is known of a user is filled in once and then has to stay the same: another localpart or
/// email address is a mismatch, and neither touches the other.
pub proof fn law_identities_are_filled_in(
    identity: IdentityView,
    localpart: Seq<char>,
    email: Seq<char>,
)
    ensures
        identity.localpart is None || identity.localpart == Some(localpart)
            ==> identity.with_localpart(localpart) == Ok::<IdentityView, ErrorBodyView>(
            IdentityView { localpart: Some(localpart), email: identity.email },
        ),
        (identity.localpart matches Some(known) && known != localpart) ==> identity.with_localpart(
            localpart,
        ) == Err::<IdentityView, ErrorBodyView>(
            ErrorBodyView { kind: ErrorKind::InvalidParam, message: "User ID mismatch"@ },
        ),
        identity.email is None || identity.email == Some(email) ==> identity.with_email(email)
            == Ok::<IdentityView, ErrorBodyView>(
            IdentityView { localpart: identity.localpart, email: Some(email) },
        ),
        (identity.email matches Some(known) && known != email) ==> identity.with_email(email)
            == Err::<IdentityView, ErrorBodyView>(
            ErrorBodyView { kind: ErrorKind::InvalidParam, message: "Email mismatch"@ },
        ),
        unknown().localpart is None && unknown().email is None,
{
}

/// Who is named by a password stage: the user of the Matrix ID, or of the account that the email
/// address belongs to, completed with this server's name.
pub proof fn law_named_users(
    identifier: UserIdentifier,
    by_email: Option<Option<String>>,
    server_name: Seq<char>,
    user: Seq<char>,
)
    ensures
        identifier matches UserIdentifier::Matrix(name) ==> (named_user(
            identifier,
            by_email,
            server_name,
        ) == Some(user) <==> completed_user_id(name@, server_name) == Ok::<Seq<char>, Seq<char>>(
            user,
        )),
        identifier is Email ==> (named_user(identifier, by_email, server_name) == Some(user) <==> (
        by_email matches Some(Some(local)) && completed_user_id(local@, server_name) == Ok::<
            Seq<char>,
            Seq<char>,
        >(user))),
        identifier is Other ==> named_user(identifier, by_email, server_name) is None,
{
}

/// An error body is told by its kind and its message.
pub proof fn law_told_of_standard_error_body(it: StandardErrorBody)
    ensures
        it@.kind == it.kind,
        it@.message == it.message@,
{
}

/// Parameters are told as they were given, or by their URL.
pub proof fn law_told_of_params(it: Params)
    ensures
        it matches Params::Given(json) ==> it@ == ParamsView::Given(json@),
        it matches Params::TicketUrl(url) ==> it@ == ParamsView::TicketUrl(url@),
{
}

/// What is told of a challenge is what it holds.
pub proof fn law_told_of_uiaa_info(it: UiaaInfo)
    ensures
        it@.flows == flows_view(it.flows@),
        it@.completed == it.completed@,
        it@.params == it.params@,
        it@.session == it.session@,
        it@.auth_error == match it.auth_error { Some(e) => Some(e@), None => None },
{
}

/// What is told of an identity is what is known of it.
pub proof fn law_told_of_identity(it: Identity)
    ensures
        it@.localpart == maybe(it.localpart),
        it@.email == maybe(it.email),
{
}

/// What is told of a session's user is what the session knows.
pub proof fn law_told_of_uiaa_session_metadata(it: UiaaSessionMetadata)
    ensures
        it matches UiaaSessionMetadata::Legacy { identity } ==> it@
            == (MetadataView::Legacy { identity: identity@ }),
        it matches UiaaSessionMetadata::OAuth { localpart, ticket } ==> it@
            == (MetadataView::OAuth { localpart: localpart@, ticket }),
{
}

/// The outcome of a stage is told as it is.
pub proof fn law_told_of_stage_outcome(it: StageOutcome)
    ensures
        it matches StageOutcome::Ask(ask) ==> it@ == StageView::Ask(ask),
        it matches StageOutcome::Completed(stage, metadata) ==> it@
            == StageView::Completed(stage, metadata@),
        it matches StageOutcome::Failed(error) ==> it@ == StageView::Failed(error@),
{
}

} // verus!
