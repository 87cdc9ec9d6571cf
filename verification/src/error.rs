//! What a request or a service call fails with.

use vstd::prelude::*;

verus! {

/// The Matrix error codes that the library answers with.
#[derive(Clone, Copy, Debug, PartialEq, Eq, Structural)]
pub enum ErrorKind {
    BadJson,
    ConnectionFailed,
    ConnectionTimeout,
    Exclusive,
    Forbidden,
    IncompatibleRoomVersion,
    InvalidParam,
    InvalidUsername,
    LimitExceeded,
    MissingParam,
    MissingToken,
    NotFound,
    NotJson,
    ThreepidAuthFailed,
    ThreepidDenied,
    ThreepidInUse,
    TooLarge,
    UnableToAuthorizeJoin,
    UnableToGrantJoin,
    Unauthorized,
    Unknown,
    UnknownToken,
    Unrecognized,
    UnsupportedRoomVersion,
    UserDeactivated,
    UserInUse,
    WeakPassword,
}

/// An error of the library, or one handed to it.
#[derive(Debug)]
pub enum Error {
    /// A request is refused.
    Request(ErrorKind, &'static str),
    /// A request is refused, for a reason that the text holds.
    RequestAbout(ErrorKind, &'static str, String),
    /// A request is refused, as the text tells.
    RequestText(ErrorKind, String),
    /// A request is refused, with an HTTP status of its own.
    RequestStatus(ErrorKind, &'static str, u16),
    /// Another server answered with something that makes no sense.
    BadServerResponse(&'static str),
    /// Another server answered with something that makes no sense, about what the text names.
    BadServerResponseAbout(&'static str, String),
    /// Another server answered with something that makes no sense, as the text tells.
    BadServerResponseText(String),
    /// What is known of the room in the text does not fit together.
    InconsistentRoomState(&'static str, String),
    /// A row of the database cannot be understood.
    BadDatabase(&'static str),
    /// A row of the database cannot be understood; the text tells more.
    BadDatabaseAbout(&'static str, String),
    /// A row of the database cannot be understood, as the text tells.
    BadDatabaseText(String),
    /// Something else went wrong.
    Other(&'static str),
    /// Something else went wrong, for a reason that the text holds.
    OtherAbout(&'static str, String),
    /// An error of a service outside the library.
    Outside(String),
}

/// The mathematical value of an [`Error`].
pub enum ErrorView {
    Request(ErrorKind, &'static str),
    RequestAbout(ErrorKind, &'static str, Seq<char>),
    RequestText(ErrorKind, Seq<char>),
    RequestStatus(ErrorKind, &'static str, u16),
    BadServerResponse(&'static str),
    BadServerResponseAbout(&'static str, Seq<char>),
    BadServerResponseText(Seq<char>),
    InconsistentRoomState(&'static str, Seq<char>),
    BadDatabase(&'static str),
    BadDatabaseAbout(&'static str, Seq<char>),
    BadDatabaseText(Seq<char>),
    Other(&'static str),
    OtherAbout(&'static str, Seq<char>),
    Outside(Seq<char>),
}

impl View for Error {
    type V = ErrorView;

    open spec fn view(&self) -> ErrorView {
        match *self {
            Error::Request(kind, message) => ErrorView::Request(kind, message),
            Error::RequestAbout(kind, message, about) => ErrorView::RequestAbout(
                kind,
                message,
                about@,
            ),
            Error::RequestText(kind, text) => ErrorView::RequestText(kind, text@),
            Error::RequestStatus(kind, message, status) => ErrorView::RequestStatus(
                kind,
                message,
                status,
            ),
            Error::BadServerResponse(message) => ErrorView::BadServerResponse(message),
            Error::BadServerResponseAbout(message, about) => ErrorView::BadServerResponseAbout(
                message,
                about@,
            ),
            Error::BadServerResponseText(text) => ErrorView::BadServerResponseText(text@),
            Error::InconsistentRoomState(message, room_id) => ErrorView::InconsistentRoomState(
                message,
                room_id@,
            ),
            Error::BadDatabase(message) => ErrorView::BadDatabase(message),
            Error::BadDatabaseAbout(message, about) => ErrorView::BadDatabaseAbout(message, about@),
            Error::BadDatabaseText(text) => ErrorView::BadDatabaseText(text@),
            Error::Other(message) => ErrorView::Other(message),
            Error::OtherAbout(message, about) => ErrorView::OtherAbout(message, about@),
            Error::Outside(text) => ErrorView::Outside(text@),
        }
    }
}

impl Clone for Error {
    fn clone(&self) -> (r: Self)
        ensures
            r == *self,
    {
        match self {
            Error::Request(kind, message) => Error::Request(*kind, *message),
            Error::RequestAbout(kind, message, about) => Error::RequestAbout(
                *kind,
                *message,
                about.clone(),
            ),
            Error::RequestText(kind, text) => Error::RequestText(*kind, text.clone()),
            Error::RequestStatus(kind, message, status) => Error::RequestStatus(
                *kind,
                *message,
                *status,
            ),
            Error::BadServerResponse(message) => Error::BadServerResponse(*message),
            Error::BadServerResponseAbout(message, about) => Error::BadServerResponseAbout(
                *message,
                about.clone(),
            ),
            Error::BadServerResponseText(text) => Error::BadServerResponseText(text.clone()),
            Error::InconsistentRoomState(message, room_id) => Error::InconsistentRoomState(
                *message,
                room_id.clone(),
            ),
            Error::BadDatabase(message) => Error::BadDatabase(*message),
            Error::BadDatabaseAbout(message, about) => Error::BadDatabaseAbout(
                *message,
                about.clone(),
            ),
            Error::BadDatabaseText(text) => Error::BadDatabaseText(text.clone()),
            Error::Other(message) => Error::Other(*message),
            Error::OtherAbout(message, about) => Error::OtherAbout(*message, about.clone()),
            Error::Outside(text) => Error::Outside(text.clone()),
        }
    }
}

/// An error is told by its kind and its words, as it is.
pub proof fn law_told_of_error(it: Error)
    ensures
        it matches Error::Request(kind, message) ==> it@ == ErrorView::Request(kind, message),
        it matches Error::RequestAbout(kind, message, about) ==> it@
            == ErrorView::RequestAbout(kind, message, about@),
        it matches Error::RequestText(kind, text) ==> it@ == ErrorView::RequestText(kind, text@),
        it matches Error::RequestStatus(kind, message, status) ==> it@
            == ErrorView::RequestStatus(kind, message, status),
        it matches Error::BadServerResponse(message) ==> it@
            == ErrorView::BadServerResponse(message),
        it matches Error::BadServerResponseAbout(message, about) ==> it@
            == ErrorView::BadServerResponseAbout(message, about@),
        it matches Error::BadServerResponseText(text) ==> it@
            == ErrorView::BadServerResponseText(text@),
        it matches Error::InconsistentRoomState(message, room_id) ==> it@
            == ErrorView::InconsistentRoomState(message, room_id@),
        it matches Error::BadDatabase(message) ==> it@ == ErrorView::BadDatabase(message),
        it matches Error::BadDatabaseAbout(message, about) ==> it@
            == ErrorView::BadDatabaseAbout(message, about@),
        it matches Error::BadDatabaseText(text) ==> it@ == ErrorView::BadDatabaseText(text@),
        it matches Error::Other(message) ==> it@ == ErrorView::Other(message),
        it matches Error::OtherAbout(message, about) ==> it@
            == ErrorView::OtherAbout(message, about@),
        it matches Error::Outside(text) ==> it@ == ErrorView::Outside(text@),
{
}

} // verus!
