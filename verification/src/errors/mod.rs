//! The error taxonomy: what a store reports, what a handler reports, and what
//! reaches the HTTP boundary.

use vstd::prelude::*;
use vstd::std_specs::convert::{FromSpec, FromSpecImpl};
use vstd::string::StringExecFns;

pub mod postgres_error_codes;

verus! {

/// A failure reported by a store.
#[derive(Debug, Clone, PartialEq, Eq)]
pub enum DBError {
    /// The identifier could not be parsed, or it names no row where one is
    /// required. Carries the offending text.
    InvalidUUID(String),
    /// Any other failure of the storage backend.
    Other,
}

/// Mathematical model of a [`DBError`].
pub enum DBErrorView {
    InvalidUUID(Seq<char>),
    Other,
}

impl DBErrorView {
    /// The text shown for this error.
    pub open spec fn message(self) -> Seq<char> {
        match self {
            DBErrorView::InvalidUUID(uuid) => "Invalid UUID provided: "@ + uuid + "\n"@,
            DBErrorView::Other => "Database error occurred"@,
        }
    }
}

impl View for DBError {
    type V = DBErrorView;

    open spec fn view(&self) -> DBErrorView {
        match self {
            DBError::InvalidUUID(uuid) => DBErrorView::InvalidUUID(uuid@),
            DBError::Other => DBErrorView::Other,
        }
    }
}

impl DBError {
    /// Renders the error for an operator.
    pub fn to_string(&self) -> (text: String)
        ensures
            text@ == self@.message(),
    {
        match self {
            DBError::InvalidUUID(uuid) => {
                let mut text = String::from_str("Invalid UUID provided: ");
                text.append(uuid.as_str());
                text.append("\n");
                text
            },
            DBError::Other => String::from_str("Database error occurred"),
        }
    }
}

/// A failure as a request handler reports it.
#[derive(Debug, Clone, PartialEq)]
pub enum HandlerError {
    /// The request named something unusable. Carries what may be shown to the
    /// client.
    BadRequest(String),
    /// The request failed for a reason that is not the client's.
    InternalError(String),
}

/// Mathematical model of a [`HandlerError`].
pub enum HandlerErrorView {
    BadRequest(Seq<char>),
    InternalError(Seq<char>),
}

impl HandlerErrorView {
    /// The fixed error that hides every cause a client must not see.
    pub open spec fn default_internal_error() -> HandlerErrorView {
        HandlerErrorView::InternalError("Something went wrong! Please try again."@)
    }

    /// The handler error that a store failure is reported as: an unusable
    /// identifier is the client's fault and is named; everything else becomes
    /// the fixed internal error.
    pub open spec fn of_db_error(error: DBErrorView) -> HandlerErrorView {
        match error {
            DBErrorView::InvalidUUID(uuid) => HandlerErrorView::BadRequest(uuid),
            DBErrorView::Other => HandlerErrorView::default_internal_error(),
        }
    }

    /// The text shown for this error.
    pub open spec fn message(self) -> Seq<char> {
        match self {
            HandlerErrorView::BadRequest(reason) => "Bad Request: "@ + reason + ".\n"@,
            HandlerErrorView::InternalError(_) => "An Internal Error has occured."@,
        }
    }
}

impl View for HandlerError {
    type V = HandlerErrorView;

    open spec fn view(&self) -> HandlerErrorView {
        match self {
            HandlerError::BadRequest(reason) => HandlerErrorView::BadRequest(reason@),
            HandlerError::InternalError(reason) => HandlerErrorView::InternalError(reason@),
        }
    }
}

impl HandlerError {
    /// The error returned whenever the cause must not leak to the client.
    pub fn default_internal_error() -> (error: Self)
        ensures
            error@ == HandlerErrorView::default_internal_error(),
    {
        HandlerError::InternalError(String::from_str("Something went wrong! Please try again."))
    }

    /// Renders the error.
    pub fn to_string(&self) -> (text: String)
        ensures
            text@ == self@.message(),
    {
        match self {
            HandlerError::BadRequest(reason) => {
                let mut text = String::from_str("Bad Request: ");
                text.append(reason.as_str());
                text.append(".\n");
                text
            },
            HandlerError::InternalError(_) => String::from_str("An Internal Error has occured."),
        }
    }

    /// Reports a store failure to the client of a handler.
    pub fn from_db_error(error: DBError) -> (reported: Self)
        ensures
            reported@ == HandlerErrorView::of_db_error(error@),
    {
        match error {
            DBError::InvalidUUID(uuid) => HandlerError::BadRequest(uuid),
            DBError::Other => HandlerError::default_internal_error(),
        }
    }
}

/// A failure as the HTTP boundary answers it.
#[derive(Debug)]
pub enum APIError {
    /// Answered with status 400.
    BadRequest(String),
    /// Answered with status 500.
    InternalError(String),
}

/// Mathematical model of an [`APIError`].
pub enum APIErrorView {
    BadRequest(Seq<char>),
    InternalError(Seq<char>),
}

impl APIErrorView {
    /// The HTTP status of the response.
    pub open spec fn status(self) -> int {
        match self {
            APIErrorView::BadRequest(_) => 400,
            APIErrorView::InternalError(_) => 500,
        }
    }

    /// The text shown for this error.
    pub open spec fn message(self) -> Seq<char> {
        match self {
            APIErrorView::BadRequest(reason) => "Bad Request: "@ + reason + ".\n"@,
            APIErrorView::InternalError(_) => "An Internal Error has occured."@,
        }
    }

    /// The response that a handler error is answered with.
    pub open spec fn of_handler_error(error: HandlerErrorView) -> APIErrorView {
        match error {
            HandlerErrorView::BadRequest(reason) => APIErrorView::BadRequest(reason),
            HandlerErrorView::InternalError(reason) => APIErrorView::InternalError(reason),
        }
    }
}

impl View for APIError {
    type V = APIErrorView;

    open spec fn view(&self) -> APIErrorView {
        match self {
            APIError::BadRequest(reason) => APIErrorView::BadRequest(reason@),
            APIError::InternalError(reason) => APIErrorView::InternalError(reason@),
        }
    }
}

impl From<HandlerError> for APIError {
    fn from(value: HandlerError) -> (converted: Self) {
        match value {
            HandlerError::BadRequest(s) => Self::BadRequest(s),
            HandlerError::InternalError(s) => Self::InternalError(s),
        }
    }
}

impl FromSpecImpl<HandlerError> for APIError {
    open spec fn obeys_from_spec() -> bool {
        true
    }

    open spec fn from_spec(value: HandlerError) -> Self {
        match value {
            HandlerError::BadRequest(s) => Self::BadRequest(s),
            HandlerError::InternalError(s) => Self::InternalError(s),
        }
    }
}

impl APIError {
    /// The HTTP status that the error is answered with.
    pub fn status(&self) -> (code: u16)
        ensures
            code == self@.status(),
    {
        match self {
            APIError::BadRequest(_) => 400,
            APIError::InternalError(_) => 500,
        }
    }

    /// Renders the error.
    pub fn to_string(&self) -> (text: String)
        ensures
            text@ == self@.message(),
    {
        match self {
            APIError::BadRequest(reason) => {
                let mut text = String::from_str("Bad Request: ");
                text.append(reason.as_str());
                text.append(".\n");
                text
            },
            APIError::InternalError(_) => String::from_str("An Internal Error has occured."),
        }
    }
}

/// The two kinds of store failure stay apart all the way to the boundary: an
/// unusable identifier is answered with status 400 and names the identifier,
/// every other failure with status 500 and the fixed text.
pub proof fn lemma_failure_kinds_stay_distinguishable(error: DBError, reported: HandlerError)
    requires
        reported@ == HandlerErrorView::of_db_error(error@),
    ensures
        <APIError as FromSpec<HandlerError>>::from_spec(reported)@
            == APIErrorView::of_handler_error(reported@),
        error is InvalidUUID ==> <APIError as FromSpec<HandlerError>>::from_spec(reported)@
            == APIErrorView::BadRequest(error->InvalidUUID_0@),
        error is Other ==> <APIError as FromSpec<HandlerError>>::from_spec(reported)@
            == APIErrorView::InternalError("Something went wrong! Please try again."@),
        (error is InvalidUUID) <==> <APIError as FromSpec<HandlerError>>::from_spec(
            reported,
        )@.status() == 400,
{
}

} // verus!
