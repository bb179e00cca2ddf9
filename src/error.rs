//! Errors of the library: classified API failures and the SDK's own errors.

use vstd::prelude::*;

use crate::codec::EncodingError;

verus! {

/// The class of a failed API call, derived from the HTTP status.
#[derive(Clone, Copy, Debug, PartialEq, Eq, Structural)]
pub enum ApiErrorKind {
    /// HTTP 400 - Bad Request
    BadRequest,
    /// HTTP 401 - I don't know you
    Unauthorized,
    /// HTTP 403 - I know you, but I don't like you
    Forbidden,
    /// HTTP 404 - Not Found
    NotFound,
    /// HTTP 409 - Conflict
    Conflict,
    /// HTTP 500 - Internal
    InternalServerError,
    /// HTTP 503 - Service Unavailable
    ServiceUnavailable,
    /// Any other status, or no status at all
    Unknown,
}

impl ApiErrorKind {
    pub open spec fn from_status_spec(status: Option<u16>) -> ApiErrorKind {
        match status {
            Some(400) => ApiErrorKind::BadRequest,
            Some(401) => ApiErrorKind::Unauthorized,
            Some(403) => ApiErrorKind::Forbidden,
            Some(404) => ApiErrorKind::NotFound,
            Some(409) => ApiErrorKind::Conflict,
            Some(500) => ApiErrorKind::InternalServerError,
            Some(503) => ApiErrorKind::ServiceUnavailable,
            _ => ApiErrorKind::Unknown,
        }
    }

    /// Classifies an HTTP status; `None` stands for a failure that carried no status.
    pub fn from_status(status: Option<u16>) -> (k: ApiErrorKind)
        ensures
            k == ApiErrorKind::from_status_spec(status),
    {
        match status {
            Some(400) => ApiErrorKind::BadRequest,
            Some(401) => ApiErrorKind::Unauthorized,
            Some(403) => ApiErrorKind::Forbidden,
            Some(404) => ApiErrorKind::NotFound,
            Some(409) => ApiErrorKind::Conflict,
            Some(500) => ApiErrorKind::InternalServerError,
            Some(503) => ApiErrorKind::ServiceUnavailable,
            _ => ApiErrorKind::Unknown,
        }
    }

    pub open spec fn description_spec(self) -> Seq<char> {
        match self {
            ApiErrorKind::BadRequest => "bad HTTP request"@,
            ApiErrorKind::Unauthorized => "unauthorized"@,
            ApiErrorKind::Forbidden => "permission denied"@,
            ApiErrorKind::NotFound => "resource does not exist"@,
            ApiErrorKind::Conflict => "HTTP conflict"@,
            ApiErrorKind::InternalServerError => "internal error"@,
            ApiErrorKind::ServiceUnavailable => "service is unavailable"@,
            ApiErrorKind::Unknown => "unknown fatal error"@,
        }
    }

    /// A short description of the kind, for people.
    pub fn description(&self) -> (s: &'static str)
        ensures
            s@ == self.description_spec(),
    {
        match self {
            ApiErrorKind::BadRequest => "bad HTTP request",
            ApiErrorKind::Unauthorized => "unauthorized",
            ApiErrorKind::Forbidden => "permission denied",
            ApiErrorKind::NotFound => "resource does not exist",
            ApiErrorKind::Conflict => "HTTP conflict",
            ApiErrorKind::InternalServerError => "internal error",
            ApiErrorKind::ServiceUnavailable => "service is unavailable",
            ApiErrorKind::Unknown => "unknown fatal error",
        }
    }
}

/// Whether an HTTP status reports a failure: a client error (4xx) or a server error (5xx).
pub open spec fn is_error_status(status: u16) -> bool {
    400 <= status <= 599
}

/// A failed API call: the service's own message and the class of the failure.
#[derive(Debug)]
pub struct ApiError {
    pub message: String,
    pub kind: ApiErrorKind,
}

impl PartialEq for ApiError {
    /// Two API errors are alike when they are of the same kind.
    fn eq(&self, other: &ApiError) -> (r: bool) {
        self.kind == other.kind
    }
}

impl vstd::std_specs::cmp::PartialEqSpecImpl for ApiError {
    open spec fn obeys_eq_spec() -> bool {
        true
    }

    open spec fn eq_spec(&self, other: &ApiError) -> bool {
        self.kind == other.kind
    }
}

impl ApiError {
    /// What to tell a person: the service's message, or the kind's description
    /// where the message is empty.
    pub fn text(&self) -> (s: String)
        ensures
            self.message@.len() > 0 ==> s@ == self.message@,
            self.message@.len() == 0 ==> s@ == self.kind.description_spec(),
    {
        if self.message.as_str().is_empty() {
            self.kind.description().to_owned()
        } else {
            self.message.clone()
        }
    }
}

/// Checks the status of a response: a 4xx or 5xx status becomes an error of
/// the matching kind that carries the service's `detail` message.
pub fn map_api_error(status: u16, detail: String) -> (r: Result<(), ApiError>)
    ensures
        !is_error_status(status) ==> r is Ok,
        is_error_status(status) ==> match r {
            Ok(_) => false,
            Err(e) => e.kind == ApiErrorKind::from_status_spec(Some(status)) && e.message@
                == detail@,
        },
{
    if 400 <= status && status <= 599 {
        Err(ApiError { message: detail, kind: ApiErrorKind::from_status(Some(status)) })
    } else {
        Ok(())
    }
}

/// Errors of the SDK itself.
#[derive(Debug, PartialEq)]
pub enum SeaplaneError {
    /// A request was built without a token for Bearer Authorization.
    MissingRequestAuthToken,
    /// A restriction request was built with a target that the endpoint does not take.
    IncorrectRestrictRequestTarget,
    /// A request that needs a Formation name was built without one.
    MissingFormationName,
    /// An empty set of active configurations was given without `force`.
    MissingActiveConfiguration,
    /// A URL could not be parsed or joined.
    UrlParse,
    /// Malformed base64 text.
    Encoding(EncodingError),
    /// The service answered with an error.
    Api(ApiError),
}

} // verus!
