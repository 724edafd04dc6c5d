//! The closed error taxonomy shared by every service of the core.
use vstd::prelude::*;
use vstd::string::StringExecFns;

verus! {

/// Every failure of the core is one of these kinds; nothing is retried inside the core.
#[derive(Debug, Clone, Copy, PartialEq, Eq)]
pub enum PlatformError {
    /// The target record is absent.
    NotFound(&'static str),
    /// A uniqueness or lifecycle conflict.
    Conflict(&'static str),
    /// A credential was presented but is invalid.
    Unauthorized,
    /// The credential is valid but not permitted.
    Forbidden,
    /// A shape or contract violation.
    InvalidInput(&'static str),
    /// A serialization, signing or store failure.
    Internal(&'static str),
}

pub type PlatformResult<T> = Result<T, PlatformError>;

/// A result with the mathematical value of what it holds.
pub open spec fn result_view<T: DeepView>(r: PlatformResult<T>) -> PlatformResult<T::V> {
    match r {
        Ok(value) => Ok(value.deep_view()),
        Err(e) => Err(e),
    }
}

/// The text that describes an error: a fixed label, followed for the kinds that carry
/// a detail by `": "` and that detail.
pub open spec fn error_text(err: PlatformError) -> Seq<char> {
    match err {
        PlatformError::NotFound(what) => "not found: "@ + what@,
        PlatformError::Conflict(what) => "conflict: "@ + what@,
        PlatformError::Unauthorized => "unauthorized"@,
        PlatformError::Forbidden => "forbidden"@,
        PlatformError::InvalidInput(why) => "invalid input: "@ + why@,
        PlatformError::Internal(why) => "internal error: "@ + why@,
    }
}

/// The status a transport reports for an error kind.
pub open spec fn status_of(err: PlatformError) -> int {
    match err {
        PlatformError::NotFound(_) => 404,
        PlatformError::Conflict(_) => 409,
        PlatformError::Unauthorized => 401,
        PlatformError::Forbidden => 403,
        PlatformError::InvalidInput(_) => 400,
        PlatformError::Internal(_) => 500,
    }
}

/// The code a foreign caller receives for an error kind.
pub open spec fn code_of(err: PlatformError) -> int {
    match err {
        PlatformError::InvalidInput(_) => -1,
        PlatformError::Unauthorized => -2,
        PlatformError::Forbidden => -2,
        PlatformError::NotFound(_) => -1,
        PlatformError::Conflict(_) => -1,
        PlatformError::Internal(_) => -3,
    }
}

impl PlatformError {
    /// Human-readable description of the error.
    pub fn message(&self) -> (text: String)
        ensures
            text@ == error_text(*self),
    {
        match self {
            PlatformError::NotFound(what) => String::from_str("not found: ").concat(what),
            PlatformError::Conflict(what) => String::from_str("conflict: ").concat(what),
            PlatformError::Unauthorized => String::from_str("unauthorized"),
            PlatformError::Forbidden => String::from_str("forbidden"),
            PlatformError::InvalidInput(why) => String::from_str("invalid input: ").concat(why),
            PlatformError::Internal(why) => String::from_str("internal error: ").concat(why),
        }
    }

    /// Protocol status for this kind: 404, 409, 401, 403, 400 or 500.
    pub fn http_status(&self) -> (status: u16)
        ensures
            status == status_of(*self),
    {
        match self {
            PlatformError::NotFound(_) => 404,
            PlatformError::Conflict(_) => 409,
            PlatformError::Unauthorized => 401,
            PlatformError::Forbidden => 403,
            PlatformError::InvalidInput(_) => 400,
            PlatformError::Internal(_) => 500,
        }
    }
}

/// How a store that keeps its records in a database failed.
#[derive(Debug, Clone, Copy, PartialEq, Eq, Structural)]
pub enum StoreFailure {
    /// The row asked for is absent.
    RowNotFound,
    /// The database refused a statement because a unique key would occur twice.
    UniqueViolation,
    /// Anything else.
    Other,
}

/// The error that a failure of a database store surfaces as.
pub open spec fn failure_error(failure: StoreFailure) -> PlatformError {
    match failure {
        StoreFailure::RowNotFound => PlatformError::NotFound("record"),
        StoreFailure::UniqueViolation => PlatformError::Conflict("record"),
        StoreFailure::Other => PlatformError::Internal("database error"),
    }
}

/// Maps a failure of a database store into the taxonomy: an absent row is not found, a
/// unique-key violation a conflict, anything else internal.
pub fn map_store_failure(failure: StoreFailure) -> (error: PlatformError)
    ensures
        error == failure_error(failure),
{
    match failure {
        StoreFailure::RowNotFound => PlatformError::NotFound("record"),
        StoreFailure::UniqueViolation => PlatformError::Conflict("record"),
        StoreFailure::Other => PlatformError::Internal("database error"),
    }
}

/// Collapses an error into the three negative codes of the foreign-function surface:
/// -1 for invalid requests (also absent or conflicting records), -2 for credential and
/// permission failures, -3 for internal failures.
pub fn map_error(err: PlatformError) -> (code: i32)
    ensures
        code == code_of(err),
{
    match err {
        PlatformError::InvalidInput(_) => -1,
        PlatformError::Unauthorized => -2,
        PlatformError::Forbidden => -2,
        PlatformError::NotFound(_) => -1,
        PlatformError::Conflict(_) => -1,
        PlatformError::Internal(_) => -3,
    }
}

} // verus!
