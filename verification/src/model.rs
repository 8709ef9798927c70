//! The error model: codes, detail entries, and the error envelope.

use vstd::prelude::*;

verus! {

/// Why a request failed, independent of the transport. The set is closed:
/// exactly these ten values exist, and each serializes as the upper
/// snake case token spelled like its name.
#[derive(Clone, Copy, Debug, PartialEq, Eq, Structural)]
pub enum ErrorCode {
    /// The client specified an invalid argument regardless of the state of the system.
    InvalidArgument,
    /// The operation was rejected because the system is not in a state required for it.
    FailedPrecondition,
    /// The requested entity was not found.
    NotFound,
    /// The entity that a client tried to create already exists.
    AlreadyExists,
    /// The caller does not have valid authentication credentials for the operation.
    Unauthenticated,
    /// The caller does not have permission to execute the specified operation.
    PermissionDenied,
    /// The caller has exhausted their rate limit or quota.
    TooManyRequests,
    /// A part of the underlying system is broken.
    Internal,
    /// The application does not know how to handle the caught error.
    Unknown,
    /// The service is currently unavailable; the call can be retried with a backoff.
    Unavailable,
}

/// The transport-level status paired with each error code. Total over the
/// closed set by construction: the match is exhaustive.
pub open spec fn status_of(code: ErrorCode) -> u16 {
    match code {
        ErrorCode::InvalidArgument => 400,
        ErrorCode::FailedPrecondition => 400,
        ErrorCode::NotFound => 404,
        ErrorCode::AlreadyExists => 409,
        ErrorCode::Unauthenticated => 401,
        ErrorCode::PermissionDenied => 403,
        ErrorCode::TooManyRequests => 429,
        ErrorCode::Internal => 500,
        ErrorCode::Unknown => 500,
        ErrorCode::Unavailable => 503,
    }
}

/// The fixed wire token of each error code: its name in upper snake case.
pub open spec fn token_of(code: ErrorCode) -> Seq<char> {
    match code {
        ErrorCode::InvalidArgument => "INVALID_ARGUMENT"@,
        ErrorCode::FailedPrecondition => "FAILED_PRECONDITION"@,
        ErrorCode::NotFound => "NOT_FOUND"@,
        ErrorCode::AlreadyExists => "ALREADY_EXISTS"@,
        ErrorCode::Unauthenticated => "UNAUTHENTICATED"@,
        ErrorCode::PermissionDenied => "PERMISSION_DENIED"@,
        ErrorCode::TooManyRequests => "TOO_MANY_REQUESTS"@,
        ErrorCode::Internal => "INTERNAL"@,
        ErrorCode::Unknown => "UNKNOWN"@,
        ErrorCode::Unavailable => "UNAVAILABLE"@,
    }
}

impl ErrorCode {
    /// The transport-level status that delivers this error, per the fixed
    /// table: every code maps to exactly one status.
    pub fn get_http_code(&self) -> (status: u16)
        ensures
            status == status_of(*self),
    {
        match self {
            ErrorCode::InvalidArgument => 400,
            ErrorCode::FailedPrecondition => 400,
            ErrorCode::NotFound => 404,
            ErrorCode::AlreadyExists => 409,
            ErrorCode::Unauthenticated => 401,
            ErrorCode::PermissionDenied => 403,
            ErrorCode::TooManyRequests => 429,
            ErrorCode::Internal => 500,
            ErrorCode::Unknown => 500,
            ErrorCode::Unavailable => 503,
        }
    }

    /// The wire token for this code, exactly as it appears in the
    /// serialized form.
    pub fn token_str(&self) -> (token: &'static str)
        ensures
            token@ == token_of(*self),
    {
        match self {
            ErrorCode::InvalidArgument => "INVALID_ARGUMENT",
            ErrorCode::FailedPrecondition => "FAILED_PRECONDITION",
            ErrorCode::NotFound => "NOT_FOUND",
            ErrorCode::AlreadyExists => "ALREADY_EXISTS",
            ErrorCode::Unauthenticated => "UNAUTHENTICATED",
            ErrorCode::PermissionDenied => "PERMISSION_DENIED",
            ErrorCode::TooManyRequests => "TOO_MANY_REQUESTS",
            ErrorCode::Internal => "INTERNAL",
            ErrorCode::Unknown => "UNKNOWN",
            ErrorCode::Unavailable => "UNAVAILABLE",
        }
    }
}

/// The status mapping is total and lands in the fixed set of statuses the
/// table uses: every one of the ten codes has a defined status.
pub proof fn lemma_status_total(code: ErrorCode)
    ensures
        status_of(code) == 400 || status_of(code) == 401 || status_of(code) == 403
            || status_of(code) == 404 || status_of(code) == 409 || status_of(code) == 429
            || status_of(code) == 500 || status_of(code) == 503,
{
}

/// A single invalid-input-field report within a `BadRequest` detail.
#[derive(Debug, Clone, PartialEq, Eq)]
pub struct FieldViolation {
    pub field: String,
    pub description: String,
}

/// The mathematical value of a `FieldViolation`: both texts as character
/// sequences.
pub struct FieldViolationV {
    pub field: Seq<char>,
    pub description: Seq<char>,
}

impl View for FieldViolation {
    type V = FieldViolationV;

    open spec fn view(&self) -> FieldViolationV {
        FieldViolationV { field: self.field@, description: self.description@ }
    }
}

impl FieldViolation {
    /// A violation report for one input field: the field's name and a
    /// human-readable explanation.
    pub fn new(field: String, description: String) -> (violation: FieldViolation)
        ensures
            violation@.field == field@,
            violation@.description == description@,
    {
        FieldViolation { field, description }
    }

    /// The name of the offending input field.
    pub fn field(&self) -> (field: &String)
        ensures
            field@ == self@.field,
    {
        &self.field
    }

    /// The human-readable explanation of the violation.
    pub fn description(&self) -> (description: &String)
        ensures
            description@ == self@.description,
    {
        &self.description
    }
}

/// A structured annotation attached to an `ApiError`. The set is open: the
/// wire format tags each entry, and consumers ignore entries whose tag they
/// do not recognize. Metadata keys are expected to be unique; the order of
/// `metadata` and of `field_violations` is preserved end to end.
#[derive(Debug, Clone, PartialEq, Eq)]
pub enum ErrorDetails {
    /// A machine-readable cause plus arbitrary key/value context.
    ErrorInfo { reason: String, metadata: Vec<(String, String)> },
    /// One or more invalid input fields.
    BadRequest { field_violations: Vec<FieldViolation> },
    /// A translated human-readable message for a specific locale.
    LocalizedMessage { locale: String, message: String },
}

/// The mathematical value of an `ErrorDetails` entry.
pub enum DetailV {
    ErrorInfo { reason: Seq<char>, metadata: Seq<(Seq<char>, Seq<char>)> },
    BadRequest { field_violations: Seq<FieldViolationV> },
    LocalizedMessage { locale: Seq<char>, message: Seq<char> },
}

impl View for ErrorDetails {
    type V = DetailV;

    open spec fn view(&self) -> DetailV {
        match self {
            ErrorDetails::ErrorInfo { reason, metadata } => DetailV::ErrorInfo {
                reason: reason@,
                metadata: metadata_view(metadata@),
            },
            ErrorDetails::BadRequest { field_violations } => DetailV::BadRequest {
                field_violations: fvs_view(field_violations@),
            },
            ErrorDetails::LocalizedMessage { locale, message } => DetailV::LocalizedMessage {
                locale: locale@,
                message: message@,
            },
        }
    }
}

/// The mathematical value of a sequence of detail entries.
pub open spec fn details_view(details: Seq<ErrorDetails>) -> Seq<DetailV> {
    details.map_values(|d: ErrorDetails| d@)
}

/// The mathematical value of a metadata vector.
pub open spec fn metadata_view(m: Seq<(String, String)>) -> Seq<(Seq<char>, Seq<char>)> {
    m.map_values(|pair: (String, String)| (pair.0@, pair.1@))
}

/// The mathematical value of a field-violation vector.
pub open spec fn fvs_view(vs: Seq<FieldViolation>) -> Seq<FieldViolationV> {
    vs.map_values(|v: FieldViolation| v@)
}

/// The full structured error envelope returned to a caller. Immutable after
/// construction; `details` order is preserved end to end.
#[derive(Debug, Clone, PartialEq, Eq)]
pub struct ApiError {
    pub code: ErrorCode,
    /// Developer-facing, human-readable debug message, in English. Localized
    /// messages belong in a `LocalizedMessage` detail; dynamic values
    /// interpolated into the message also belong in the metadata of an
    /// `ErrorInfo` detail.
    pub message: String,
    /// Additional structured error information, in order.
    pub details: Vec<ErrorDetails>,
}

/// The mathematical value of an `ApiError`.
pub struct ApiErrorV {
    pub code: ErrorCode,
    pub message: Seq<char>,
    pub details: Seq<DetailV>,
}

impl View for ApiError {
    type V = ApiErrorV;

    open spec fn view(&self) -> ApiErrorV {
        ApiErrorV { code: self.code, message: self.message@, details: details_view(self.details@) }
    }
}

impl ApiError {
    /// An envelope with the given code and message and no details.
    /// Construction cannot fail: the code is one of the ten values by type.
    pub fn new(code: ErrorCode, message: &str) -> (error: ApiError)
        ensures
            error@.code == code,
            error@.message == message@,
            error@.details == Seq::<DetailV>::empty(),
    {
        let error = ApiError { code, message: message.to_owned(), details: Vec::new() };
        proof {
            assert(error@.details =~= Seq::<DetailV>::empty());
        }
        error
    }

    /// An envelope with the given code, message, and detail entries, the
    /// entries stored verbatim in the given order.
    pub fn with_details(code: ErrorCode, message: &str, details: Vec<ErrorDetails>) -> (error:
        ApiError)
        ensures
            error@.code == code,
            error@.message == message@,
            error@.details == details_view(details@),
    {
        ApiError { code, message: message.to_owned(), details }
    }
}

} // verus!
