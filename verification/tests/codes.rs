//! The error codes: the status table, the wire tokens, the constructors.

use api_error::ApiError;
use api_error::ErrorCode;
use api_error::ErrorDetails;
use api_error::FieldViolation;

#[test]
fn status_table_is_reproduced_exactly() {
    assert_eq!(ErrorCode::InvalidArgument.get_http_code(), 400);
    assert_eq!(ErrorCode::FailedPrecondition.get_http_code(), 400);
    assert_eq!(ErrorCode::NotFound.get_http_code(), 404);
    assert_eq!(ErrorCode::AlreadyExists.get_http_code(), 409);
    assert_eq!(ErrorCode::Unauthenticated.get_http_code(), 401);
    assert_eq!(ErrorCode::PermissionDenied.get_http_code(), 403);
    assert_eq!(ErrorCode::TooManyRequests.get_http_code(), 429);
    assert_eq!(ErrorCode::Internal.get_http_code(), 500);
    assert_eq!(ErrorCode::Unknown.get_http_code(), 500);
    assert_eq!(ErrorCode::Unavailable.get_http_code(), 503);
}

#[test]
fn every_code_has_its_upper_snake_case_token() {
    assert_eq!(ErrorCode::InvalidArgument.token_str(), "INVALID_ARGUMENT");
    assert_eq!(ErrorCode::FailedPrecondition.token_str(), "FAILED_PRECONDITION");
    assert_eq!(ErrorCode::NotFound.token_str(), "NOT_FOUND");
    assert_eq!(ErrorCode::AlreadyExists.token_str(), "ALREADY_EXISTS");
    assert_eq!(ErrorCode::Unauthenticated.token_str(), "UNAUTHENTICATED");
    assert_eq!(ErrorCode::PermissionDenied.token_str(), "PERMISSION_DENIED");
    assert_eq!(ErrorCode::TooManyRequests.token_str(), "TOO_MANY_REQUESTS");
    assert_eq!(ErrorCode::Internal.token_str(), "INTERNAL");
    assert_eq!(ErrorCode::Unknown.token_str(), "UNKNOWN");
    assert_eq!(ErrorCode::Unavailable.token_str(), "UNAVAILABLE");
}

#[test]
fn new_leaves_details_empty() {
    let e = ApiError::new(ErrorCode::Internal, "boom");
    assert_eq!(e.code, ErrorCode::Internal);
    assert_eq!(e.message, "boom");
    assert!(e.details.is_empty());
}

#[test]
fn with_details_stores_entries_verbatim_in_order() {
    let details = vec![
        ErrorDetails::LocalizedMessage { locale: "de".to_string(), message: "kaputt".to_string() },
        ErrorDetails::ErrorInfo { reason: "R".to_string(), metadata: vec![] },
    ];
    let e = ApiError::with_details(ErrorCode::Unknown, "", details.clone());
    assert_eq!(e.message, "");
    assert_eq!(e.details, details);
}

#[test]
fn field_violation_accessors_return_what_new_stored() {
    let v = FieldViolation::new("age".to_string(), "must be positive".to_string());
    assert_eq!(v.field().as_str(), "age");
    assert_eq!(v.description().as_str(), "must be positive");
}

#[test]
fn textual_representation_names_code_message_and_details() {
    let e = ApiError::new(ErrorCode::NotFound, "gone");
    assert_eq!(
        e.textual_representation(),
        "ApiError { code: NOT_FOUND, message: \"gone\", details: [] }"
    );
}
