//! The wire format: exact bodies, round trips, tag fidelity, rejection of
//! bad input, and tolerance of unrecognized detail tags.

use api_error::ApiError;
use api_error::ErrorCode;
use api_error::ErrorDetails;
use api_error::FieldViolation;

#[test]
fn not_found_scenario_yields_404_and_exact_body() {
    let e = ApiError::new(ErrorCode::NotFound, "user 42 not found");
    assert_eq!(e.code.get_http_code(), 404);
    assert_eq!(
        e.to_json(),
        "{\"code\":\"NOT_FOUND\",\"message\":\"user 42 not found\",\"details\":[]}"
    );
}

#[test]
fn rate_limit_scenario_yields_429_and_exact_body() {
    let e = ApiError::with_details(
        ErrorCode::TooManyRequests,
        "rate limit exceeded",
        vec![ErrorDetails::ErrorInfo {
            reason: "QUOTA_EXCEEDED".to_string(),
            metadata: vec![
                ("limit".to_string(), "100".to_string()),
                ("window".to_string(), "60s".to_string()),
            ],
        }],
    );
    assert_eq!(e.code.get_http_code(), 429);
    assert_eq!(
        e.to_json(),
        "{\"code\":\"TOO_MANY_REQUESTS\",\"message\":\"rate limit exceeded\",\"details\":[{\"@type\":\"ErrorInfo\",\"reason\":\"QUOTA_EXCEEDED\",\"metadata\":{\"limit\":\"100\",\"window\":\"60s\"}}]}"
    );
}

fn round_trips(e: ApiError) {
    let body = e.to_json();
    let back = ApiError::from_json(&body).expect("serialized envelope must deserialize");
    assert_eq!(back, e);
}

#[test]
fn round_trip_plain() {
    round_trips(ApiError::new(ErrorCode::Internal, "database down"));
}

#[test]
fn round_trip_empty_message_and_empty_details() {
    round_trips(ApiError::new(ErrorCode::Unknown, ""));
}

#[test]
fn round_trip_non_ascii_message() {
    round_trips(ApiError::new(ErrorCode::InvalidArgument, "café 東京 → naïve"));
}

#[test]
fn round_trip_quotes_backslashes_and_controls() {
    round_trips(ApiError::new(
        ErrorCode::FailedPrecondition,
        "say \"hi\\\" then\nstop\tnow \u{1} \u{1f} end",
    ));
}

#[test]
fn round_trip_all_three_detail_variants_in_order() {
    let details = vec![
        ErrorDetails::ErrorInfo {
            reason: "RATE".to_string(),
            metadata: vec![("a\"x".to_string(), "b\\y".to_string()), ("c".to_string(), "".to_string())],
        },
        ErrorDetails::BadRequest {
            field_violations: vec![
                FieldViolation::new("name".to_string(), "required".to_string()),
                FieldViolation::new("age".to_string(), "must be ≥ 0".to_string()),
            ],
        },
        ErrorDetails::LocalizedMessage { locale: "fr-FR".to_string(), message: "trop vite".to_string() },
    ];
    round_trips(ApiError::with_details(ErrorCode::TooManyRequests, "slow down", details));
}

#[test]
fn round_trip_empty_metadata_and_empty_violations() {
    let details = vec![
        ErrorDetails::ErrorInfo { reason: "".to_string(), metadata: vec![] },
        ErrorDetails::BadRequest { field_violations: vec![] },
    ];
    round_trips(ApiError::with_details(ErrorCode::AlreadyExists, "dup", details));
}

#[test]
fn each_variant_emits_its_own_tag() {
    let info = ApiError::with_details(
        ErrorCode::Internal,
        "",
        vec![ErrorDetails::ErrorInfo { reason: "r".to_string(), metadata: vec![] }],
    );
    assert!(info.to_json().contains("{\"@type\":\"ErrorInfo\""));
    let bad = ApiError::with_details(
        ErrorCode::Internal,
        "",
        vec![ErrorDetails::BadRequest { field_violations: vec![] }],
    );
    assert!(bad.to_json().contains("{\"@type\":\"BadRequest\""));
    let loc = ApiError::with_details(
        ErrorCode::Internal,
        "",
        vec![ErrorDetails::LocalizedMessage { locale: "en".to_string(), message: "m".to_string() }],
    );
    assert!(loc.to_json().contains("{\"@type\":\"LocalizedMessage\""));
}

#[test]
fn each_tag_reconstructs_its_own_variant() {
    let body = "{\"code\":\"INTERNAL\",\"message\":\"\",\"details\":[{\"@type\":\"BadRequest\",\"field_violations\":[{\"field\":\"f\",\"description\":\"d\"}]}]}";
    let e = ApiError::from_json(body).unwrap();
    assert!(matches!(e.details[0], ErrorDetails::BadRequest { .. }));
    let body = "{\"code\":\"INTERNAL\",\"message\":\"\",\"details\":[{\"@type\":\"LocalizedMessage\",\"locale\":\"en\",\"message\":\"m\"}]}";
    let e = ApiError::from_json(body).unwrap();
    assert!(matches!(e.details[0], ErrorDetails::LocalizedMessage { .. }));
    let body = "{\"code\":\"INTERNAL\",\"message\":\"\",\"details\":[{\"@type\":\"ErrorInfo\",\"reason\":\"r\",\"metadata\":{}}]}";
    let e = ApiError::from_json(body).unwrap();
    assert!(matches!(e.details[0], ErrorDetails::ErrorInfo { .. }));
}

#[test]
fn unknown_detail_tag_is_dropped_not_fatal() {
    let body = "{\"code\":\"NOT_FOUND\",\"message\":\"x\",\"details\":[{\"@type\":\"ErrorInfo\",\"reason\":\"r\",\"metadata\":{}},{\"@type\":\"FutureThing\",\"nested\":{\"deep\":[\"}]\",\"{[\"]},\"n\":\"2\"}]}";
    let e = ApiError::from_json(body).expect("unknown tags are tolerated");
    assert_eq!(e.details.len(), 1);
    assert!(matches!(e.details[0], ErrorDetails::ErrorInfo { .. }));
}

#[test]
fn unknown_tag_alone_is_dropped_leaving_no_details() {
    let body = "{\"code\":\"INTERNAL\",\"message\":\"\",\"details\":[{\"@type\":\"Mystery\"}]}";
    let e = ApiError::from_json(body).unwrap();
    assert!(e.details.is_empty());
}

#[test]
fn code_token_outside_the_ten_is_rejected() {
    let body = "{\"code\":\"TEAPOT\",\"message\":\"\",\"details\":[]}";
    assert_eq!(ApiError::from_json(body), None);
    let body = "{\"code\":\"not_found\",\"message\":\"\",\"details\":[]}";
    assert_eq!(ApiError::from_json(body), None);
}

#[test]
fn malformed_input_is_rejected() {
    assert_eq!(ApiError::from_json(""), None);
    assert_eq!(ApiError::from_json("{}"), None);
    assert_eq!(ApiError::from_json("{\"code\":\"INTERNAL\",\"message\":\"\"}"), None);
    assert_eq!(ApiError::from_json("{\"code\":\"INTERNAL\",\"message\":\"\",\"details\":[]} "), None);
    assert_eq!(ApiError::from_json("{\"code\":\"INTERNAL\",\"message\":\"\",\"details\":[]}x"), None);
    assert_eq!(ApiError::from_json("{\"code\":\"INTERNAL\",\"message\":\"unterminated,\"details\":[]}"), None);
}

#[test]
fn standard_escapes_are_accepted_on_input() {
    let body = "{\"code\":\"INTERNAL\",\"message\":\"a\\u0041\\n\\t\\r\\b\\f\\/\\\\\\\"z\",\"details\":[]}";
    let e = ApiError::from_json(body).unwrap();
    assert_eq!(e.message, "aA\n\t\r\u{8}\u{c}/\\\"z");
}

#[test]
fn deserializing_the_ten_tokens_gives_the_ten_codes() {
    let cases = [
        ("INVALID_ARGUMENT", ErrorCode::InvalidArgument),
        ("FAILED_PRECONDITION", ErrorCode::FailedPrecondition),
        ("NOT_FOUND", ErrorCode::NotFound),
        ("ALREADY_EXISTS", ErrorCode::AlreadyExists),
        ("UNAUTHENTICATED", ErrorCode::Unauthenticated),
        ("PERMISSION_DENIED", ErrorCode::PermissionDenied),
        ("TOO_MANY_REQUESTS", ErrorCode::TooManyRequests),
        ("INTERNAL", ErrorCode::Internal),
        ("UNKNOWN", ErrorCode::Unknown),
        ("UNAVAILABLE", ErrorCode::Unavailable),
    ];
    for (token, code) in cases {
        let body = format!("{{\"code\":\"{}\",\"message\":\"\",\"details\":[]}}", token);
        let e = ApiError::from_json(&body).unwrap();
        assert_eq!(e.code, code);
    }
}
