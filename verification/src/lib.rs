//! A standardized API error model.
//!
//! The crate defines a closed set of error codes, the total mapping from each
//! code to a transport-level status, and a structured error envelope
//! (code, developer-facing message, machine-readable detail entries) together
//! with its JSON wire format: serialization, deserialization, and proofs that
//! the two invert each other.

pub mod deserialize;
pub mod model;
pub mod reader;
pub mod roundtrip;
pub mod serialize;

pub use model::ApiError;
pub use model::ErrorCode;
pub use model::ErrorDetails;
pub use model::FieldViolation;
