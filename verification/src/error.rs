//! The error type of the hub and its JSON-RPC and HTTP codes.
use vstd::prelude::*;
use crate::text::{to_owned_string, concat2};

verus! {

/// Errors the hub reports. Variants that wrapped an error of a database,
/// serialisation or configuration library carry that error's message.
#[derive(Debug, Clone, PartialEq, Eq)]
pub enum MoteError {
    Database(String),
    Validation(String),
    Authentication(String),
    RateLimit,
    NotFound(String),
    Conflict(String),
    ExternalService(String),
    Internal(String),
    Serialization(String),
    Configuration(String),
    Cryptography(String),
    Storage(String),
}

/// `e` is a validation error carrying exactly the message `msg`.
pub open spec fn validation_error_with(e: MoteError, msg: Seq<char>) -> bool {
    e matches MoteError::Validation(m) && m@ == msg
}

/// `e` is a cryptography error carrying exactly the message `msg`.
pub open spec fn crypto_error_with(e: MoteError, msg: Seq<char>) -> bool {
    e matches MoteError::Cryptography(m) && m@ == msg
}

/// `e` is an authentication error carrying exactly the message `msg`.
pub open spec fn auth_error_with(e: MoteError, msg: Seq<char>) -> bool {
    e matches MoteError::Authentication(m) && m@ == msg
}

/// The JSON-RPC error code of each error kind.
pub open spec fn spec_json_rpc_code(e: MoteError) -> int {
    match e {
        MoteError::Validation(_) => -32602,
        MoteError::Authentication(_) => -32001,
        MoteError::RateLimit => -32002,
        MoteError::NotFound(_) => -32003,
        MoteError::Conflict(_) => -32004,
        MoteError::ExternalService(_) => -32005,
        MoteError::Serialization(_) => -32603,
        _ => -32000,
    }
}

/// The HTTP status the MCP endpoint answers an error with.
pub open spec fn spec_mcp_status(e: MoteError) -> u16 {
    match e {
        MoteError::Authentication(_) => 401,
        MoteError::NotFound(_) => 404,
        MoteError::RateLimit => 429,
        MoteError::Validation(_) => 400,
        _ => 500,
    }
}

/// The HTTP status the project endpoints answer an error with.
pub open spec fn spec_project_status(e: MoteError) -> u16 {
    match e {
        MoteError::NotFound(_) => 404,
        MoteError::Validation(_) => 400,
        MoteError::Conflict(_) => 409,
        MoteError::Authentication(_) => 401,
        _ => 500,
    }
}

impl MoteError {
    /// JSON-RPC error code for this error.
    pub fn json_rpc_code(&self) -> (r: i32)
        ensures
            r == spec_json_rpc_code(*self),
    {
        match self {
            MoteError::Validation(_) => -32602,
            MoteError::Authentication(_) => -32001,
            MoteError::RateLimit => -32002,
            MoteError::NotFound(_) => -32003,
            MoteError::Conflict(_) => -32004,
            MoteError::ExternalService(_) => -32005,
            MoteError::Internal(_) => -32000,
            MoteError::Database(_) => -32000,
            MoteError::Serialization(_) => -32603,
            MoteError::Configuration(_) => -32000,
            MoteError::Cryptography(_) => -32000,
            MoteError::Storage(_) => -32000,
        }
    }
}

/// HTTP status code of an error answered by the MCP endpoint.
pub fn error_status(error: &MoteError) -> (r: u16)
    ensures
        r == spec_mcp_status(*error),
{
    match error {
        MoteError::Authentication(_) => 401,
        MoteError::NotFound(_) => 404,
        MoteError::RateLimit => 429,
        MoteError::Validation(_) => 400,
        _ => 500,
    }
}

/// HTTP status code of an error answered by the project endpoints.
pub fn project_error_status(error: &MoteError) -> (r: u16)
    ensures
        r == spec_project_status(*error),
{
    match error {
        MoteError::NotFound(_) => 404,
        MoteError::Validation(_) => 400,
        MoteError::Conflict(_) => 409,
        MoteError::Authentication(_) => 401,
        _ => 500,
    }
}


/// The text of an error, as the hub displays it.
pub open spec fn error_text(e: MoteError) -> Seq<char> {
    match e {
        MoteError::Database(_) => "Database error: encountered unexpected or invalid data"@,
        MoteError::Validation(m) => "Validation error: "@ + m@,
        MoteError::Authentication(m) => "Authentication failed: "@ + m@,
        MoteError::RateLimit => "Rate limit exceeded"@,
        MoteError::NotFound(m) => "Not found: "@ + m@,
        MoteError::Conflict(m) => "Conflict: "@ + m@,
        MoteError::ExternalService(m) => "External service error: "@ + m@,
        MoteError::Internal(_) => "Internal error: encountered unexpected or invalid data"@,
        MoteError::Serialization(m) => "Serialization error: "@ + m@,
        MoteError::Configuration(m) => "Configuration error: "@ + m@,
        MoteError::Cryptography(m) => "Cryptography error: "@ + m@,
        MoteError::Storage(m) => "Storage error: "@ + m@,
    }
}

impl MoteError {
    /// The error's text: a fixed prefix for its kind, then its message
    /// (database and internal errors hide theirs).
    pub fn message(&self) -> (r: String)
        ensures
            r@ == error_text(*self),
    {
        match self {
            MoteError::Database(_) => to_owned_string("Database error: encountered unexpected or invalid data"),
            MoteError::Validation(m) => concat2("Validation error: ", m.as_str()),
            MoteError::Authentication(m) => concat2("Authentication failed: ", m.as_str()),
            MoteError::RateLimit => to_owned_string("Rate limit exceeded"),
            MoteError::NotFound(m) => concat2("Not found: ", m.as_str()),
            MoteError::Conflict(m) => concat2("Conflict: ", m.as_str()),
            MoteError::ExternalService(m) => concat2("External service error: ", m.as_str()),
            MoteError::Internal(_) => to_owned_string("Internal error: encountered unexpected or invalid data"),
            MoteError::Serialization(m) => concat2("Serialization error: ", m.as_str()),
            MoteError::Configuration(m) => concat2("Configuration error: ", m.as_str()),
            MoteError::Cryptography(m) => concat2("Cryptography error: ", m.as_str()),
            MoteError::Storage(m) => concat2("Storage error: ", m.as_str()),
        }
    }

    /// The kind of the error as reported to JSON-RPC clients.
    pub fn kind_name(&self) -> (r: &'static str)
        ensures
            r@ == error_kind_name(*self),
    {
        match self {
            MoteError::RateLimit => "rate_limit",
            MoteError::Authentication(_) => "authentication",
            MoteError::Validation(_) => "validation",
            MoteError::NotFound(_) => "not_found",
            MoteError::Conflict(_) => "conflict",
            MoteError::ExternalService(_) => "external_service",
            MoteError::Internal(_) => "internal",
            MoteError::Database(_) => "database",
            MoteError::Serialization(_) => "serialization",
            MoteError::Configuration(_) => "configuration",
            MoteError::Cryptography(_) => "cryptography",
            MoteError::Storage(_) => "storage",
        }
    }
}

/// The kind of an error as reported to JSON-RPC clients.
pub open spec fn error_kind_name(e: MoteError) -> Seq<char> {
    match e {
        MoteError::RateLimit => "rate_limit"@,
        MoteError::Authentication(_) => "authentication"@,
        MoteError::Validation(_) => "validation"@,
        MoteError::NotFound(_) => "not_found"@,
        MoteError::Conflict(_) => "conflict"@,
        MoteError::ExternalService(_) => "external_service"@,
        MoteError::Internal(_) => "internal"@,
        MoteError::Database(_) => "database"@,
        MoteError::Serialization(_) => "serialization"@,
        MoteError::Configuration(_) => "configuration"@,
        MoteError::Cryptography(_) => "cryptography"@,
        MoteError::Storage(_) => "storage"@,
    }
}

} // verus!
