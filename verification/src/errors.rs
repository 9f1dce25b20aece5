//! The error taxonomy of the catalog, and its presentation at the service
//! boundary: a status code per variant, and redaction of backend error text.

use vstd::prelude::*;
use crate::text::{concat_str, i64_to_string, i64_digits};

verus! {

/// A recoverable, per-request error of the catalog core.
#[derive(Debug, Clone)]
pub enum DomainError {
    NotFound { entity: String, id: String },
    AlreadyExists { entity: String, field: String, value: String },
    InvalidInput { message: String },
    BusinessRuleViolation { message: String },
    DatabaseError { message: String },
    InternalError { message: String },
}

/// Results of catalog operations.
pub type DomainResult<T> = Result<T, DomainError>;

impl DomainError {
    /// The entity with the given id does not exist.
    pub fn not_found(entity: &str, id: i64) -> (e: Self)
        ensures
            e matches DomainError::NotFound { entity: en, id: idv } && en@ == entity@ && idv@
                == i64_digits(id as int),
    {
        DomainError::NotFound { entity: entity.to_owned(), id: i64_to_string(id) }
    }

    /// An entity with the given value in the given field already exists.
    pub fn already_exists(entity: &str, field: &str, value: &str) -> (e: Self)
        ensures
            e matches DomainError::AlreadyExists { entity: en, field: f, value: v } && en@
                == entity@ && f@ == field@ && v@ == value@,
    {
        DomainError::AlreadyExists {
            entity: entity.to_owned(),
            field: field.to_owned(),
            value: value.to_owned(),
        }
    }

    /// The request itself is malformed or violates an input rule.
    pub fn invalid_input(message: &str) -> (e: Self)
        ensures
            e matches DomainError::InvalidInput { message: m } && m@ == message@,
    {
        DomainError::InvalidInput { message: message.to_owned() }
    }

    /// The request is well-formed but breaks a business rule.
    pub fn business_rule_violation(message: &str) -> (e: Self)
        ensures
            e matches DomainError::BusinessRuleViolation { message: m } && m@ == message@,
    {
        DomainError::BusinessRuleViolation { message: message.to_owned() }
    }

    /// A storage-level failure, wrapped so callers see the taxonomy.
    pub fn database_error(message: &str) -> (e: Self)
        ensures
            e matches DomainError::DatabaseError { message: m } && m@ == message@,
    {
        DomainError::DatabaseError { message: message.to_owned() }
    }

    /// An unexpected internal failure.
    pub fn internal_error(message: &str) -> (e: Self)
        ensures
            e matches DomainError::InternalError { message: m } && m@ == message@,
    {
        DomainError::InternalError { message: message.to_owned() }
    }

    /// A human-readable description of the error, with its details.
    pub fn message(&self) -> (m: String)
        ensures
            m@ == self.spec_message(),
    {
        match self {
            DomainError::NotFound { entity, id } => {
                let s = concat_str("Entity not found: ", entity.as_str());
                let s = concat_str(s.as_str(), " with id ");
                concat_str(s.as_str(), id.as_str())
            },
            DomainError::AlreadyExists { entity, field, value } => {
                let s = concat_str("Entity already exists: ", entity.as_str());
                let s = concat_str(s.as_str(), " with ");
                let s = concat_str(s.as_str(), field.as_str());
                let s = concat_str(s.as_str(), " = ");
                concat_str(s.as_str(), value.as_str())
            },
            DomainError::InvalidInput { message } => {
                concat_str("Invalid input: ", message.as_str())
            },
            DomainError::BusinessRuleViolation { message } => {
                concat_str("Business rule violation: ", message.as_str())
            },
            DomainError::DatabaseError { message } => {
                concat_str("Database error: ", message.as_str())
            },
            DomainError::InternalError { message } => {
                concat_str("Internal error: ", message.as_str())
            },
        }
    }

    /// The characters `message` produces.
    pub open spec fn spec_message(&self) -> Seq<char> {
        match self {
            DomainError::NotFound { entity, id } => "Entity not found: "@ + entity@
                + " with id "@ + id@,
            DomainError::AlreadyExists { entity, field, value } => "Entity already exists: "@
                + entity@ + " with "@ + field@ + " = "@ + value@,
            DomainError::InvalidInput { message } => "Invalid input: "@ + message@,
            DomainError::BusinessRuleViolation { message } => "Business rule violation: "@
                + message@,
            DomainError::DatabaseError { message } => "Database error: "@ + message@,
            DomainError::InternalError { message } => "Internal error: "@ + message@,
        }
    }
}

/// A domain error as the request-handling boundary reports it.
#[derive(Debug)]
pub struct AppError(pub DomainError);

impl AppError {
    /// The HTTP-style status code for the wrapped error.
    pub fn status_code(&self) -> (c: u16)
        ensures
            c == match self.0 {
                DomainError::NotFound { .. } => 404u16,
                DomainError::AlreadyExists { .. } => 409u16,
                DomainError::InvalidInput { .. } => 400u16,
                DomainError::BusinessRuleViolation { .. } => 422u16,
                DomainError::DatabaseError { .. } => 500u16,
                DomainError::InternalError { .. } => 500u16,
            },
    {
        match self.0 {
            DomainError::NotFound { .. } => 404,
            DomainError::AlreadyExists { .. } => 409,
            DomainError::InvalidInput { .. } => 400,
            DomainError::BusinessRuleViolation { .. } => 422,
            DomainError::DatabaseError { .. } => 500,
            DomainError::InternalError { .. } => 500,
        }
    }

    /// The message shown to external callers. Raw backend error text is
    /// replaced with a generic phrase; other variants keep their details.
    pub fn error_message(&self) -> (m: String)
        ensures
            m@ == match self.0 {
                DomainError::DatabaseError { .. } => "Database error occurred"@,
                DomainError::InternalError { .. } => "Internal server error"@,
                _ => self.0.spec_message(),
            },
    {
        match &self.0 {
            DomainError::DatabaseError { .. } => "Database error occurred".to_owned(),
            DomainError::InternalError { .. } => "Internal server error".to_owned(),
            _ => self.0.message(),
        }
    }
}

} // verus!
