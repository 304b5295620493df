//! The error taxonomy: storage faults (with the client-correctable unique
//! violation and the foreign-key violation distinguished), a missing or
//! invalid configuration value, and pool exhaustion. A single mapping
//! turns each into the status code and body the boundary answers with.

use vstd::prelude::*;

verus! {

/// Why the store rejected or failed a statement.
#[derive(Clone, Copy, Debug, PartialEq, Eq, Structural)]
pub enum StorageErrorKind {
    /// A unique constraint (the username index) was violated.
    UniqueViolation,
    /// A foreign key (a post's owning user) did not resolve.
    ForeignKeyViolation,
    /// Any other storage fault: connectivity, malformed statement, and so on.
    Other,
}

/// Every failure the repository surfaces.
#[derive(Clone, Copy, Debug, PartialEq, Eq, Structural)]
pub enum AppError {
    /// The store failed a statement.
    Database(StorageErrorKind),
    /// A required configuration value was missing or invalid at startup.
    Env,
    /// No connection was available from the pool.
    Pool,
}

pub const STATUS_BAD_REQUEST: u16 = 400;
pub const STATUS_INTERNAL_ERROR: u16 = 500;

impl AppError {
    /// True exactly for the client-correctable fault: a duplicate username.
    pub open spec fn is_client_fault(&self) -> bool {
        self == AppError::Database(StorageErrorKind::UniqueViolation)
    }

    /// The status code the boundary answers with: client faults map to 400,
    /// every other failure to 500.
    pub fn status_code(&self) -> (c: u16)
        ensures
            c == STATUS_BAD_REQUEST <==> self.is_client_fault(),
            !self.is_client_fault() ==> c == STATUS_INTERNAL_ERROR,
    {
        match self {
            AppError::Database(StorageErrorKind::UniqueViolation) => STATUS_BAD_REQUEST,
            AppError::Database(_) => STATUS_INTERNAL_ERROR,
            AppError::Env => STATUS_INTERNAL_ERROR,
            AppError::Pool => STATUS_INTERNAL_ERROR,
        }
    }

    /// The status code and body the boundary answers with.
    pub fn error_response(&self) -> (r: (u16, String))
        ensures
            r.0 == self.status_code_spec(),
            r.1@ == self.response_body_spec(),
    {
        proof {
            reveal_strlit("Unique constraint violation");
            reveal_strlit("Database error");
            reveal_strlit("Environment error");
            reveal_strlit("Database pool error");
        }
        match self {
            AppError::Database(StorageErrorKind::UniqueViolation) => (
                STATUS_BAD_REQUEST,
                String::from_str("Unique constraint violation"),
            ),
            AppError::Database(_) => (STATUS_INTERNAL_ERROR, String::from_str("Database error")),
            AppError::Env => (STATUS_INTERNAL_ERROR, String::from_str("Environment error")),
            AppError::Pool => (STATUS_INTERNAL_ERROR, String::from_str("Database pool error")),
        }
    }

    /// The status code as a spec-level value.
    pub open spec fn status_code_spec(&self) -> u16 {
        if self.is_client_fault() {
            STATUS_BAD_REQUEST
        } else {
            STATUS_INTERNAL_ERROR
        }
    }

    /// The response body for each failure.
    pub open spec fn response_body_spec(&self) -> Seq<char> {
        match self {
            AppError::Database(StorageErrorKind::UniqueViolation) => "Unique constraint violation"@,
            AppError::Database(_) => "Database error"@,
            AppError::Env => "Environment error"@,
            AppError::Pool => "Database pool error"@,
        }
    }
}

} // verus!
