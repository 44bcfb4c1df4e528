//! The library's error type and what it tells a user and a retry policy.

use vstd::prelude::*;
use vstd::string::to_string_from_display_ensures;

verus! {

#[verifier::external_type_specification]
#[verifier::external_body]
pub struct ExIoError(std::io::Error);

#[verifier::external_type_specification]
#[verifier::external_body]
pub struct ExJsonError(serde_json::Error);

#[verifier::external_type_specification]
#[verifier::external_body]
pub struct ExSqliteError(rusqlite::Error);

/// Every failure the library reports.
#[derive(Debug)]
pub enum HelixError {
    Device(String),
    Io(std::io::Error),
    Storage(String),
    Tracking(String),
    Encryption(String),
    Configuration(String),
    Repository(String),
    Serialization(serde_json::Error),
    Database(rusqlite::Error),
    InvalidInput(String),
    NotFound(String),
    PermissionDenied(String),
    Unsupported(String),
    Cancelled,
    Unknown(String),
}


fn prefixed(prefix: &str, msg: &str) -> (s: String)
    ensures
        s@ == prefix@ + msg@,
{
    let mut s = String::from_str(prefix);
    s.append(msg);
    s
}

impl HelixError {
    /// Errors of devices and of I/O may go away on a second try.
    pub fn is_retryable(&self) -> (r: bool)
        ensures
            r <==> (self is Io || self is Device),
    {
        match self {
            HelixError::Io(_) | HelixError::Device(_) => true,
            _ => false,
        }
    }

    /// Errors of encryption, of the database and of the repository leave data at risk.
    pub fn is_critical(&self) -> (r: bool)
        ensures
            r <==> (self is Encryption || self is Database || self is Repository),
    {
        match self {
            HelixError::Encryption(_) | HelixError::Database(_) | HelixError::Repository(_) => true,
            _ => false,
        }
    }

    /// A message for the user: a fixed prefix per kind of error, then the error's own text.
    pub fn user_message(&self) -> (s: String)
        ensures
            match self {
                HelixError::Device(m) => s@ == "Device operation failed: "@ + m@,
                HelixError::Io(e) => exists|t: String| #[trigger] to_string_from_display_ensures(e, t)
                    && s@ == "I/O error: "@ + t@,
                HelixError::Storage(m) => s@ == "Storage error: "@ + m@,
                HelixError::Tracking(m) => s@ == "Change tracking error: "@ + m@,
                HelixError::Encryption(m) => s@ == "Encryption error: "@ + m@,
                HelixError::Configuration(m) => s@ == "Configuration error: "@ + m@,
                HelixError::Repository(m) => s@ == "Repository error: "@ + m@,
                HelixError::Serialization(e) => exists|t: String| #[trigger] to_string_from_display_ensures(e, t)
                    && s@ == "Data format error: "@ + t@,
                HelixError::Database(e) => exists|t: String| #[trigger] to_string_from_display_ensures(e, t)
                    && s@ == "Database error: "@ + t@,
                HelixError::InvalidInput(m) => s@ == "Invalid input: "@ + m@,
                HelixError::NotFound(m) => s@ == "Not found: "@ + m@,
                HelixError::PermissionDenied(m) => s@ == "Permission denied: "@ + m@,
                HelixError::Unsupported(m) => s@ == "Unsupported: "@ + m@,
                HelixError::Cancelled => s@ == "Operation cancelled"@,
                HelixError::Unknown(m) => s@ == "Unknown error: "@ + m@,
            },
    {
        match self {
            HelixError::Device(m) => prefixed("Device operation failed: ", m.as_str()),
            HelixError::Io(e) => {
                let t = e.to_string();
                prefixed("I/O error: ", t.as_str())
            },
            HelixError::Storage(m) => prefixed("Storage error: ", m.as_str()),
            HelixError::Tracking(m) => prefixed("Change tracking error: ", m.as_str()),
            HelixError::Encryption(m) => prefixed("Encryption error: ", m.as_str()),
            HelixError::Configuration(m) => prefixed("Configuration error: ", m.as_str()),
            HelixError::Repository(m) => prefixed("Repository error: ", m.as_str()),
            HelixError::Serialization(e) => {
                let t = e.to_string();
                prefixed("Data format error: ", t.as_str())
            },
            HelixError::Database(e) => {
                let t = e.to_string();
                prefixed("Database error: ", t.as_str())
            },
            HelixError::InvalidInput(m) => prefixed("Invalid input: ", m.as_str()),
            HelixError::NotFound(m) => prefixed("Not found: ", m.as_str()),
            HelixError::PermissionDenied(m) => prefixed("Permission denied: ", m.as_str()),
            HelixError::Unsupported(m) => prefixed("Unsupported: ", m.as_str()),
            HelixError::Cancelled => String::from_str("Operation cancelled"),
            HelixError::Unknown(m) => prefixed("Unknown error: ", m.as_str()),
        }
    }
}

impl From<std::io::Error> for HelixError {
    fn from(e: std::io::Error) -> (r: Self) {
        HelixError::Io(e)
    }
}

impl vstd::std_specs::convert::FromSpecImpl<std::io::Error> for HelixError {
    open spec fn obeys_from_spec() -> bool {
        true
    }

    open spec fn from_spec(v: std::io::Error) -> Self {
        HelixError::Io(v)
    }
}

impl From<serde_json::Error> for HelixError {
    fn from(e: serde_json::Error) -> (r: Self) {
        HelixError::Serialization(e)
    }
}

impl vstd::std_specs::convert::FromSpecImpl<serde_json::Error> for HelixError {
    open spec fn obeys_from_spec() -> bool {
        true
    }

    open spec fn from_spec(v: serde_json::Error) -> Self {
        HelixError::Serialization(v)
    }
}

impl From<rusqlite::Error> for HelixError {
    fn from(e: rusqlite::Error) -> (r: Self) {
        HelixError::Database(e)
    }
}

impl vstd::std_specs::convert::FromSpecImpl<rusqlite::Error> for HelixError {
    open spec fn obeys_from_spec() -> bool {
        true
    }

    open spec fn from_spec(v: rusqlite::Error) -> Self {
        HelixError::Database(v)
    }
}

} // verus!
