use vstd::prelude::*;
use vstd::string::*;

verus! {

broadcast use vstd::string::group_string_axioms;

/// Errors that can arise within the framework.
#[derive(Debug)]
pub enum TezzeraError {
    /// A required resource could not be located.
    NotFound { resource: &'static str },
    /// The system is in an unexpected or inconsistent state.
    InvalidState(String),
    /// A layout computation failed or produced an invalid result.
    LayoutError(String),
    /// An unexpected internal error occurred.
    Internal(String),
}

/// Convenience alias for `Result<T, TezzeraError>`.
pub type TezzeraResult<T> = Result<T, TezzeraError>;

/// The human-readable message of an error.
pub open spec fn error_message(e: TezzeraError) -> Seq<char> {
    match e {
        TezzeraError::NotFound { resource } => "resource not found: "@ + resource@,
        TezzeraError::InvalidState(m) => "invalid state: "@ + m@,
        TezzeraError::LayoutError(m) => "layout error: "@ + m@,
        TezzeraError::Internal(m) => "internal error: "@ + m@,
    }
}

impl TezzeraError {
    /// A `NotFound` error for the given resource name.
    pub fn not_found(resource: &'static str) -> (e: TezzeraError)
        ensures
            e == (TezzeraError::NotFound { resource }),
    {
        TezzeraError::NotFound { resource }
    }

    /// An `Internal` error with the given message.
    pub fn internal(msg: &str) -> (e: TezzeraError)
        ensures
            e matches TezzeraError::Internal(m) && m@ == msg@,
    {
        TezzeraError::Internal(msg.to_owned())
    }

    /// The human-readable message of this error (what its display shows).
    pub fn message(&self) -> (s: String)
        ensures
            s@ == error_message(*self),
    {
        match self {
            TezzeraError::NotFound { resource } => String::from_str("resource not found: ").concat(resource),
            TezzeraError::InvalidState(m) => String::from_str("invalid state: ").concat(m.as_str()),
            TezzeraError::LayoutError(m) => String::from_str("layout error: ").concat(m.as_str()),
            TezzeraError::Internal(m) => String::from_str("internal error: ").concat(m.as_str()),
        }
    }
}

} // verus!
