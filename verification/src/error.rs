use vstd::prelude::*;

verus! {

/// Errors surfaced by the core. Validation and not-found failures reject an
/// operation atomically with no partial effect; internal errors stand for
/// storage-level faults or failed exchanges with the relay.
#[derive(Debug, Clone)]
pub enum AppError {
    NotFound(String),
    Validation(String),
    Auth(String),
    Internal(String),
}

impl AppError {
    /// The message carried by the error, whichever the variant.
    pub open spec fn message_view(&self) -> Seq<char> {
        match self {
            AppError::NotFound(m) => m@,
            AppError::Validation(m) => m@,
            AppError::Auth(m) => m@,
            AppError::Internal(m) => m@,
        }
    }

    /// The human-readable message carried by the error.
    pub fn message(&self) -> (r: &str)
        ensures
            r@ == self.message_view(),
    {
        match self {
            AppError::NotFound(m) => m.as_str(),
            AppError::Validation(m) => m.as_str(),
            AppError::Auth(m) => m.as_str(),
            AppError::Internal(m) => m.as_str(),
        }
    }
}

} // verus!
