//! Errors that the library reports, each with its message.
use vstd::prelude::*;

verus! {

/// An error of the application's own logic.
#[derive(Debug, Clone)]
pub enum AppError {
    TauriError(String),
    WorkspaceError(String),
    AiError(String),
    NotFound(String),
    Internal(String),
    /// An error reported by its message alone.
    Anyhow(String),
}

/// Results whose error is an `AppError`.
pub type AppResult<T> = Result<T, AppError>;

impl AppError {
    /// The message the error carries.
    pub fn message(&self) -> (m: &str)
        ensures
            m@ == error_message(*self),
    {
        match self {
            AppError::TauriError(s) => s.as_str(),
            AppError::WorkspaceError(s) => s.as_str(),
            AppError::AiError(s) => s.as_str(),
            AppError::NotFound(s) => s.as_str(),
            AppError::Internal(s) => s.as_str(),
            AppError::Anyhow(s) => s.as_str(),
        }
    }
}

/// The message an error carries.
pub open spec fn error_message(e: AppError) -> Seq<char> {
    match e {
        AppError::TauriError(s) => s@,
        AppError::WorkspaceError(s) => s@,
        AppError::AiError(s) => s@,
        AppError::NotFound(s) => s@,
        AppError::Internal(s) => s@,
        AppError::Anyhow(s) => s@,
    }
}

/// An `AppError::NotFound` with the given message.
pub fn not_found(msg: &str) -> (e: AppError)
    ensures
        e matches AppError::NotFound(s) && s@ == msg@,
{
    AppError::NotFound(msg.to_string())
}

} // verus!
