//! The application's error kinds and their messages.
use vstd::prelude::*;
use crate::text;

verus! {

/// The application's errors, each with its detail text.
#[derive(Debug)]
pub enum AppError {
    Playback(String),
    Library(String),
    Database(String),
    Metadata(String),
    Recommendation(String),
    ExternalApi { provider: String, message: String },
    NotFound(String),
    Validation(String),
    Configuration(String),
    Internal(String),
}

/// The message of an error: its kind's prefix and its detail.
pub open spec fn error_message(e: AppError) -> Seq<char> {
    match e {
        AppError::Playback(s) => "Playback error: "@ + s@,
        AppError::Library(s) => "Library error: "@ + s@,
        AppError::Database(s) => "Database error: "@ + s@,
        AppError::Metadata(s) => "Metadata provider error: "@ + s@,
        AppError::Recommendation(s) => "Recommendation error: "@ + s@,
        AppError::ExternalApi { provider, message } => "External API error ("@ + provider@ + "): "@
            + message@,
        AppError::NotFound(s) => "Entity not found: "@ + s@,
        AppError::Validation(s) => "Validation error: "@ + s@,
        AppError::Configuration(s) => "Configuration error: "@ + s@,
        AppError::Internal(s) => "Internal error: "@ + s@,
    }
}

impl AppError {
    /// The message of the error.
    pub fn message(&self) -> (m: String)
        ensures
            m@ == error_message(*self),
    {
        match self {
            AppError::Playback(s) => text::concat2("Playback error: ", s.as_str()),
            AppError::Library(s) => text::concat2("Library error: ", s.as_str()),
            AppError::Database(s) => text::concat2("Database error: ", s.as_str()),
            AppError::Metadata(s) => text::concat2("Metadata provider error: ", s.as_str()),
            AppError::Recommendation(s) => text::concat2("Recommendation error: ", s.as_str()),
            AppError::ExternalApi { provider, message } => {
                let head = text::concat3("External API error (", provider.as_str(), "): ");
                text::concat2(head.as_str(), message.as_str())
            },
            AppError::NotFound(s) => text::concat2("Entity not found: ", s.as_str()),
            AppError::Validation(s) => text::concat2("Validation error: ", s.as_str()),
            AppError::Configuration(s) => text::concat2("Configuration error: ", s.as_str()),
            AppError::Internal(s) => text::concat2("Internal error: ", s.as_str()),
        }
    }

    /// A validation error with the given detail.
    pub fn validation(detail: &str) -> (e: AppError)
        ensures
            e matches AppError::Validation(s) && s@ == detail@,
    {
        AppError::Validation(detail.to_string())
    }
}

} // verus!
