//! The error taxonomy of the data-access core.
//!
//! Every fallible operation of the library returns one of these kinds
//! explicitly; the transport-level representation of an error is left to the
//! embedding application.

use vstd::prelude::*;

verus! {

/// A typed failure of a core operation.
///
/// - `UsernameOrEmailExists`: a unique constraint (username or email taken).
/// - `TokenCreationFailure`: the token could not be issued (time overflow or
///   a signing failure); an unexpected condition, not a normal failure mode.
/// - `ValidationError`: malformed input (an invalid email address).
/// - `AuthenticationFailure`: a missing, malformed, forged or expired token.
/// - `IncorrectUsernameOrPassword`: a login with unknown identity or wrong
///   password; deliberately one variant for both, to avoid leaking whether an
///   account exists.
/// - `Forbidden`: a valid caller who does not own the resource.
/// - `NoUserFound` / `NoArticleFound` / `NoCommentFound`: the selected
///   resource does not exist.
/// - `NoCommentAdded`: a comment insert matched no parent article.
/// - `UnhandledDBError`: an unhandled backing-store failure.
/// - `WebServerConnectionFailure`: reserved for the embedding application.
/// - `UnexpectedError`: an invariant violation inside the library.
#[derive(Debug, Clone)]
pub enum BackendError {
    UsernameOrEmailExists,
    TokenCreationFailure(String),
    ValidationError(String),
    AuthenticationFailure,
    IncorrectUsernameOrPassword(String),
    Forbidden,
    NoUserFound(String),
    NoArticleFound,
    NoCommentFound(i32),
    NoCommentAdded,
    UnhandledDBError(String, String),
    WebServerConnectionFailure(String),
    UnexpectedError(String),
}

impl BackendError {
    /// A human-readable description of the error, in place of `Display`.
    pub fn message(&self) -> String {
        match self {
            BackendError::UsernameOrEmailExists => {
                "username or email is already taken".to_owned()
            },
            BackendError::IncorrectUsernameOrPassword(email) => {
                "incorrect credentials for ".to_owned().concat(email.as_str())
            },
            BackendError::TokenCreationFailure(message) => {
                "JWT not created, reason: ".to_owned().concat(message.as_str())
            },
            BackendError::ValidationError(message) => message.clone(),
            BackendError::AuthenticationFailure => "authentication failure".to_owned(),
            BackendError::Forbidden => "operation not authorized".to_owned(),
            BackendError::NoUserFound(user_data) => {
                "user with ".to_owned().concat(user_data.as_str()).concat(" not found")
            },
            BackendError::NoArticleFound => "article not found".to_owned(),
            BackendError::NoCommentFound(_) => "comment with given id not found".to_owned(),
            BackendError::NoCommentAdded => "no comment added".to_owned(),
            BackendError::UnhandledDBError(msg, _) => {
                "unhandled db error: ".to_owned().concat(msg.as_str())
            },
            BackendError::UnexpectedError(msg) => {
                "unexpected server error occured: ".to_owned().concat(msg.as_str())
            },
            BackendError::WebServerConnectionFailure(msg) => {
                "web server connection failed: ".to_owned().concat(msg.as_str())
            },
        }
    }
}

} // verus!
