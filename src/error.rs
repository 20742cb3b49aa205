use vstd::prelude::*;

verus! {

/// Every failure that the key-set cache, the token validator and the login
/// flow report to their caller.
#[derive(Debug, Clone, PartialEq, Eq)]
pub enum AuthError {
    /// The server could not be reached.
    NetworkError,
    /// The server answered with a status outside 200..=299.
    HttpStatusError { status: u16, body: String },
    /// A token, a document or a key could not be read.
    ParseError,
    /// The fetched key set holds no key.
    KeySetEmpty,
    /// No key of the set matches the resolved key identifier (or, without one,
    /// no key declares RS256).
    KeyNotFound { kid: Option<String> },
    SignatureInvalid,
    UnsupportedAlgorithm,
    ExpiredToken,
    IssuerMismatch,
    MissingSubject,
    MissingToken,
    SessionExpired,
    SessionInvalid,
    PollTimeout,
    /// The login server answered with a status it does not document; the
    /// server's message, else the status itself.
    UnexpectedStatus { message: String },
}

/// `AuthError` with its text replaced by character sequences.
pub enum AuthFailure {
    NetworkError,
    HttpStatusError(u16, Seq<char>),
    ParseError,
    KeySetEmpty,
    KeyNotFound(Option<Seq<char>>),
    SignatureInvalid,
    UnsupportedAlgorithm,
    ExpiredToken,
    IssuerMismatch,
    MissingSubject,
    MissingToken,
    SessionExpired,
    SessionInvalid,
    PollTimeout,
    UnexpectedStatus(Seq<char>),
}

pub open spec fn opt_view(o: Option<String>) -> Option<Seq<char>> {
    match o {
        Some(s) => Some(s@),
        None => None,
    }
}

impl View for AuthError {
    type V = AuthFailure;

    open spec fn view(&self) -> AuthFailure {
        match self {
            AuthError::NetworkError => AuthFailure::NetworkError,
            AuthError::HttpStatusError { status, body } => AuthFailure::HttpStatusError(*status, body@),
            AuthError::ParseError => AuthFailure::ParseError,
            AuthError::KeySetEmpty => AuthFailure::KeySetEmpty,
            AuthError::KeyNotFound { kid } => AuthFailure::KeyNotFound(opt_view(*kid)),
            AuthError::SignatureInvalid => AuthFailure::SignatureInvalid,
            AuthError::UnsupportedAlgorithm => AuthFailure::UnsupportedAlgorithm,
            AuthError::ExpiredToken => AuthFailure::ExpiredToken,
            AuthError::IssuerMismatch => AuthFailure::IssuerMismatch,
            AuthError::MissingSubject => AuthFailure::MissingSubject,
            AuthError::MissingToken => AuthFailure::MissingToken,
            AuthError::SessionExpired => AuthFailure::SessionExpired,
            AuthError::SessionInvalid => AuthFailure::SessionInvalid,
            AuthError::PollTimeout => AuthFailure::PollTimeout,
            AuthError::UnexpectedStatus { message } => AuthFailure::UnexpectedStatus(message@),
        }
    }
}

/// A copy of an optional string.
pub fn copy_opt(o: &Option<String>) -> (r: Option<String>)
    ensures
        r == *o,
{
    match o {
        Some(s) => Some(s.clone()),
        None => None,
    }
}

/// Whether `status` is a success status (200..=299).
pub open spec fn is_success_status(status: u16) -> bool {
    200 <= status <= 299
}

} // verus!
