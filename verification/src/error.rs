//! The failures a request can end in, and how each is reported to a client.

use vstd::prelude::*;

verus! {

/// Every way in which an operation of this crate can fail.
#[derive(Clone, Copy, Debug, PartialEq, Eq, Structural)]
pub enum PasteError {
    /// The request body is malformed; the client has to correct it.
    ValidationError,
    /// A short token holds a character outside the alphabet, or stands for a
    /// number that is no identifier.
    InvalidToken,
    /// The abuse check said no, or gave no answer.
    AbuseCheckFailed,
    /// The client has used up its creations for the current window.
    QuotaExceeded,
    /// The cipher or the random source refused to seal the text.
    EncryptionFailure,
    /// A stored blob is not hexadecimal, or too short to hold a nonce.
    MalformedEncoding,
    /// The authentication tag does not match: tampering, or the wrong key.
    IntegrityFailure,
    /// The key is missing, is not hexadecimal, or is not 256 bits long.
    KeyUnavailable,
    /// The store failed, or answered with something it cannot have stored.
    StoreFailure,
    /// No paste is stored under the identifier.
    NotFound,
    /// A setting that the service cannot start without is missing.
    ConfigurationError,
}

impl PasteError {
    /// The HTTP status that reports this failure.
    pub open spec fn status(self) -> u16 {
        match self {
            PasteError::ValidationError => 400,
            PasteError::InvalidToken => 400,
            PasteError::AbuseCheckFailed => 403,
            PasteError::NotFound => 404,
            PasteError::QuotaExceeded => 429,
            PasteError::EncryptionFailure => 500,
            PasteError::MalformedEncoding => 500,
            PasteError::IntegrityFailure => 500,
            PasteError::KeyUnavailable => 500,
            PasteError::StoreFailure => 500,
            PasteError::ConfigurationError => 500,
        }
    }

    /// Whether the failure lies with the service and not with the request.
    /// Such a failure is reported without detail.
    pub open spec fn is_internal(self) -> bool {
        self.status() == 500
    }

    /// What a client is told of this failure. A failure of the service itself
    /// is reported in the same few words whatever went wrong, so that nothing
    /// of the cipher's or the store's state leaves the service.
    pub open spec fn message_text(self) -> Seq<char> {
        match self {
            PasteError::ValidationError => "Malformed request"@,
            PasteError::InvalidToken => "Invalid short id"@,
            PasteError::AbuseCheckFailed => "Abuse check failed"@,
            PasteError::NotFound => "Paste not found"@,
            PasteError::QuotaExceeded => "Rate limit exceeded: maximum 5 creations per day"@,
            _ => "Internal error"@,
        }
    }

    /// What a client is told of this failure.
    pub fn message(&self) -> (text: &'static str)
        ensures
            text@ == self.message_text(),
            self.is_internal() ==> text@ == "Internal error"@,
    {
        match self {
            PasteError::ValidationError => "Malformed request",
            PasteError::InvalidToken => "Invalid short id",
            PasteError::AbuseCheckFailed => "Abuse check failed",
            PasteError::NotFound => "Paste not found",
            PasteError::QuotaExceeded => "Rate limit exceeded: maximum 5 creations per day",
            _ => "Internal error",
        }
    }

    /// The HTTP status that reports this failure.
    pub fn status_code(&self) -> (code: u16)
        ensures
            code == self.status(),
    {
        match self {
            PasteError::ValidationError | PasteError::InvalidToken => 400,
            PasteError::AbuseCheckFailed => 403,
            PasteError::NotFound => 404,
            PasteError::QuotaExceeded => 429,
            _ => 500,
        }
    }
}

} // verus!
