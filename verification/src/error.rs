//! Stable error classes shared by every provider.

use vstd::prelude::*;

verus! {

/// Stable, text-free failure class.
#[derive(Debug, Clone, Copy, PartialEq, Eq, Structural)]
pub enum ErrorKind {
    MissingCredential,
    AuthenticationExpired,
    PermissionDenied,
    RateLimited,
    ProviderUnavailable,
    Network,
    Api,
    Parse,
}

/// A failure class with an optional retry delay in whole seconds.
#[derive(Debug, Clone, Copy, PartialEq, Eq, Structural)]
pub struct ClassifiedError {
    pub kind: ErrorKind,
    pub retry_after_seconds: Option<u64>,
}

impl ClassifiedError {
    /// A failure without a retry delay.
    pub fn new(kind: ErrorKind) -> (error: Self)
        ensures
            error == plain(kind),
    {
        ClassifiedError { kind, retry_after_seconds: None }
    }

    /// The failure class.
    pub fn kind(&self) -> (kind: ErrorKind)
        ensures
            kind == self.kind,
    {
        self.kind
    }

    /// The failure of an account whose key a denied answer shows to be unusable:
    /// a denial counts as an expired login, any other failure stays.
    pub fn denied_as_expired(self) -> (error: Self)
        ensures
            error == expired_if_denied(self),
    {
        match self.kind {
            ErrorKind::PermissionDenied => ClassifiedError::new(ErrorKind::AuthenticationExpired),
            _ => self,
        }
    }
}

/// A denial as an expired login, and any other failure as it is.
pub open spec fn expired_if_denied(error: ClassifiedError) -> ClassifiedError {
    if error.kind == ErrorKind::PermissionDenied {
        plain(ErrorKind::AuthenticationExpired)
    } else {
        error
    }
}

/// The failure of class `kind` that carries no retry delay.
pub open spec fn plain(kind: ErrorKind) -> ClassifiedError {
    ClassifiedError { kind, retry_after_seconds: None }
}

} // verus!
