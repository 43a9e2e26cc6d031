//! Outcomes of reading a manually captured session.

use vstd::prelude::*;

verus! {

/// Why a manual capture was rejected.
#[derive(Debug, Clone, Copy, PartialEq, Eq, Structural)]
pub enum ManualCaptureError {
    InputTooLarge,
    InvalidPolicy,
    InvalidSyntax,
    UnsafeSyntax,
    UnsafeOption,
    TooManyTokens,
    TooManyHeaders,
    MissingSecret,
    InvalidSecret,
    DuplicateSecret,
    ConflictingHeader,
    DisallowedHeader,
    DisallowedUrl,
}

} // verus!
