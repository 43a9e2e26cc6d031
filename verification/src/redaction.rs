//! Fail-closed boundary of provider diagnostics.

use vstd::prelude::*;

verus! {

/// Opaque replacement for any text that a provider controls.
#[derive(Clone, Copy, PartialEq, Eq, Structural)]
pub struct RedactedProviderText;

impl RedactedProviderText {
    /// Discards a text.
    pub fn from_untrusted(_value: &str) -> (r: RedactedProviderText)
        ensures
            r == RedactedProviderText,
    {
        RedactedProviderText
    }

    /// What is displayed in place of the text.
    pub fn display(&self) -> (r: &'static str)
        ensures
            r@ == "<redacted-provider-diagnostic>"@,
    {
        "<redacted-provider-diagnostic>"
    }

    /// What is shown in place of the text where values are debugged.
    pub fn debug(&self) -> (r: &'static str)
        ensures
            r@ == "RedactedProviderText(<redacted>)"@,
    {
        "RedactedProviderText(<redacted>)"
    }
}

} // verus!
