//! The errors of the decoders.
use vstd::prelude::*;

verus! {

/// Why an input was refused.
#[derive(Clone, Copy, Debug, PartialEq, Eq, Structural)]
pub enum X509Error {
    /// The input ends before the structure does.
    Truncated,
    /// The codec refused an element for another reason than its end.
    Malformed,
    /// An element does not have the tag that the grammar asks for.
    InvalidTag,
    /// An element has a length that the grammar does not allow.
    InvalidLength,
    InvalidVersion,
    InvalidSerial,
    InvalidAlgorithmIdentifier,
    InvalidX509Name,
    InvalidDate,
    InvalidSPKI,
    InvalidSubjectUID,
    InvalidIssuerUID,
    InvalidExtensions,
    InvalidAttributes,
    /// The same extension occurs twice in one list.
    DuplicateExtensions,
    /// The same attribute occurs twice in one list.
    DuplicateAttributes,
    /// A critical extension is unknown, or its content could not be decoded.
    UnsupportedCriticalExtension,
    InvalidSignatureValue,
    InvalidCertificate,
    SignatureVerificationError,
    SignatureUnsupportedAlgorithm,
}

impl X509Error {
    /// True of the error that reports an input cut short.
    pub open spec fn spec_is_truncated(self) -> bool {
        self == X509Error::Truncated
    }

    #[verifier::when_used_as_spec(spec_is_truncated)]
    pub fn is_truncated(self) -> (r: bool)
        ensures
            r == (self == X509Error::Truncated),
    {
        matches!(self, X509Error::Truncated)
    }
}

} // verus!
