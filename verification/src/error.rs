//! What can go wrong, and how the failures are classified.

use vstd::prelude::*;
use crate::store::KeyId;
use crate::submission::SubmissionField;

verus! {

/// A failure of one of this crate's operations.
#[derive(Clone, Copy, Debug, PartialEq, Eq, Structural)]
pub enum PkiError {
    /// A signature that was just produced did not verify under the signer's
    /// own verifying key.
    SelfCheckFailed,
    /// A signature is not 64 bytes long or does not verify under the key it
    /// was checked against.
    SignatureInvalid,
    /// The key store holds no record under this identifier.
    MissingRecord(KeyId),
    /// The record stored under this identifier does not parse.
    MalformedRecord(KeyId),
    /// A submitted field is not base64.
    InvalidEncoding(SubmissionField),
    /// A submitted field decodes to the wrong number of bytes.
    InvalidLength(SubmissionField),
}

/// The classes into which failures fall.
#[derive(Clone, Copy, Debug, PartialEq, Eq, Structural)]
pub enum ErrorKind {
    /// Malformed or wrong-length encoded input.
    Decode,
    /// A cryptographic check failed.
    Signature,
    /// A stored record is absent or does not parse.
    Storage,
}

impl PkiError {
    /// The class of this failure.
    pub open spec fn kind_spec(self) -> ErrorKind {
        match self {
            PkiError::SelfCheckFailed => ErrorKind::Signature,
            PkiError::SignatureInvalid => ErrorKind::Signature,
            PkiError::MissingRecord(_) => ErrorKind::Storage,
            PkiError::MalformedRecord(_) => ErrorKind::Storage,
            PkiError::InvalidEncoding(_) => ErrorKind::Decode,
            PkiError::InvalidLength(_) => ErrorKind::Decode,
        }
    }

    /// The class of this failure.
    pub fn kind(&self) -> (kind: ErrorKind)
        ensures
            kind == self.kind_spec(),
    {
        match self {
            PkiError::SelfCheckFailed => ErrorKind::Signature,
            PkiError::SignatureInvalid => ErrorKind::Signature,
            PkiError::MissingRecord(_) => ErrorKind::Storage,
            PkiError::MalformedRecord(_) => ErrorKind::Storage,
            PkiError::InvalidEncoding(_) => ErrorKind::Decode,
            PkiError::InvalidLength(_) => ErrorKind::Decode,
        }
    }
}

} // verus!
