use vstd::prelude::*;

verus! {

/// Failure of a cryptographic or storage operation.
///
/// `AuthenticationFailure` means an authentication tag or signature did not
/// verify (wrong key, wrong nonce, or tampered data); it is never used for
/// malformed input, which is `DecodeFailure`. `NotFound` is a missing store
/// entry, and `Backend` a fault of the persistent store itself.
#[derive(Clone, Copy, PartialEq, Eq, Structural, Debug)]
pub enum CryptoError {
    AuthenticationFailure,
    DecodeFailure,
    NotFound,
    Backend,
}

impl CryptoError {
    /// A fixed, safe description of the error kind.
    pub fn describe(&self) -> (r: &'static str)
        ensures
            r@ == self.describe_spec(),
    {
        match self {
            CryptoError::AuthenticationFailure => "authentication failure",
            CryptoError::DecodeFailure => "decode failure",
            CryptoError::NotFound => "not found",
            CryptoError::Backend => "backend failure",
        }
    }

    pub open spec fn describe_spec(&self) -> Seq<char> {
        match self {
            CryptoError::AuthenticationFailure => "authentication failure"@,
            CryptoError::DecodeFailure => "decode failure"@,
            CryptoError::NotFound => "not found"@,
            CryptoError::Backend => "backend failure"@,
        }
    }
}

} // verus!
