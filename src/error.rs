use vstd::prelude::*;

verus! {

/// Every way a second-factor operation can be refused.
#[derive(Debug, Clone, Copy, PartialEq, Eq, Structural)]
pub enum TotpError {
    /// The secret text is not base32, or does not decode to the required length.
    InvalidSecretFormat,
    /// The submitted code is not purely numeric.
    InvalidCodeFormat,
    /// No time-step of the drift window produced the submitted code.
    InvalidCode,
    /// The submitted code is correct, but for a time-step already consumed.
    ReplayedCode,
    /// The key given to revoke a factor differs from the stored one.
    MismatchedKey,
}

} // verus!
