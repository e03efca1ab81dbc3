//! Failure cases surfaced by interpolation, setup and decryption.

use vstd::prelude::*;

verus! {

/// A cryptographic failure.  All variants are expected outcomes of untrusted
/// input or an insufficient quorum; none aborts the process.
#[derive(Clone, Copy, Debug, PartialEq, Eq, Structural)]
pub enum Error {
    /// Fewer than `threshold + 1` distinct contributions were supplied.
    NotEnoughShares,
    /// Two supplied samples map to the same evaluation point, whose zero
    /// difference cannot be inverted.
    DuplicateEntry,
    /// The requested threshold is too high for the coefficients to be
    /// indexed.
    DegreeTooHigh,
    /// The ciphertext integrity predicate does not hold; decryption refuses
    /// to produce output.
    InvalidCiphertext,
}

impl Error {
    /// A short description of the failure.
    pub fn message(&self) -> (r: &'static str)
        ensures
            r@ == self.spec_message(),
    {
        match self {
            Error::NotEnoughShares => "Not enough signature shares",
            Error::DuplicateEntry => "Signature shares contain a duplicated index",
            Error::DegreeTooHigh => "The degree is too high for the coefficients to be indexed by usize.",
            Error::InvalidCiphertext => "The ciphertext is not valid",
        }
    }

    /// The description returned by `message`.
    pub open spec fn spec_message(self) -> Seq<char> {
        match self {
            Error::NotEnoughShares => "Not enough signature shares"@,
            Error::DuplicateEntry => "Signature shares contain a duplicated index"@,
            Error::DegreeTooHigh => "The degree is too high for the coefficients to be indexed by usize."@,
            Error::InvalidCiphertext => "The ciphertext is not valid"@,
        }
    }
}

/// An error reading a structure from an array of bytes.
#[derive(Clone, Copy, Debug, PartialEq, Eq, Structural)]
pub enum FromBytesError {
    /// The bytes are not the representation of a group element.
    Invalid,
}

impl FromBytesError {
    /// A short description of the failure.
    pub fn message(&self) -> (r: &'static str)
        ensures
            r@ == "Invalid representation."@,
    {
        match self {
            FromBytesError::Invalid => "Invalid representation.",
        }
    }
}

} // verus!
