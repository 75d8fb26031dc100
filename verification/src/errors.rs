//! The error taxonomy of the protocol core.  Proof, signature and state
//! errors are never recovered from inside the core: the transaction they
//! concern is refused or moves to a rejected state.

use vstd::prelude::*;

verus! {

#[derive(Clone, Copy, Debug, PartialEq, Eq, Structural)]
pub enum MercatError {
    /// Bytes that do not decode to a canonical, non-identity group element.
    InvalidPoint,
    /// Bytes that do not decode to a canonical scalar.
    InvalidScalar,
    /// A ticker longer than the room an asset-id scalar gives it.
    TickerTooLong,
    /// An asset id outside the allowed set.
    UnknownAssetId,
    /// A message too short or otherwise malformed for its wire layout.
    DecodeError,
    /// The correctness proof failed the numbered verifier check.
    CorrectnessFinalResponseVerificationError { check: u16 },
    /// The well-formedness proof failed the numbered verifier check.
    WellformednessFinalResponseVerificationError { check: u16 },
    /// The ciphertext-equality proof failed the numbered verifier check.
    CipherEqualityFinalResponseVerificationError { check: u16 },
    /// The balance-refreshment proof failed the numbered verifier check.
    RefreshmentFinalResponseVerificationError { check: u16 },
    /// The membership proof over the allowed asset ids failed.
    MembershipProofVerificationError,
    /// The range proof on a transferred amount failed.
    RangeProofVerificationError,
    /// A signature does not verify under the attested public key.
    SignatureVerificationError,
    /// An operation was invoked against a transaction in the wrong state.
    WrongState,
    /// A message names an account other than the one it is checked against.
    AccountIdMismatch,
    /// A stored public key does not match the one the secret key derives.
    KeyMismatch,
    /// The plaintext lies outside the searched range.
    DecryptionOutOfRange,
    /// The mediator decrypted an amount that differs from the declared one.
    AmountMismatch,
    /// The sender asked to transfer more than the pending balance holds.
    NotEnoughBalance,
}

} // verus!
