//! Core engine for a mediated, encrypted, reversible, confidential asset
//! transfer protocol: additively homomorphic ElGamal over the Ristretto
//! group, Sigma-style zero-knowledge proofs made non-interactive through a
//! transcript, and the account, issuance and transfer state machines that
//! a mediator justifies and a validator checks.

use vstd::prelude::*;

pub mod errors;
pub mod math;
pub mod outside;
pub mod group;
pub mod elgamal;
pub mod decrypt;
pub mod transcript;
pub mod signing;
pub mod correctness;
pub mod codec;
pub mod wellformedness;
pub mod equality;
pub mod rangeproof;
pub mod membership;
pub mod refresh;
pub mod account;
pub mod asset;
pub mod transfer;
pub mod validate;

verus! {

/// The order of the Ristretto group: a prime slightly above 2^252.
pub open spec fn group_order() -> int {
    0x1000000000000000000000000000000000000000000000000000000000000000int
        + 27742317777372353535851937790883648493int
}

/// Reduce an integer into the canonical range `[0, group_order())`.
pub open spec fn gmod(n: int) -> int {
    n % group_order()
}

} // verus!
