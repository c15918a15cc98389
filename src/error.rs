use vstd::prelude::*;

verus! {

/// Why a finality verification rejected its input.
#[derive(Clone, Copy, Debug, PartialEq, Eq, Structural)]
pub enum FinalityError {
    /// A precommit message is shorter than its fixed layout or lacks the leading flag byte.
    MalformedPrecommit,
    /// A compact integer is truncated or not in canonical form.
    MalformedInteger,
    /// An ancestry header is shorter than its parent-hash field, or has no content hash.
    MalformedAncestry,
    /// The public key bytes do not form a valid Ed25519 verification key.
    InvalidPublicKey,
    /// An Ed25519 signature does not verify.
    BadSignature,
    /// The authority set id or commitment differs from the expected one.
    AuthoritySetMismatch,
    /// Too few confirmed, set-member votes for a supermajority.
    InsufficientSignatures,
    /// A validator record holds another key, a weight other than one, or is cut short.
    ValidatorMismatch,
    /// The delay field after the validator records is not zero, or is cut short.
    ValidatorSetMismatch,
}

} // verus!
