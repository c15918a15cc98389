use crate::error::FinalityError;
use vstd::prelude::*;

verus! {

/// Whether 32 bytes decode to an Ed25519 verification key.
pub uninterp spec fn ed25519_key_valid(pubkey: Seq<u8>) -> bool;

/// Whether a 64-byte signature verifies under a valid key over a message.
pub uninterp spec fn ed25519_signature_valid(
    pubkey: Seq<u8>,
    message: Seq<u8>,
    signature: Seq<u8>,
) -> bool;

/// Relies on ed25519_consensus: `VerificationKey::try_from` decides whether the
/// key bytes are a valid key, a function of those bytes alone (`None` when not);
/// `VerificationKey::verify`, given `Signature::from` of the 64 bytes, decides
/// whether the signature is valid, a function of key, message and signature.
#[verifier::external_body]
fn ed25519_verify(pubkey: [u8; 32], message: &[u8], signature: [u8; 64]) -> (r: Option<bool>)
    ensures
        r is Some <==> ed25519_key_valid(pubkey@),
        r is Some ==> r == Some(ed25519_signature_valid(pubkey@, message@, signature@)),
{
    match ed25519_consensus::VerificationKey::try_from(pubkey) {
        Ok(key) => Some(key.verify(&ed25519_consensus::Signature::from(signature), message).is_ok()),
        Err(_) => None,
    }
}

/// The outcome of checking `signature` by `pubkey` over `message`.
pub open spec fn signature_outcome(pubkey: Seq<u8>, message: Seq<u8>, signature: Seq<u8>) -> Result<
    (),
    FinalityError,
> {
    if !ed25519_key_valid(pubkey) {
        Err(FinalityError::InvalidPublicKey)
    } else if !ed25519_signature_valid(pubkey, message, signature) {
        Err(FinalityError::BadSignature)
    } else {
        Ok(())
    }
}

/// Checks that `signature` is a valid Ed25519 signature by `pubkey_bytes` over
/// `signed_message`; a key that does not decode and a signature that does not
/// verify are each an error.
pub fn verify_signature(pubkey_bytes: [u8; 32], signed_message: &[u8], signature: [u8; 64]) -> (r:
    Result<(), FinalityError>)
    ensures
        r == signature_outcome(pubkey_bytes@, signed_message@, signature@),
{
    match ed25519_verify(pubkey_bytes, signed_message, signature) {
        None => Err(FinalityError::InvalidPublicKey),
        Some(true) => Ok(()),
        Some(false) => Err(FinalityError::BadSignature),
    }
}

} // verus!
