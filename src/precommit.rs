use crate::bytes::{le_bytes, le_value, lemma_le_round_trip, pow256, read_le};
use crate::error::FinalityError;
use vstd::prelude::*;

verus! {

/// Length of an encoded precommit message: flag, target hash, target number,
/// round and authority set id.
pub const PRECOMMIT_LENGTH: usize = 53;

/// The flag byte that opens every precommit message.
pub const PRECOMMIT_FLAG: u8 = 1;

/// The bytes a validator signs for a precommit vote:
/// `[1] ++ target_hash ++ target_number ++ round ++ authority_set_id`, integers little-endian.
pub open spec fn precommit_message(
    target_hash: Seq<u8>,
    target_number: u32,
    round: u64,
    authority_set_id: u64,
) -> Seq<u8> {
    seq![1u8] + target_hash + le_bytes(target_number as nat, 4) + le_bytes(round as nat, 8)
        + le_bytes(authority_set_id as nat, 8)
}

/// Decoding a precommit message gives back the fields it was made from: the
/// message has the fixed length, opens with the flag, and holds each field at
/// its place.
pub proof fn lemma_precommit_round_trip(
    target_hash: [u8; 32],
    target_number: u32,
    round: u64,
    authority_set_id: u64,
)
    ensures
        ({
            let m = precommit_message(target_hash@, target_number, round, authority_set_id);
            &&& m.len() == 53
            &&& m[0] == 1
            &&& m.subrange(1, 33) == target_hash@
            &&& le_value(m.subrange(33, 37)) == target_number as nat
            &&& le_value(m.subrange(37, 45)) == round as nat
            &&& le_value(m.subrange(45, 53)) == authority_set_id as nat
        }),
{
    reveal_with_fuel(pow256, 9);
    lemma_le_round_trip(target_number as nat, 4);
    lemma_le_round_trip(round as nat, 8);
    lemma_le_round_trip(authority_set_id as nat, 8);
    let m = precommit_message(target_hash@, target_number, round, authority_set_id);
    assert(m.subrange(1, 33) =~= target_hash@);
    assert(m.subrange(33, 37) =~= le_bytes(target_number as nat, 4));
    assert(m.subrange(37, 45) =~= le_bytes(round as nat, 8));
    assert(m.subrange(45, 53) =~= le_bytes(authority_set_id as nat, 8));
}

/// Relies on parity_scale_codec's `Encode` for a tuple `(u8, [u8; 32], u32, u64, u64)`:
/// the fields in order, the array as its raw bytes, each integer little-endian.
#[verifier::external_body]
fn encode_vote_tuple(flag: u8, target_hash: [u8; 32], target_number: u32, round: u64, set_id: u64) -> (r:
    Vec<u8>)
    ensures
        r@ == seq![flag] + target_hash@ + le_bytes(target_number as nat, 4) + le_bytes(
            round as nat,
            8,
        ) + le_bytes(set_id as nat, 8),
{
    parity_scale_codec::Encode::encode(&(flag, target_hash, target_number, round, set_id))
}

/// The message that the vote for `target_hash` at `target_number` in the given
/// round and authority set is signed over.
pub fn encode_precommit_message(
    target_hash: [u8; 32],
    target_number: u32,
    round: u64,
    authority_set_id: u64,
) -> (r: Vec<u8>)
    ensures
        r@ == precommit_message(target_hash@, target_number, round, authority_set_id),
{
    encode_vote_tuple(PRECOMMIT_FLAG, target_hash, target_number, round, authority_set_id)
}

/// Decodes a precommit message into its target hash, target number, round and
/// authority set id, after checking its leading flag byte. Bytes after the
/// fixed layout are ignored.
pub fn decode_and_verify_precommit(precommit: Vec<u8>) -> (r: Result<
    ([u8; 32], u32, u64, u64),
    FinalityError,
>)
    ensures
        r is Ok <==> precommit@.len() >= 53 && precommit@[0] == 1,
        r is Err ==> r == Err::<([u8; 32], u32, u64, u64), FinalityError>(
            FinalityError::MalformedPrecommit,
        ),
        match r {
            Ok((hash, number, round, set_id)) => {
                &&& hash@ == precommit@.subrange(1, 33)
                &&& number as nat == le_value(precommit@.subrange(33, 37))
                &&& round as nat == le_value(precommit@.subrange(37, 45))
                &&& set_id as nat == le_value(precommit@.subrange(45, 53))
            },
            Err(_) => true,
        },
{
    if precommit.len() < PRECOMMIT_LENGTH || precommit[0] != PRECOMMIT_FLAG {
        return Err(FinalityError::MalformedPrecommit);
    }
    let bytes = precommit.as_slice();
    let mut hash: [u8; 32] = [0u8; 32];
    let mut i: usize = 0;
    while i < 32
        invariant
            0 <= i <= 32,
            bytes@ == precommit@,
            precommit@.len() >= 53,
            forall|k: int| 0 <= k < i ==> hash@[k] == precommit@[1 + k],
        decreases 32 - i,
    {
        hash[i] = bytes[1 + i];
        i = i + 1;
    }
    assert(hash@ =~= precommit@.subrange(1, 33));
    let number = read_le(bytes, 33, 4);
    proof {
        crate::bytes::lemma_le_value_bound(precommit@.subrange(33, 37));
        reveal_with_fuel(crate::bytes::pow256, 5);
    }
    let round = read_le(bytes, 37, 8);
    let set_id = read_le(bytes, 45, 8);
    Ok((hash, number as u32, round, set_id))
}

} // verus!
