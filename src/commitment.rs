use crate::bytes::keys_view;
use vstd::prelude::*;

verus! {

/// The SHA-256 digest of `data`.
pub uninterp spec fn sha256_of(data: Seq<u8>) -> Seq<u8>;

/// Relies on sha2's `Sha256::digest`: the digest of the bytes, a function of
/// them alone, turned into a 32-byte array.
#[verifier::external_body]
fn sha256(data: &[u8]) -> (r: [u8; 32])
    ensures
        r@ == sha256_of(data@),
{
    <sha2::Sha256 as sha2::Digest>::digest(data).into()
}

/// The hash chain over `keys`: the digest of the first key, then for each
/// further key the digest of the running value followed by that key.
pub open spec fn commitment_of(keys: Seq<Seq<u8>>) -> Seq<u8>
    decreases keys.len(),
{
    if keys.len() <= 1 {
        sha256_of(keys[0])
    } else {
        sha256_of(commitment_of(keys.drop_last()) + keys.last())
    }
}

/// The commitment to a single key is the digest of that key.
pub proof fn lemma_single_key_commitment(key: Seq<u8>)
    ensures
        commitment_of(seq![key]) == sha256_of(key),
{
}

/// Folds an ordered, non-empty list of public keys into one 32-byte
/// commitment; the order of the keys matters.
pub fn compute_authority_set_commitment(pubkeys: &[[u8; 32]]) -> (r: [u8; 32])
    requires
        pubkeys@.len() > 0,
    ensures
        r@ == commitment_of(keys_view(pubkeys@)),
{
    let n: usize = pubkeys.len();
    let mut acc: [u8; 32] = sha256(pubkeys[0].as_slice());
    let mut i: usize = 1;
    proof {
        assert(keys_view(pubkeys@).subrange(0, 1) =~= seq![pubkeys@[0]@]);
    }
    while i < n
        invariant
            1 <= i <= n,
            n == pubkeys@.len(),
            acc@ == commitment_of(keys_view(pubkeys@).subrange(0, i as int)),
        decreases n - i,
    {
        let mut input: Vec<u8> = Vec::new();
        input.extend_from_slice(acc.as_slice());
        input.extend_from_slice(pubkeys[i].as_slice());
        proof {
            let ks = keys_view(pubkeys@);
            assert(ks.subrange(0, i + 1).drop_last() =~= ks.subrange(0, i as int));
            assert(input@ =~= acc@ + pubkeys@[i as int]@);
        }
        acc = sha256(input.as_slice());
        i = i + 1;
    }
    proof {
        assert(keys_view(pubkeys@).subrange(0, n as int) =~= keys_view(pubkeys@));
    }
    acc
}

} // verus!
