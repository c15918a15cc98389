use grandpa_finality::commitment::compute_authority_set_commitment;
use grandpa_finality::validators::verify_encoded_validators;
use grandpa_finality::error::FinalityError;
use sha2::{Digest, Sha256};

#[test]
fn single_key_commitment_is_its_digest() {
    let k1 = [3u8; 32];
    let expected: [u8; 32] = Sha256::digest(k1).into();
    assert_eq!(compute_authority_set_commitment(&[k1]), expected);
}

#[test]
fn commitment_chains_and_depends_on_order() {
    let k1 = [3u8; 32];
    let k2 = [4u8; 32];
    let first: [u8; 32] = Sha256::digest(k1).into();
    let mut input = first.to_vec();
    input.extend_from_slice(&k2);
    let expected: [u8; 32] = Sha256::digest(&input).into();
    assert_eq!(compute_authority_set_commitment(&[k1, k2]), expected);
    assert_ne!(
        compute_authority_set_commitment(&[k1, k2]),
        compute_authority_set_commitment(&[k2, k1])
    );
}

fn encoded_validators(prefix: &[u8], keys: &[[u8; 32]], delay: [u8; 4]) -> Vec<u8> {
    let mut out = prefix.to_vec();
    for k in keys {
        out.extend_from_slice(k);
        out.extend_from_slice(&1u64.to_le_bytes());
    }
    out.extend_from_slice(&delay);
    out
}

#[test]
fn validator_list_accepts_exact_encoding() {
    let keys = vec![[1u8; 32], [2u8; 32], [3u8; 32]];
    let header = encoded_validators(&[9, 9, 9], &keys, [0; 4]);
    assert_eq!(verify_encoded_validators(&header, 3, &keys), Ok(()));
    let mut longer = header.clone();
    longer.extend_from_slice(&[5, 5]);
    assert_eq!(verify_encoded_validators(&longer, 3, &keys), Ok(()));
    assert_eq!(verify_encoded_validators(&[0, 0, 0, 0], 0, &vec![]), Ok(()));
}

#[test]
fn validator_list_rejects_each_alteration() {
    let keys = vec![[1u8; 32], [2u8; 32], [3u8; 32]];
    let header = encoded_validators(&[9, 9, 9], &keys, [0; 4]);
    for v in 0..3 {
        for b in 0..8 {
            let mut h = header.clone();
            h[3 + 40 * v + 32 + b] ^= 0x02;
            assert_eq!(
                verify_encoded_validators(&h, 3, &keys),
                Err(FinalityError::ValidatorMismatch)
            );
        }
    }
    let delayed = encoded_validators(&[9, 9, 9], &keys, [0, 0, 1, 0]);
    assert_eq!(
        verify_encoded_validators(&delayed, 3, &keys),
        Err(FinalityError::ValidatorSetMismatch)
    );
    let substituted = encoded_validators(&[9, 9, 9], &[[1u8; 32], [8u8; 32], [3u8; 32]], [0; 4]);
    assert_eq!(
        verify_encoded_validators(&substituted, 3, &keys),
        Err(FinalityError::ValidatorMismatch)
    );
}

#[test]
fn validator_list_rejects_short_regions() {
    let keys = vec![[1u8; 32], [2u8; 32]];
    let header = encoded_validators(&[], &keys, [0; 4]);
    assert_eq!(
        verify_encoded_validators(&header[..60], 0, &keys),
        Err(FinalityError::ValidatorMismatch)
    );
    assert_eq!(
        verify_encoded_validators(&header[..82], 0, &keys),
        Err(FinalityError::ValidatorSetMismatch)
    );
    assert_eq!(
        verify_encoded_validators(&header, usize::MAX, &keys),
        Err(FinalityError::ValidatorMismatch)
    );
}
