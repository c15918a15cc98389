use ed25519_consensus::SigningKey;
use grandpa_finality::ancestry::{build_ancestry_map, confirm_ancestry, AncestryMap};
use grandpa_finality::error::FinalityError;
use grandpa_finality::justification::{
    is_signed_by_supermajority, verify_justification, CircuitJustification, Precommit,
};
use grandpa_finality::precommit::encode_precommit_message;
use grandpa_finality::signature::verify_signature;
use parity_scale_codec::{Compact, Encode};

#[test]
fn supermajority_boundary() {
    assert!(!is_signed_by_supermajority(2, 3));
    assert!(is_signed_by_supermajority(3, 3));
    assert!(is_signed_by_supermajority(67, 100));
    assert!(!is_signed_by_supermajority(66, 100));
    assert!(!is_signed_by_supermajority(0, 0));
    assert!(!is_signed_by_supermajority(2, 4));
    assert!(is_signed_by_supermajority(usize::MAX, usize::MAX));
    assert!(!is_signed_by_supermajority(usize::MAX / 3 * 2, usize::MAX));
}

fn chain_map() -> AncestryMap {
    AncestryMap {
        links: vec![([0xa; 32], [0xb; 32]), ([0xb; 32], [0xc; 32]), ([0xc; 32], [0xd; 32])],
    }
}

#[test]
fn ancestry_follows_parent_links() {
    let root = [0xd; 32];
    let map = chain_map();
    assert!(confirm_ancestry(&[0xa; 32], &root, &map));
    assert!(confirm_ancestry(&root, &root, &map));
    assert!(!confirm_ancestry(&[0xe; 32], &root, &map));
    let broken = AncestryMap {
        links: vec![([0xa; 32], [0xb; 32]), ([0xc; 32], [0xd; 32])],
    };
    assert!(!confirm_ancestry(&[0xa; 32], &root, &broken));
    assert!(confirm_ancestry(&root, &root, &AncestryMap { links: vec![] }));
}

#[test]
fn ancestry_stops_on_cycles() {
    let cyclic = AncestryMap {
        links: vec![([0xa; 32], [0xb; 32]), ([0xb; 32], [0xa; 32])],
    };
    assert!(!confirm_ancestry(&[0xa; 32], &[0xd; 32], &cyclic));
    assert!(confirm_ancestry(&[0xa; 32], &[0xb; 32], &cyclic));
}

#[test]
fn ancestry_last_link_wins() {
    let map = AncestryMap {
        links: vec![([0xa; 32], [0xb; 32]), ([0xa; 32], [0xc; 32])],
    };
    assert_eq!(map.parent(&[0xa; 32]), Some([0xc; 32]));
    assert!(!confirm_ancestry(&[0xa; 32], &[0xb; 32], &map));
    assert!(confirm_ancestry(&[0xa; 32], &[0xc; 32], &map));
}

#[test]
fn test_header_parent_hash_extracting() {
    let hash = [0x5a; 32];
    let encoded = (hash, Compact(1u32), [0u8; 32], [0u8; 32], 0u8).encode();
    let map = build_ancestry_map(&vec![encoded], &vec![[0x77; 32]]).unwrap();
    assert_eq!(map.parent(&[0x77; 32]), Some(hash), "Hashes don't match");
}

#[test]
fn ancestry_map_rejects_malformed_headers() {
    assert_eq!(
        build_ancestry_map(&vec![vec![0u8; 31]], &vec![[1u8; 32]]).err(),
        Some(FinalityError::MalformedAncestry)
    );
    assert_eq!(
        build_ancestry_map(&vec![vec![0u8; 32]], &vec![]).err(),
        Some(FinalityError::MalformedAncestry)
    );
}

struct Fixture {
    justification: CircuitJustification,
    hashes: Vec<[u8; 32]>,
    set_hash: [u8; 32],
}

fn fixture(signers: usize) -> Fixture {
    let block = [0xb0; 32];
    let child = [0xc1; 32];
    let round = 9u64;
    let set_id = 4u64;
    let keys: Vec<SigningKey> = (1u8..=3).map(|i| SigningKey::from([i; 32])).collect();
    let valset: Vec<[u8; 32]> = keys.iter().map(|k| k.verification_key().to_bytes()).collect();
    let precommits = keys
        .iter()
        .take(signers)
        .map(|k| {
            let msg = encode_precommit_message(child, 11, round, set_id);
            Precommit {
                target_hash: child,
                target_number: 11,
                pubkey: k.verification_key().to_bytes(),
                signature: k.sign(&msg).to_bytes(),
            }
        })
        .collect();
    let mut header = block.to_vec();
    header.extend_from_slice(&[0u8; 40]);
    Fixture {
        justification: CircuitJustification {
            block_hash: block,
            round,
            authority_set_id: set_id,
            current_authority_set_hash: [0x5e; 32],
            precommits,
            ancestries_encoded: vec![header],
            valset_pubkeys: valset,
        },
        hashes: vec![child],
        set_hash: [0x5e; 32],
    }
}

#[test]
fn justification_accepted_with_all_signers() {
    let f = fixture(3);
    assert_eq!(verify_justification(f.justification, 4, f.set_hash, &f.hashes), Ok(()));
}

#[test]
fn justification_needs_more_than_two_thirds() {
    let f = fixture(2);
    assert_eq!(
        verify_justification(f.justification, 4, f.set_hash, &f.hashes),
        Err(FinalityError::InsufficientSignatures)
    );
}

#[test]
fn justification_rejects_a_corrupted_signature() {
    let mut f = fixture(3);
    f.justification.precommits[0].signature[10] ^= 1;
    assert_eq!(
        verify_justification(f.justification, 4, f.set_hash, &f.hashes),
        Err(FinalityError::BadSignature)
    );
}

#[test]
fn justification_rejects_other_authority_sets() {
    let f = fixture(3);
    assert_eq!(
        verify_justification(f.justification, 5, f.set_hash, &f.hashes),
        Err(FinalityError::AuthoritySetMismatch)
    );
    let f = fixture(3);
    assert_eq!(
        verify_justification(f.justification, 4, [0u8; 32], &f.hashes),
        Err(FinalityError::AuthoritySetMismatch)
    );
}

#[test]
fn justification_ignores_votes_off_the_chain() {
    let f = fixture(3);
    // Without the header linking the voted block to the target, no vote counts.
    assert_eq!(
        verify_justification(f.justification, 4, f.set_hash, &vec![[0x99; 32]]),
        Err(FinalityError::InsufficientSignatures)
    );
    let f = fixture(3);
    assert_eq!(
        verify_justification(f.justification, 4, f.set_hash, &vec![]),
        Err(FinalityError::MalformedAncestry)
    );
}

#[test]
fn signature_check_distinguishes_key_and_signature() {
    let key = SigningKey::from([7u8; 32]);
    let pk = key.verification_key().to_bytes();
    let sig = key.sign(b"vote").to_bytes();
    assert_eq!(verify_signature(pk, b"vote", sig), Ok(()));
    assert_eq!(verify_signature(pk, b"votf", sig), Err(FinalityError::BadSignature));
    let mut invalid_keys = 0;
    for y in 2u8..40 {
        let mut candidate = [0u8; 32];
        candidate[0] = y;
        match verify_signature(candidate, b"vote", sig) {
            Err(FinalityError::InvalidPublicKey) => invalid_keys += 1,
            Err(FinalityError::BadSignature) => {}
            other => panic!("unexpected outcome {:?}", other),
        }
    }
    assert!(invalid_keys > 0);
}

#[test]
fn justification_counts_each_validator_once() {
    let mut f = fixture(1);
    let vote = &f.justification.precommits[0];
    let copy = Precommit {
        target_hash: vote.target_hash,
        target_number: vote.target_number,
        pubkey: vote.pubkey,
        signature: vote.signature,
    };
    let again = Precommit {
        target_hash: vote.target_hash,
        target_number: vote.target_number,
        pubkey: vote.pubkey,
        signature: vote.signature,
    };
    f.justification.precommits.push(copy);
    f.justification.precommits.push(again);
    assert_eq!(f.justification.precommits.len(), 3);
    assert_eq!(
        verify_justification(f.justification, 4, f.set_hash, &f.hashes),
        Err(FinalityError::InsufficientSignatures)
    );
}

#[test]
fn justification_ignores_keys_outside_the_set() {
    let mut f = fixture(3);
    f.justification.valset_pubkeys[2] = [0x42; 32];
    f.justification.valset_pubkeys.push([0x43; 32]);
    // Two of four set members voted.
    assert_eq!(
        verify_justification(f.justification, 4, f.set_hash, &f.hashes),
        Err(FinalityError::InsufficientSignatures)
    );
}
