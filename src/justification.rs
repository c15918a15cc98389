use crate::ancestry::{
    build_ancestry_map, confirm_ancestry, header_links, headers_well_formed, reaches,
};
use crate::bytes::{bytes32_eq, keys_view};
use crate::error::FinalityError;
use crate::precommit::{encode_precommit_message, precommit_message};
use crate::signature::{signature_outcome, verify_signature};
use vstd::prelude::*;

verus! {

/// A validator's signed vote for a target block.
pub struct Precommit {
    pub target_hash: [u8; 32],
    pub target_number: u32,
    pub pubkey: [u8; 32],
    pub signature: [u8; 64],
}

/// A finality proof: votes for `block_hash` in a round of an authority set,
/// the encoded headers linking the voted blocks to it, and the validator set.
pub struct CircuitJustification {
    pub block_hash: [u8; 32],
    pub round: u64,
    pub authority_set_id: u64,
    pub current_authority_set_hash: [u8; 32],
    pub precommits: Vec<Precommit>,
    pub ancestries_encoded: Vec<Vec<u8>>,
    pub valset_pubkeys: Vec<[u8; 32]>,
}

/// Strictly more than two thirds of the validator set.
pub open spec fn is_supermajority(num_signatures: int, validator_set_size: int) -> bool {
    3 * num_signatures > 2 * validator_set_size
}

/// Whether `num_signatures` is strictly more than two thirds of `validator_set_size`.
pub fn is_signed_by_supermajority(num_signatures: usize, validator_set_size: usize) -> (r: bool)
    ensures
        r == is_supermajority(num_signatures as int, validator_set_size as int),
{
    (num_signatures as u128) * 3 > (validator_set_size as u128) * 2
}

/// Whether `key` is one of `keys`.
pub open spec fn holds_key(key: Seq<u8>, keys: Seq<[u8; 32]>) -> bool {
    exists|i: int| 0 <= i < keys.len() && (#[trigger] keys[i])@ == key
}

/// Whether `key` is one of `keys`.
pub fn contains_key(keys: &Vec<[u8; 32]>, key: &[u8; 32]) -> (r: bool)
    ensures
        r == holds_key(key@, keys@),
{
    let n: usize = keys.len();
    let mut i: usize = 0;
    while i < n
        invariant
            0 <= i <= n,
            n == keys@.len(),
            forall|k: int| 0 <= k < i ==> (#[trigger] keys@[k])@ != key@,
        decreases n - i,
    {
        if bytes32_eq(&keys[i], key) {
            return true;
        }
        i = i + 1;
    }
    false
}

/// The outcome of checking the signature of `p` for the given round and authority set.
pub open spec fn precommit_signature_outcome(p: Precommit, round: u64, set_id: u64) -> Result<
    (),
    FinalityError,
> {
    signature_outcome(
        p.pubkey@,
        precommit_message(p.target_hash@, p.target_number, round, set_id),
        p.signature@,
    )
}

/// The first signature failure among `ps`, in order, or `Ok` when all verify.
pub open spec fn signatures_outcome(ps: Seq<Precommit>, round: u64, set_id: u64) -> Result<
    (),
    FinalityError,
>
    decreases ps.len(),
{
    if ps.len() == 0 {
        Ok(())
    } else {
        match signatures_outcome(ps.drop_last(), round, set_id) {
            Err(e) => Err(e),
            Ok(()) => precommit_signature_outcome(ps.last(), round, set_id),
        }
    }
}

/// A signature failure among the first `k` precommits is the failure of them all.
pub proof fn lemma_signature_failure_persists(ps: Seq<Precommit>, k: int, round: u64, set_id: u64)
    requires
        0 <= k <= ps.len(),
        signatures_outcome(ps.subrange(0, k), round, set_id) is Err,
    ensures
        signatures_outcome(ps, round, set_id) == signatures_outcome(ps.subrange(0, k), round, set_id),
    decreases ps.len(),
{
    if k == ps.len() {
        assert(ps.subrange(0, k) =~= ps);
    } else {
        assert(ps.drop_last().subrange(0, k) =~= ps.subrange(0, k));
        lemma_signature_failure_persists(ps.drop_last(), k, round, set_id);
    }
}

/// Whether the vote `p` counts: its target descends from `block` and its key
/// is in the validator set.
pub open spec fn vote_counts(
    p: Precommit,
    block: Seq<u8>,
    links: Seq<(Seq<u8>, Seq<u8>)>,
    valset: Seq<[u8; 32]>,
) -> bool {
    reaches(links, p.target_hash@, block, links.len()) && holds_key(p.pubkey@, valset)
}

/// The keys of the votes among `ps` that count; a key that votes more than
/// once is one key.
pub open spec fn counted_keys(
    ps: Seq<Precommit>,
    block: Seq<u8>,
    links: Seq<(Seq<u8>, Seq<u8>)>,
    valset: Seq<[u8; 32]>,
) -> Set<Seq<u8>>
    decreases ps.len(),
{
    if ps.len() == 0 {
        Set::empty()
    } else {
        let earlier = counted_keys(ps.drop_last(), block, links, valset);
        if vote_counts(ps.last(), block, links, valset) {
            earlier.insert(ps.last().pubkey@)
        } else {
            earlier
        }
    }
}

/// The outcome of verifying `j` against the expected authority set, where
/// `header_hashes[i]` is the content hash of `j.ancestries_encoded[i]`.
pub open spec fn justification_outcome(
    j: CircuitJustification,
    authority_set_id: u64,
    authority_set_hash: Seq<u8>,
    header_hashes: Seq<[u8; 32]>,
) -> Result<(), FinalityError> {
    if j.current_authority_set_hash@ != authority_set_hash || j.authority_set_id
        != authority_set_id {
        Err(FinalityError::AuthoritySetMismatch)
    } else if !headers_well_formed(j.ancestries_encoded@, header_hashes) {
        Err(FinalityError::MalformedAncestry)
    } else {
        match signatures_outcome(j.precommits@, j.round, j.authority_set_id) {
            Err(e) => Err(e),
            Ok(()) => {
                let links = header_links(j.ancestries_encoded@, header_hashes);
                if is_supermajority(
                    counted_keys(j.precommits@, j.block_hash@, links, j.valset_pubkeys@).len() as int,
                    j.valset_pubkeys@.len() as int,
                ) {
                    Ok(())
                } else {
                    Err(FinalityError::InsufficientSignatures)
                }
            },
        }
    }
}

/// Verifies that a supermajority of the validator set voted for
/// `justification.block_hash` or a descendant of it, in the expected authority
/// set. `header_hashes[i]` is the content hash of
/// `justification.ancestries_encoded[i]`.
///
/// Every precommit's signature must verify, whether or not its vote counts; a
/// vote counts when its target descends from the block and its key is in the
/// validator set. Each key counts once, however many of its votes count, so
/// that repeating one validator's vote cannot make up a supermajority.
pub fn verify_justification(
    justification: CircuitJustification,
    authority_set_id: u64,
    current_authority_set_hash: [u8; 32],
    header_hashes: &Vec<[u8; 32]>,
) -> (r: Result<(), FinalityError>)
    ensures
        r == justification_outcome(
            justification,
            authority_set_id,
            current_authority_set_hash@,
            header_hashes@,
        ),
{
    if !bytes32_eq(&justification.current_authority_set_hash, &current_authority_set_hash) {
        return Err(FinalityError::AuthoritySetMismatch);
    }
    if justification.authority_set_id != authority_set_id {
        return Err(FinalityError::AuthoritySetMismatch);
    }
    let ancestry_map = match build_ancestry_map(&justification.ancestries_encoded, header_hashes) {
        Ok(m) => m,
        Err(e) => {
            return Err(e);
        },
    };
    let ghost links = header_links(justification.ancestries_encoded@, header_hashes@);
    let ghost ps = justification.precommits@;
    let n: usize = justification.precommits.len();
    let mut count: usize = 0;
    let mut counted: Vec<[u8; 32]> = Vec::new();
    let mut i: usize = 0;
    proof {
        assert(ps.subrange(0, 0) =~= Seq::<Precommit>::empty());
    }
    while i < n
        invariant
            0 <= i <= n,
            n == ps.len(),
            ps == justification.precommits@,
            ancestry_map.view() == links,
            count <= i,
            signatures_outcome(ps.subrange(0, i as int), justification.round, authority_set_id)
                == Ok::<(), FinalityError>(()),
            count == counted@.len(),
            keys_view(counted@).no_duplicates(),
            keys_view(counted@).to_set() == counted_keys(
                ps.subrange(0, i as int),
                justification.block_hash@,
                links,
                justification.valset_pubkeys@,
            ),
            justification.authority_set_id == authority_set_id,
            justification.current_authority_set_hash@ == current_authority_set_hash@,
            headers_well_formed(justification.ancestries_encoded@, header_hashes@),
        decreases n - i,
    {
        let p = &justification.precommits[i];
        proof {
            assert(ps.subrange(0, i + 1).drop_last() =~= ps.subrange(0, i as int));
            assert(ps.subrange(0, i + 1).last() == ps[i as int]);
        }
        let message = encode_precommit_message(
            p.target_hash,
            p.target_number,
            justification.round,
            justification.authority_set_id,
        );
        match verify_signature(p.pubkey, message.as_slice(), p.signature) {
            Err(e) => {
                proof {
                    assert(*p == ps[i as int]);
                    lemma_signature_failure_persists(
                        ps,
                        i + 1,
                        justification.round,
                        authority_set_id,
                    );
                }
                return Err(e);
            },
            Ok(()) => {},
        }
        let ghost before = keys_view(counted@);
        if confirm_ancestry(&p.target_hash, &justification.block_hash, &ancestry_map)
            && contains_key(&justification.valset_pubkeys, &p.pubkey) {
            let seen = contains_key(&counted, &p.pubkey);
            proof {
                assert(seen == before.contains(p.pubkey@)) by {
                    if seen {
                        let k = choose|k: int| 0 <= k < counted@.len() && (#[trigger] counted@[k])@ == p.pubkey@;
                        assert(before[k] == p.pubkey@);
                    }
                }
            }
            if !seen {
                counted.push(p.pubkey);
                count = count + 1;
                proof {
                    let after = keys_view(counted@);
                    assert(after =~= before.push(p.pubkey@));
                    assert(after[before.len() as int] == p.pubkey@);
                    assert forall|x: Seq<u8>| before.contains(x) implies after.contains(x) by {
                        let k = choose|k: int| 0 <= k < before.len() && before[k] == x;
                        assert(after[k] == x);
                    }
                    assert forall|x: Seq<u8>| after.contains(x) implies before.contains(x) || x
                        == p.pubkey@ by {
                        let k = choose|k: int| 0 <= k < after.len() && after[k] == x;
                        if k < before.len() {
                            assert(before[k] == x);
                        }
                    }
                }
            }
            proof {
                assert(keys_view(counted@).to_set() =~= before.to_set().insert(p.pubkey@));
            }
        }
        i = i + 1;
    }
    proof {
        assert(ps.subrange(0, n as int) =~= ps);
        keys_view(counted@).unique_seq_to_set();
    }
    if is_signed_by_supermajority(count, justification.valset_pubkeys.len()) {
        Ok(())
    } else {
        Err(FinalityError::InsufficientSignatures)
    }
}

} // verus!
