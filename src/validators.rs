use crate::bytes::{
    le_bytes, le_value, lemma_le_round_trip, lemma_le_value_one, pow256, read_le, region_eq,
};
use crate::error::FinalityError;
use vstd::prelude::*;

verus! {

/// Bytes of a validator's public key in an encoded validator record.
pub const PUBKEY_LENGTH: usize = 32;

/// Bytes of an encoded validator record: the public key and an 8-byte weight.
pub const VALIDATOR_LENGTH: usize = 40;

/// Bytes of the delay field that follows the validator records.
pub const DELAY_LENGTH: usize = 4;

/// Every validator carries this voting weight.
pub const VALIDATOR_WEIGHT: u64 = 1;

/// The delay field must hold this value.
pub const REQUIRED_DELAY: u64 = 0;

/// Whether the record at `offset` of `header` holds `key` with weight one.
pub open spec fn record_matches(header: Seq<u8>, offset: int, key: Seq<u8>) -> bool {
    &&& 0 <= offset
    &&& offset + 40 <= header.len()
    &&& header.subrange(offset, offset + 32) == key
    &&& le_value(header.subrange(offset + 32, offset + 40)) == 1
}

/// Whether the records from `start` on hold `keys`, in order, each with weight one.
pub open spec fn records_match(header: Seq<u8>, start: int, keys: Seq<[u8; 32]>) -> bool {
    forall|i: int| 0 <= i < keys.len() ==> record_matches(header, start + 40 * i, #[trigger] keys[i]@)
}

/// Whether a zero delay field of four bytes stands at `offset`.
pub open spec fn delay_is_zero(header: Seq<u8>, offset: int) -> bool {
    &&& 0 <= offset
    &&& offset + 4 <= header.len()
    &&& le_value(header.subrange(offset, offset + 4)) == 0
}

/// The outcome of checking that `header` encodes `keys` from `start` on.
pub open spec fn encoded_validators_outcome(header: Seq<u8>, start: int, keys: Seq<[u8; 32]>) -> Result<
    (),
    FinalityError,
> {
    if !records_match(header, start, keys) {
        Err(FinalityError::ValidatorMismatch)
    } else if !delay_is_zero(header, start + 40 * keys.len()) {
        Err(FinalityError::ValidatorSetMismatch)
    } else {
        Ok(())
    }
}

/// Checks that `header_bytes`, from `start_cursor` on, holds one record per
/// expected key (the key, then a little-endian weight of one), in order,
/// followed by a zero delay field.
pub fn verify_encoded_validators(
    header_bytes: &[u8],
    start_cursor: usize,
    pubkeys: &Vec<[u8; 32]>,
) -> (r: Result<(), FinalityError>)
    ensures
        r == encoded_validators_outcome(header_bytes@, start_cursor as int, pubkeys@),
{
    let len: usize = header_bytes.len();
    let n: usize = pubkeys.len();
    let mut cursor: usize = start_cursor;
    let mut i: usize = 0;
    while i < n
        invariant
            0 <= i <= n,
            n == pubkeys@.len(),
            len == header_bytes@.len(),
            cursor == start_cursor + 40 * i,
            i > 0 ==> cursor <= len,
            forall|k: int|
                0 <= k < i ==> record_matches(
                    header_bytes@,
                    start_cursor + 40 * k,
                    #[trigger] pubkeys@[k]@,
                ),
        decreases n - i,
    {
        if cursor > len || len - cursor < VALIDATOR_LENGTH {
            assert(!record_matches(header_bytes@, start_cursor + 40 * i, pubkeys@[i as int]@));
            return Err(FinalityError::ValidatorMismatch);
        }
        let key_ok = region_eq(header_bytes, cursor, &pubkeys[i]);
        let weight = read_le(header_bytes, cursor + PUBKEY_LENGTH, 8);
        if !key_ok || weight != VALIDATOR_WEIGHT {
            assert(!record_matches(header_bytes@, start_cursor + 40 * i, pubkeys@[i as int]@));
            return Err(FinalityError::ValidatorMismatch);
        }
        cursor = cursor + VALIDATOR_LENGTH;
        i = i + 1;
    }
    assert(records_match(header_bytes@, start_cursor as int, pubkeys@));
    if cursor > len || len - cursor < DELAY_LENGTH {
        return Err(FinalityError::ValidatorSetMismatch);
    }
    let delay = read_le(header_bytes, cursor, DELAY_LENGTH);
    if delay != REQUIRED_DELAY {
        return Err(FinalityError::ValidatorSetMismatch);
    }
    Ok(())
}

/// One validator record: the key, then a weight of one in eight little-endian bytes.
pub open spec fn validator_record(key: [u8; 32]) -> Seq<u8> {
    key@ + le_bytes(1, 8)
}

/// The records of `keys`, one after another.
pub open spec fn validator_records(keys: Seq<[u8; 32]>) -> Seq<u8>
    decreases keys.len(),
{
    if keys.len() == 0 {
        Seq::empty()
    } else {
        validator_records(keys.drop_last()) + validator_record(keys.last())
    }
}

proof fn lemma_records_layout(keys: Seq<[u8; 32]>)
    ensures
        validator_records(keys).len() == 40 * keys.len(),
        forall|i: int, j: int|
            0 <= i < keys.len() && 0 <= j < 40 ==> validator_records(keys)[40 * i + j]
                == #[trigger] validator_record(keys[i])[j],
    decreases keys.len(),
{
    if keys.len() > 0 {
        let init = keys.drop_last();
        lemma_records_layout(init);
        reveal_with_fuel(pow256, 9);
        lemma_le_round_trip(1, 8);
        assert(keys.last()@.len() == 32);
        assert forall|i: int, j: int|
            0 <= i < keys.len() && 0 <= j < 40 implies validator_records(keys)[40 * i + j]
                == #[trigger] validator_record(keys[i])[j] by {
            if i < keys.len() - 1 {
                assert(40 * i + j < 40 * init.len());
                assert(keys[i] == init[i]);
                assert(validator_records(init)[40 * i + j] == validator_record(init[i])[j]);
            }
        }
    }
}

/// Facts about a region made of a prefix, the records of `keys`, a delay field
/// of four bytes and anything after it.
proof fn lemma_region_layout(prefix: Seq<u8>, keys: Seq<[u8; 32]>, delay: Seq<u8>, suffix: Seq<u8>)
    requires
        delay.len() == 4,
    ensures
        ({
            let header = prefix + validator_records(keys) + delay + suffix;
            let end = prefix.len() + 40 * keys.len() as int;
            &&& records_match(header, prefix.len() as int, keys)
            &&& end + 4 <= header.len()
            &&& header.subrange(end, end + 4) == delay
        }),
{
    let header = prefix + validator_records(keys) + delay + suffix;
    let p = prefix.len() as int;
    lemma_records_layout(keys);
    reveal_with_fuel(pow256, 9);
    lemma_le_round_trip(1, 8);
    assert forall|i: int| 0 <= i < keys.len() implies record_matches(header, p + 40 * i, #[trigger] keys[i]@) by {
        let rec = validator_record(keys[i]);
        assert(keys[i]@.len() == 32);
        assert(rec.len() == 40);
        let a = p + 40 * i;
        assert forall|k: int| 0 <= k < 32 implies #[trigger] header.subrange(a, a + 32)[k]
            == keys[i]@[k] by {
            assert(validator_records(keys)[40 * i + k] == rec[k]);
        }
        assert forall|k: int| 0 <= k < 8 implies #[trigger] header.subrange(a + 32, a + 40)[k]
            == le_bytes(1, 8)[k] by {
            assert(validator_records(keys)[40 * i + 32 + k] == rec[32 + k]);
        }
        assert(header.subrange(a, a + 32) =~= keys[i]@);
        assert(header.subrange(a + 32, a + 40) =~= le_bytes(1, 8));
    }
    let end = p + 40 * keys.len() as int;
    assert(header.subrange(end, end + 4) =~= delay);
}

/// A region holding exactly the records of the expected keys, each with weight
/// one, followed by a zero delay field, is accepted, whatever precedes or
/// follows it.
pub proof fn lemma_exact_encoding_accepted(prefix: Seq<u8>, keys: Seq<[u8; 32]>, suffix: Seq<u8>)
    ensures
        encoded_validators_outcome(
            prefix + validator_records(keys) + le_bytes(0, 4) + suffix,
            prefix.len() as int,
            keys,
        ) == Ok::<(), FinalityError>(()),
{
    reveal_with_fuel(pow256, 5);
    lemma_le_round_trip(0, 4);
    lemma_region_layout(prefix, keys, le_bytes(0, 4), suffix);
}

/// A nonzero delay field after the expected records is rejected.
pub proof fn lemma_nonzero_delay_rejected(
    prefix: Seq<u8>,
    keys: Seq<[u8; 32]>,
    delay: Seq<u8>,
    suffix: Seq<u8>,
)
    requires
        delay.len() == 4,
        le_value(delay) != 0,
    ensures
        encoded_validators_outcome(
            prefix + validator_records(keys) + delay + suffix,
            prefix.len() as int,
            keys,
        ) == Err::<(), FinalityError>(FinalityError::ValidatorSetMismatch),
{
    lemma_region_layout(prefix, keys, delay, suffix);
}

/// Records of other keys than the expected ones, at any position, are rejected.
pub proof fn lemma_substituted_key_rejected(
    prefix: Seq<u8>,
    keys: Seq<[u8; 32]>,
    found: Seq<[u8; 32]>,
    i: int,
    suffix: Seq<u8>,
)
    requires
        found.len() == keys.len(),
        0 <= i < keys.len(),
        found[i]@ != keys[i]@,
    ensures
        encoded_validators_outcome(
            prefix + validator_records(found) + le_bytes(0, 4) + suffix,
            prefix.len() as int,
            keys,
        ) == Err::<(), FinalityError>(FinalityError::ValidatorMismatch),
{
    let header = prefix + validator_records(found) + le_bytes(0, 4) + suffix;
    let p = prefix.len() as int;
    reveal_with_fuel(pow256, 5);
    lemma_le_round_trip(0, 4);
    lemma_region_layout(prefix, found, le_bytes(0, 4), suffix);
    assert(record_matches(header, p + 40 * i, found[i]@));
    assert(!record_matches(header, p + 40 * i, keys[i]@));
}

/// Changing any byte of any weight in an otherwise exact encoding is rejected.
pub proof fn lemma_altered_weight_rejected(
    prefix: Seq<u8>,
    keys: Seq<[u8; 32]>,
    suffix: Seq<u8>,
    i: int,
    j: int,
    b: u8,
)
    requires
        0 <= i < keys.len(),
        0 <= j < 8,
        b != (if j == 0 {
            1u8
        } else {
            0u8
        }),
    ensures
        encoded_validators_outcome(
            (prefix + validator_records(keys) + le_bytes(0, 4) + suffix).update(
                prefix.len() + 40 * i + 32 + j,
                b,
            ),
            prefix.len() as int,
            keys,
        ) == Err::<(), FinalityError>(FinalityError::ValidatorMismatch),
{
    let header = prefix + validator_records(keys) + le_bytes(0, 4) + suffix;
    let a = prefix.len() + 40 * i;
    let altered = header.update(a + 32 + j, b);
    reveal_with_fuel(pow256, 5);
    lemma_le_round_trip(0, 4);
    lemma_records_layout(keys);
    let weight = altered.subrange(a + 32, a + 40);
    assert(weight[j] == b);
    if le_value(weight) == 1 {
        lemma_le_value_one(weight);
    }
    assert(!record_matches(altered, a, keys[i]@));
}

} // verus!
