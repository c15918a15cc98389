use crate::bytes::{le_bytes, lemma_le_round_trip, le_value, pow256};
use crate::error::FinalityError;
use vstd::prelude::*;

verus! {

/// The smallest value that the length-prefixed form may carry in `n` bytes;
/// anything smaller has a shorter encoding and is rejected as non-canonical.
pub open spec fn big_form_min(n: nat) -> nat {
    if n == 4 {
        0x4000_0000
    } else {
        pow256((n - 1) as nat)
    }
}

/// What decoding a compact-encoded `u64` from the front of `b` yields: the value
/// and the number of bytes it took, or `None` for truncated or non-canonical input.
///
/// The two low bits of the first byte select the form: a single byte, two
/// bytes, four bytes (each holding the value shifted left by two), or a byte
/// giving the length `n` (4 to 8) followed by the value in `n` bytes.
pub open spec fn compact_decode(b: Seq<u8>) -> Option<(u64, nat)> {
    if b.len() == 0 {
        None
    } else {
        let mode = b[0] % 4;
        if mode == 0 {
            Some(((b[0] / 4) as u64, 1))
        } else if mode == 1 {
            if b.len() >= 2 && le_value(b.subrange(0, 2)) / 4 >= 64 {
                Some(((le_value(b.subrange(0, 2)) / 4) as u64, 2))
            } else {
                None
            }
        } else if mode == 2 {
            if b.len() >= 4 && le_value(b.subrange(0, 4)) / 4 >= 0x4000 {
                Some(((le_value(b.subrange(0, 4)) / 4) as u64, 4))
            } else {
                None
            }
        } else {
            let n = (b[0] / 4) as nat + 4;
            if n <= 8 && b.len() >= n + 1 && le_value(b.subrange(1, n + 1 as int)) >= big_form_min(
                n,
            ) {
                Some((le_value(b.subrange(1, n + 1 as int)) as u64, n + 1))
            } else {
                None
            }
        }
    }
}

/// The number of bytes needed to write `v`, at least one.
pub open spec fn min_bytes(v: nat) -> nat
    decreases v,
{
    if v < 256 {
        1
    } else {
        1 + min_bytes(v / 256)
    }
}

/// The canonical compact encoding of `v`.
pub open spec fn compact_encoding(v: nat) -> Seq<u8> {
    if v < 64 {
        seq![(v * 4) as u8]
    } else if v < 0x4000 {
        le_bytes(v * 4 + 1, 2)
    } else if v < 0x4000_0000 {
        le_bytes(v * 4 + 2, 4)
    } else {
        let n = if min_bytes(v) < 4 {
            4
        } else {
            min_bytes(v)
        };
        seq![((n - 4) * 4 + 3) as u8] + le_bytes(v, n)
    }
}

/// Decoding the compact encoding of any `u32`, whatever follows it, gives back
/// the value and the length of its encoding: one byte up to 63, two up to
/// 16383, four up to 1073741823, and five (a length byte and four value bytes)
/// above that.
pub proof fn lemma_compact_round_trip(v: u32, rest: Seq<u8>)
    ensures
        compact_decode(compact_encoding(v as nat) + rest) == Some(
            (v as u64, compact_encoding(v as nat).len()),
        ),
        compact_encoding(v as nat).len() == (if v <= 63 {
            1nat
        } else if v <= 16383 {
            2nat
        } else if v <= 1073741823 {
            4nat
        } else {
            5nat
        }),
{
    let x = v as nat;
    let enc = compact_encoding(x);
    let b = enc + rest;
    reveal_with_fuel(pow256, 5);
    if x < 64 {
        assert(b[0] == x * 4);
    } else if x < 0x4000 {
        lemma_le_round_trip(x * 4 + 1, 2);
        assert(b.subrange(0, 2) =~= enc);
        assert(b[0] == enc[0]);
        assert(((x * 4 + 1) % 256) % 4 == 1) by (nonlinear_arith);
    } else if x < 0x4000_0000 {
        lemma_le_round_trip(x * 4 + 2, 4);
        assert(b.subrange(0, 4) =~= enc);
        assert(b[0] == enc[0]);
        assert(((x * 4 + 2) % 256) % 4 == 2) by (nonlinear_arith);
    } else {
        assert(min_bytes(x) == 4) by {
            reveal_with_fuel(min_bytes, 5);
            assert(x / 256 / 256 / 256 < 256);
            assert(x / 256 / 256 >= 256);
        }
        lemma_le_round_trip(x, 4);
        assert(b.subrange(1, 5) =~= le_bytes(x, 4));
        assert(b[0] == 3);
    }
}

/// Relies on parity_scale_codec's `Decode` for `Compact<u64>`: it reads the
/// canonical compact forms above and rejects truncated or non-canonical input;
/// `encoded_size` of the decoded value is the number of bytes it read.
#[verifier::external_body]
fn decode_compact_u64(b: &[u8]) -> (r: Option<(u64, usize)>)
    ensures
        match compact_decode(b@) {
            Some((v, n)) => r == Some((v, n as usize)),
            None => r is None,
        },
{
    let mut input = b;
    match <parity_scale_codec::Compact<u64> as parity_scale_codec::Decode>::decode(&mut input) {
        Ok(c) => Some((c.0, parity_scale_codec::Encode::encoded_size(&c))),
        Err(_) => None,
    }
}

/// Decodes a compact-encoded integer from the front of `bytes`, giving its value
/// and the number of bytes its encoding took.
pub fn decode_scale_compact_int(bytes: Vec<u8>) -> (r: Result<(u64, usize), FinalityError>)
    ensures
        match compact_decode(bytes@) {
            Some((v, n)) => r == Ok::<(u64, usize), FinalityError>((v, n as usize)),
            None => r == Err::<(u64, usize), FinalityError>(FinalityError::MalformedInteger),
        },
{
    match decode_compact_u64(bytes.as_slice()) {
        Some(d) => Ok(d),
        None => Err(FinalityError::MalformedInteger),
    }
}

} // verus!
