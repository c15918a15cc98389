use vstd::prelude::*;

verus! {

/// The byte sequences of a list of 32-byte keys.
pub open spec fn keys_view(keys: Seq<[u8; 32]>) -> Seq<Seq<u8>> {
    keys.map_values(|k: [u8; 32]| k@)
}

/// `256^n`.
pub open spec fn pow256(n: nat) -> nat
    decreases n,
{
    if n == 0 {
        1
    } else {
        256 * pow256((n - 1) as nat)
    }
}

/// The unsigned integer that `s` encodes, least significant byte first.
pub open spec fn le_value(s: Seq<u8>) -> nat
    decreases s.len(),
{
    if s.len() == 0 {
        0
    } else {
        s[0] as nat + 256 * le_value(s.drop_first())
    }
}

/// The `n` low bytes of `x`, least significant first.
pub open spec fn le_bytes(x: nat, n: nat) -> Seq<u8>
    decreases n,
{
    if n == 0 {
        Seq::empty()
    } else {
        seq![(x % 256) as u8] + le_bytes(x / 256, (n - 1) as nat)
    }
}

pub proof fn lemma_pow256_positive(n: nat)
    ensures
        pow256(n) >= 1,
    decreases n,
{
    if n > 0 {
        lemma_pow256_positive((n - 1) as nat);
    }
}

/// A little-endian value is below `256` to the power of its length.
pub proof fn lemma_le_value_bound(s: Seq<u8>)
    ensures
        le_value(s) < pow256(s.len()),
    decreases s.len(),
{
    if s.len() > 0 {
        lemma_le_value_bound(s.drop_first());
        let r = le_value(s.drop_first());
        let p = pow256((s.len() - 1) as nat);
        assert(r + 1 <= p);
        assert(s[0] as nat + 256 * r < 256 * p) by (nonlinear_arith)
            requires
                r + 1 <= p,
                s[0] < 256,
        ;
    }
}

/// Reading back the low bytes of a value that fits gives the value.
pub proof fn lemma_le_round_trip(x: nat, n: nat)
    requires
        x < pow256(n),
    ensures
        le_bytes(x, n).len() == n,
        le_value(le_bytes(x, n)) == x,
    decreases n,
{
    if n > 0 {
        let p = pow256((n - 1) as nat);
        assert(x / 256 < p) by (nonlinear_arith)
            requires
                x < 256 * p,
        ;
        lemma_le_round_trip(x / 256, (n - 1) as nat);
        let s = le_bytes(x, n);
        assert(s.drop_first() =~= le_bytes(x / 256, (n - 1) as nat));
        assert(x == x % 256 + 256 * (x / 256)) by (nonlinear_arith);
    } else {
        assert(x == 0);
    }
}

/// Splits off the first byte of a little-endian value.
pub proof fn lemma_le_value_first(s: Seq<u8>, i: int, j: int)
    requires
        0 <= i < j <= s.len(),
    ensures
        le_value(s.subrange(i, j)) == s[i] as nat + 256 * le_value(s.subrange(i + 1, j)),
{
    assert(s.subrange(i, j).drop_first() =~= s.subrange(i + 1, j));
}

/// Every byte of a little-endian zero is zero.
pub proof fn lemma_le_value_zero(s: Seq<u8>)
    requires
        le_value(s) == 0,
    ensures
        forall|k: int| 0 <= k < s.len() ==> s[k] == 0,
    decreases s.len(),
{
    if s.len() > 0 {
        lemma_le_value_zero(s.drop_first());
        assert forall|k: int| 0 <= k < s.len() implies s[k] == 0 by {
            if k > 0 {
                assert(s[k] == s.drop_first()[k - 1]);
            }
        }
    }
}

/// A little-endian one is a first byte of one and zeros after it.
pub proof fn lemma_le_value_one(s: Seq<u8>)
    requires
        le_value(s) == 1,
    ensures
        s.len() > 0,
        s[0] == 1,
        forall|k: int| 1 <= k < s.len() ==> s[k] == 0,
{
    let rest = s.drop_first();
    lemma_le_value_zero(rest);
    assert forall|k: int| 1 <= k < s.len() implies s[k] == 0 by {
        assert(s[k] == rest[k - 1]);
    }
}

/// Reads the little-endian integer stored in `b[start..start + n]`.
pub fn read_le(b: &[u8], start: usize, n: usize) -> (r: u64)
    requires
        n <= 8,
        start + n <= b@.len(),
    ensures
        r as nat == le_value(b@.subrange(start as int, start + n)),
{
    let len: usize = b.len();
    let end: usize = start + n;
    let mut acc: u64 = 0;
    let mut i: usize = end;
    proof {
        assert(b@.subrange(end as int, end as int) =~= Seq::<u8>::empty());
    }
    while i > start
        invariant
            start <= i <= end,
            end == start + n,
            n <= 8,
            end <= b@.len(),
            acc as nat == le_value(b@.subrange(i as int, end as int)),
        decreases i,
    {
        proof {
            lemma_le_value_bound(b@.subrange(i as int, end as int));
            lemma_le_value_first(b@, i - 1, end as int);
            lemma_pow_bound((end - i) as nat);
        }
        let byte = b[i - 1];
        assert(acc * 256 + byte <= u64::MAX) by (nonlinear_arith)
            requires
                acc < pow256((end - i) as nat),
                pow256((end - i) as nat) <= pow256(7),
                pow256(7) == 72057594037927936,
                byte < 256,
        ;
        acc = acc * 256 + byte as u64;
        i = i - 1;
    }
    acc
}

proof fn lemma_pow_bound(k: nat)
    requires
        k <= 7,
    ensures
        pow256(k) <= pow256(7),
        pow256(7) == 72057594037927936,
{
    reveal_with_fuel(pow256, 8);
}

/// Whether two 32-byte values are equal, byte by byte.
pub fn bytes32_eq(a: &[u8; 32], b: &[u8; 32]) -> (r: bool)
    ensures
        r == (a@ == b@),
{
    let mut i: usize = 0;
    while i < 32
        invariant
            0 <= i <= 32,
            forall|k: int| 0 <= k < i ==> a@[k] == b@[k],
        decreases 32 - i,
    {
        if a[i] != b[i] {
            return false;
        }
        i = i + 1;
    }
    assert(a@ =~= b@);
    true
}

/// Whether `b[start..start + 32]` holds the bytes of `key`.
pub fn region_eq(b: &[u8], start: usize, key: &[u8; 32]) -> (r: bool)
    requires
        start + 32 <= b@.len(),
    ensures
        r == (b@.subrange(start as int, start + 32) == key@),
{
    let len: usize = b.len();
    let mut i: usize = 0;
    while i < 32
        invariant
            0 <= i <= 32,
            start + 32 <= b@.len(),
            len == b@.len(),
            forall|k: int| 0 <= k < i ==> b@[start + k] == key@[k],
        decreases 32 - i,
    {
        if b[start + i] != key[i] {
            assert(b@.subrange(start as int, start + 32)[i as int] != key@[i as int]);
            return false;
        }
        i = i + 1;
    }
    assert(b@.subrange(start as int, start + 32) =~= key@);
    true
}

} // verus!
