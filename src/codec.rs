use vstd::prelude::*;

verus! {

/// Bytes of one base-field coordinate.
pub const FP_SIZE: usize = 48;

/// Bytes of an uncompressed first-group point.
pub const G1_SIZE: usize = 96;

/// Bytes of an uncompressed second-group point.
pub const G2_SIZE: usize = 192;

/// Bytes of a scalar.
pub const SCALAR_SIZE: usize = 32;

/// The scalar field's modulus `r`, most significant byte first.
pub const FR_MODULUS_BE: [u8; 32] = [
    0x73, 0xed, 0xa7, 0x53, 0x29, 0x9d, 0x7d, 0x48, 0x33, 0x39, 0xd8, 0x08, 0x09, 0xa1, 0xd8, 0x05,
    0x53, 0xbd, 0xa4, 0x02, 0xff, 0xfe, 0x5b, 0xfe, 0xff, 0xff, 0xff, 0xff, 0x00, 0x00, 0x00, 0x01,
];

/// The order `r` of the scalar field (and of both pairing groups).
pub open spec fn scalar_field_modulus() -> nat {
    0x73eda753299d7d483339d80809a1d80553bda402fffe5bfeffffffff00000001nat
}

/// The order `p` of the base field over which the curve is defined.
pub open spec fn base_field_modulus() -> nat {
    0x1a0111ea397fe69a4b1ba7b6434bacd764774b84f38512bf6730d2a0f6b0f6241eabfffeb153ffffb9feffffffffaaabnat
}

/// The integer that `s` encodes, most significant byte first.
pub open spec fn be_value(s: Seq<u8>) -> nat
    decreases s.len(),
{
    if s.len() == 0 {
        0
    } else {
        be_value(s.drop_last()) * 256 + s.last() as nat
    }
}

/// Two byte strings of one length that agree up to `k` and differ first at `k`
/// compare as integers as their bytes at `k` compare.
proof fn lemma_be_first_difference(s: Seq<u8>, m: Seq<u8>, k: int)
    requires
        s.len() == m.len(),
        0 <= k < s.len(),
        s.subrange(0, k) == m.subrange(0, k),
        s[k] < m[k],
    ensures
        be_value(s) < be_value(m),
    decreases s.len(),
{
    let n = s.len() - 1;
    if k < n {
        assert(s.drop_last().subrange(0, k) == s.subrange(0, k));
        assert(m.drop_last().subrange(0, k) == m.subrange(0, k));
        lemma_be_first_difference(s.drop_last(), m.drop_last(), k);
        assert(be_value(s.drop_last()) + 1 <= be_value(m.drop_last()));
        assert(be_value(s) < (be_value(s.drop_last()) + 1) * 256) by (nonlinear_arith)
            requires
                be_value(s) == be_value(s.drop_last()) * 256 + s.last() as nat,
                s.last() < 256,
        ;
        assert((be_value(s.drop_last()) + 1) * 256 <= be_value(m.drop_last()) * 256)
            by (nonlinear_arith)
            requires
                be_value(s.drop_last()) + 1 <= be_value(m.drop_last()),
        ;
    } else {
        assert(s.drop_last() == s.subrange(0, k));
        assert(m.drop_last() == m.subrange(0, k));
    }
}

/// `FR_MODULUS_BE` holds the scalar field's modulus.
pub proof fn lemma_fr_modulus_bytes()
    ensures
        FR_MODULUS_BE@.len() == 32,
        be_value(FR_MODULUS_BE@) == scalar_field_modulus(),
{
    let m = seq![
        0x73u8, 0xedu8, 0xa7u8, 0x53u8, 0x29u8, 0x9du8, 0x7du8, 0x48u8, 0x33u8, 0x39u8, 0xd8u8,
        0x08u8, 0x09u8, 0xa1u8, 0xd8u8, 0x05u8, 0x53u8, 0xbdu8, 0xa4u8, 0x02u8, 0xffu8, 0xfeu8,
        0x5bu8, 0xfeu8, 0xffu8, 0xffu8, 0xffu8, 0xffu8, 0x00u8, 0x00u8, 0x00u8, 0x01u8,
    ];
    assert(FR_MODULUS_BE@ == m);
    assert(be_value(m.subrange(0, 0)) == 0);
    assert(m.subrange(0, 1).drop_last() == m.subrange(0, 0));
    assert(be_value(m.subrange(0, 1)) == 0x73nat);
    assert(m.subrange(0, 2).drop_last() == m.subrange(0, 1));
    assert(be_value(m.subrange(0, 2)) == 0x73ednat);
    assert(m.subrange(0, 3).drop_last() == m.subrange(0, 2));
    assert(be_value(m.subrange(0, 3)) == 0x73eda7nat);
    assert(m.subrange(0, 4).drop_last() == m.subrange(0, 3));
    assert(be_value(m.subrange(0, 4)) == 0x73eda753nat);
    assert(m.subrange(0, 5).drop_last() == m.subrange(0, 4));
    assert(be_value(m.subrange(0, 5)) == 0x73eda75329nat);
    assert(m.subrange(0, 6).drop_last() == m.subrange(0, 5));
    assert(be_value(m.subrange(0, 6)) == 0x73eda753299dnat);
    assert(m.subrange(0, 7).drop_last() == m.subrange(0, 6));
    assert(be_value(m.subrange(0, 7)) == 0x73eda753299d7dnat);
    assert(m.subrange(0, 8).drop_last() == m.subrange(0, 7));
    assert(be_value(m.subrange(0, 8)) == 0x73eda753299d7d48nat);
    assert(m.subrange(0, 9).drop_last() == m.subrange(0, 8));
    assert(be_value(m.subrange(0, 9)) == 0x73eda753299d7d4833nat);
    assert(m.subrange(0, 10).drop_last() == m.subrange(0, 9));
    assert(be_value(m.subrange(0, 10)) == 0x73eda753299d7d483339nat);
    assert(m.subrange(0, 11).drop_last() == m.subrange(0, 10));
    assert(be_value(m.subrange(0, 11)) == 0x73eda753299d7d483339d8nat);
    assert(m.subrange(0, 12).drop_last() == m.subrange(0, 11));
    assert(be_value(m.subrange(0, 12)) == 0x73eda753299d7d483339d808nat);
    assert(m.subrange(0, 13).drop_last() == m.subrange(0, 12));
    assert(be_value(m.subrange(0, 13)) == 0x73eda753299d7d483339d80809nat);
    assert(m.subrange(0, 14).drop_last() == m.subrange(0, 13));
    assert(be_value(m.subrange(0, 14)) == 0x73eda753299d7d483339d80809a1nat);
    assert(m.subrange(0, 15).drop_last() == m.subrange(0, 14));
    assert(be_value(m.subrange(0, 15)) == 0x73eda753299d7d483339d80809a1d8nat);
    assert(m.subrange(0, 16).drop_last() == m.subrange(0, 15));
    assert(be_value(m.subrange(0, 16)) == 0x73eda753299d7d483339d80809a1d805nat);
    assert(m.subrange(0, 17).drop_last() == m.subrange(0, 16));
    assert(be_value(m.subrange(0, 17)) == 0x73eda753299d7d483339d80809a1d80553nat);
    assert(m.subrange(0, 18).drop_last() == m.subrange(0, 17));
    assert(be_value(m.subrange(0, 18)) == 0x73eda753299d7d483339d80809a1d80553bdnat);
    assert(m.subrange(0, 19).drop_last() == m.subrange(0, 18));
    assert(be_value(m.subrange(0, 19)) == 0x73eda753299d7d483339d80809a1d80553bda4nat);
    assert(m.subrange(0, 20).drop_last() == m.subrange(0, 19));
    assert(be_value(m.subrange(0, 20)) == 0x73eda753299d7d483339d80809a1d80553bda402nat);
    assert(m.subrange(0, 21).drop_last() == m.subrange(0, 20));
    assert(be_value(m.subrange(0, 21)) == 0x73eda753299d7d483339d80809a1d80553bda402ffnat);
    assert(m.subrange(0, 22).drop_last() == m.subrange(0, 21));
    assert(be_value(m.subrange(0, 22)) == 0x73eda753299d7d483339d80809a1d80553bda402fffenat);
    assert(m.subrange(0, 23).drop_last() == m.subrange(0, 22));
    assert(be_value(m.subrange(0, 23)) == 0x73eda753299d7d483339d80809a1d80553bda402fffe5bnat);
    assert(m.subrange(0, 24).drop_last() == m.subrange(0, 23));
    assert(be_value(m.subrange(0, 24)) == 0x73eda753299d7d483339d80809a1d80553bda402fffe5bfenat);
    assert(m.subrange(0, 25).drop_last() == m.subrange(0, 24));
    assert(be_value(m.subrange(0, 25)) == 0x73eda753299d7d483339d80809a1d80553bda402fffe5bfeffnat);
    assert(m.subrange(0, 26).drop_last() == m.subrange(0, 25));
    assert(be_value(m.subrange(0, 26)) == 0x73eda753299d7d483339d80809a1d80553bda402fffe5bfeffffnat);
    assert(m.subrange(0, 27).drop_last() == m.subrange(0, 26));
    assert(be_value(m.subrange(0, 27)) == 0x73eda753299d7d483339d80809a1d80553bda402fffe5bfeffffffnat);
    assert(m.subrange(0, 28).drop_last() == m.subrange(0, 27));
    assert(be_value(m.subrange(0, 28)) == 0x73eda753299d7d483339d80809a1d80553bda402fffe5bfeffffffffnat);
    assert(m.subrange(0, 29).drop_last() == m.subrange(0, 28));
    assert(be_value(m.subrange(0, 29)) == 0x73eda753299d7d483339d80809a1d80553bda402fffe5bfeffffffff00nat);
    assert(m.subrange(0, 30).drop_last() == m.subrange(0, 29));
    assert(be_value(m.subrange(0, 30)) == 0x73eda753299d7d483339d80809a1d80553bda402fffe5bfeffffffff0000nat);
    assert(m.subrange(0, 31).drop_last() == m.subrange(0, 30));
    assert(be_value(m.subrange(0, 31)) == 0x73eda753299d7d483339d80809a1d80553bda402fffe5bfeffffffff000000nat);
    assert(m.subrange(0, 32).drop_last() == m.subrange(0, 31));
    assert(be_value(m.subrange(0, 32)) == 0x73eda753299d7d483339d80809a1d80553bda402fffe5bfeffffffff00000001nat);
    assert(m.subrange(0, 32) == m);
}

/// Whether the 32 bytes, read as a big-endian integer, lie below the scalar field's modulus.
pub fn is_below_scalar_modulus(b: &[u8; 32]) -> (r: bool)
    ensures
        r == (be_value(b@) < scalar_field_modulus()),
{
    proof {
        lemma_fr_modulus_bytes();
    }
    let mut i: usize = 0;
    while i < SCALAR_SIZE
        invariant
            0 <= i <= 32,
            b@.len() == 32,
            FR_MODULUS_BE@.len() == 32,
            be_value(FR_MODULUS_BE@) == scalar_field_modulus(),
            b@.subrange(0, i as int) == FR_MODULUS_BE@.subrange(0, i as int),
        decreases 32 - i,
    {
        if b[i] != FR_MODULUS_BE[i] {
            proof {
                if b@[i as int] < FR_MODULUS_BE@[i as int] {
                    lemma_be_first_difference(b@, FR_MODULUS_BE@, i as int);
                } else {
                    lemma_be_first_difference(FR_MODULUS_BE@, b@, i as int);
                }
            }
            return b[i] < FR_MODULUS_BE[i];
        }
        proof {
            assert(b@.subrange(0, i + 1) == b@.subrange(0, i as int).push(b@[i as int]));
            assert(FR_MODULUS_BE@.subrange(0, i + 1) == FR_MODULUS_BE@.subrange(0, i as int).push(
                FR_MODULUS_BE@[i as int],
            ));
        }
        i += 1;
    }
    proof {
        assert(b@ == b@.subrange(0, 32));
        assert(FR_MODULUS_BE@ == FR_MODULUS_BE@.subrange(0, 32));
    }
    false
}

/// The flag bits of an uncompressed point encoding are well formed: the three
/// top bits of the first byte hold the compression, infinity and sort flags;
/// compression and sort are clear, and infinity is set only on the encoding
/// whose every other bit is zero.
pub open spec fn flags_ok(b: Seq<u8>) -> bool {
    &&& b.len() > 0
    &&& (b[0] < 0x20 || (b[0] == 0x40 && forall|i: int| 1 <= i < b.len() ==> b[i] == 0))
}

/// Byte strings of one length with the same big-endian value are equal.
pub proof fn lemma_be_value_injective(s: Seq<u8>, m: Seq<u8>)
    requires
        s.len() == m.len(),
        be_value(s) == be_value(m),
    ensures
        s == m,
    decreases s.len(),
{
    if s.len() > 0 {
        let (a, x, b, y) = (be_value(s.drop_last()), s.last() as int, be_value(m.drop_last()), m.last() as int);
        assert(a == b && x == y) by (nonlinear_arith)
            requires
                a * 256 + x == b * 256 + y,
                0 <= x < 256,
                0 <= y < 256,
                a >= 0,
                b >= 0,
        ;
        lemma_be_value_injective(s.drop_last(), m.drop_last());
        assert(s == s.drop_last().push(s.last()));
        assert(m == m.drop_last().push(m.last()));
    } else {
        assert(s =~= m);
    }
}

/// An all-zero byte string encodes zero.
pub proof fn lemma_be_value_zeros(s: Seq<u8>)
    requires
        forall|i: int| 0 <= i < s.len() ==> s[i] == 0,
    ensures
        be_value(s) == 0,
    decreases s.len(),
{
    if s.len() > 0 {
        lemma_be_value_zeros(s.drop_last());
    }
}

/// Checks the flag bits of an uncompressed point encoding.
pub fn flags_valid(b: &[u8]) -> (r: bool)
    requires
        b@.len() > 0,
    ensures
        r == flags_ok(b@),
{
    if b[0] < 0x20 {
        return true;
    }
    if b[0] != 0x40 {
        return false;
    }
    let mut i: usize = 1;
    while i < b.len()
        invariant
            1 <= i <= b@.len(),
            b@[0] == 0x40,
            forall|j: int| 1 <= j < i ==> b@[j] == 0,
        decreases b@.len() - i,
    {
        if b[i] != 0 {
            return false;
        }
        i += 1;
    }
    true
}

/// Copies `N` bytes of `bytes`, from `start` on, into an array.
pub fn bytes_at<const N: usize>(bytes: &[u8], start: usize) -> (r: [u8; N])
    requires
        start + N <= bytes@.len(),
    ensures
        r@ == bytes@.subrange(start as int, start + N),
{
    let mut r = [0u8; N];
    let mut i: usize = 0;
    while i < N
        invariant
            start + N <= bytes.len(),
            i <= N,
            r@.len() == N,
            forall|j: int| 0 <= j < i ==> r@[j] == bytes@[start + j],
        decreases N - i,
    {
        r[i] = bytes[start + i];
        i += 1;
    }
    assert(r@ == bytes@.subrange(start as int, start + N));
    r
}

} // verus!
