//! CRC-32 frame checksum: reflected polynomial 0xEDB88320, initial value
//! 0xFFFFFFFF, final complement.

use vstd::prelude::*;

verus! {

/// The reflected CRC-32 polynomial.
pub const CRC_POLYNOMIAL: u32 = 0xEDB8_8320;

/// One shift of the checksum register.
pub open spec fn crc_shift(c: u32) -> u32 {
    if c & 1 == 1 {
        (c >> 1) ^ 0xEDB8_8320u32
    } else {
        c >> 1
    }
}

/// `n` shifts of the checksum register.
pub open spec fn crc_shifts(c: u32, n: nat) -> u32
    decreases n,
{
    if n == 0 {
        c
    } else {
        crc_shift(crc_shifts(c, (n - 1) as nat))
    }
}

/// The register after one more byte has been fed into it.
pub open spec fn crc_byte(c: u32, b: u8) -> u32 {
    crc_shifts(c ^ (b as u32), 8)
}

/// The register after all of `data` has been fed, starting from all ones.
pub open spec fn crc_state(data: Seq<u8>) -> u32
    decreases data.len(),
{
    if data.len() == 0 {
        0xFFFF_FFFFu32
    } else {
        crc_byte(crc_state(data.drop_last()), data.last())
    }
}

/// The CRC-32 of `data`.
pub open spec fn crc32(data: Seq<u8>) -> u32 {
    crc_state(data) ^ 0xFFFF_FFFFu32
}

proof fn lemma_shift_injective(a: u32, b: u32)
    requires
        crc_shift(a) == crc_shift(b),
    ensures
        a == b,
{
    assert(crc_shift(a) == crc_shift(b) ==> a == b) by (bit_vector);
}

proof fn lemma_shifts_injective(a: u32, b: u32, n: nat)
    requires
        crc_shifts(a, n) == crc_shifts(b, n),
    ensures
        a == b,
    decreases n,
{
    if n > 0 {
        lemma_shift_injective(crc_shifts(a, (n - 1) as nat), crc_shifts(b, (n - 1) as nat));
        lemma_shifts_injective(a, b, (n - 1) as nat);
    }
}

/// Feeding one byte is injective in the register and in the byte.
pub proof fn lemma_crc_byte_injective(c1: u32, b1: u8, c2: u32, b2: u8)
    requires
        crc_byte(c1, b1) == crc_byte(c2, b2),
    ensures
        c1 == c2 ==> b1 == b2,
        b1 == b2 ==> c1 == c2,
{
    lemma_shifts_injective(c1 ^ (b1 as u32), c2 ^ (b2 as u32), 8);
    let x1 = b1 as u32;
    let x2 = b2 as u32;
    assert((c1 ^ x1) == (c2 ^ x2) && c1 == c2 ==> x1 == x2) by (bit_vector);
    assert((c1 ^ x1) == (c2 ^ x2) && x1 == x2 ==> c1 == c2) by (bit_vector);
}

/// Two messages of one length that differ in exactly one byte leave the
/// register in different states.
pub proof fn lemma_crc_state_one_byte(a: Seq<u8>, b: Seq<u8>, k: int)
    requires
        a.len() == b.len(),
        0 <= k < a.len(),
        a[k] != b[k],
        forall|i: int| 0 <= i < a.len() && i != k ==> a[i] == b[i],
    ensures
        crc_state(a) != crc_state(b),
    decreases a.len(),
{
    let n = a.len() - 1;
    if crc_state(a) == crc_state(b) {
        lemma_crc_byte_injective(
            crc_state(a.drop_last()),
            a.last(),
            crc_state(b.drop_last()),
            b.last(),
        );
        if k == n {
            assert(a.drop_last() =~= b.drop_last());
        } else {
            lemma_crc_state_one_byte(a.drop_last(), b.drop_last(), k);
        }
    }
}

/// A change confined to one byte of a message always changes its CRC-32, so
/// every single-bit error is detected.
pub proof fn lemma_crc32_one_byte(a: Seq<u8>, b: Seq<u8>, k: int)
    requires
        a.len() == b.len(),
        0 <= k < a.len(),
        a[k] != b[k],
        forall|i: int| 0 <= i < a.len() && i != k ==> a[i] == b[i],
    ensures
        crc32(a) != crc32(b),
{
    lemma_crc_state_one_byte(a, b, k);
    let x = crc_state(a);
    let y = crc_state(b);
    assert((x ^ 0xFFFF_FFFFu32) == (y ^ 0xFFFF_FFFFu32) ==> x == y) by (bit_vector);
}

/// Feeds one byte into the register.
pub fn crc32_update(state: u32, byte: u8) -> (r: u32)
    ensures
        r == crc_byte(state, byte),
{
    let mut c: u32 = state ^ (byte as u32);
    let mut k: u8 = 0;
    while k < 8
        invariant
            k <= 8,
            c == crc_shifts(state ^ (byte as u32), k as nat),
        decreases 8 - k,
    {
        if c & 1 == 1 {
            c = (c >> 1) ^ CRC_POLYNOMIAL;
        } else {
            c = c >> 1;
        }
        k = k + 1;
    }
    c
}

/// Computes the CRC-32 of `data`.
pub fn crc32_of(data: &[u8]) -> (r: u32)
    ensures
        r == crc32(data@),
{
    let mut c: u32 = 0xFFFF_FFFF;
    let mut i: usize = 0;
    while i < data.len()
        invariant
            i <= data.len(),
            c == crc_state(data@.take(i as int)),
        decreases data.len() - i,
    {
        proof {
            assert(data@.take(i + 1).drop_last() =~= data@.take(i as int));
        }
        c = crc32_update(c, data[i]);
        i = i + 1;
    }
    proof {
        assert(data@.take(i as int) =~= data@);
    }
    c ^ 0xFFFF_FFFF
}

} // verus!
