//! Bit-level helpers over LSB-first packed bitmaps.

use vstd::prelude::*;
use crate::buffer::Buffer;

verus! {

/// Bit `k` (0 = least significant) of `byte`.
pub open spec fn byte_bit(byte: u8, k: int) -> bool {
    (byte >> (k as u8)) & 1u8 == 1u8
}

/// Bit `i` of a LSB-first packed bitmap: bit `i % 8` of byte `i / 8`.
/// Positions outside the bytes read as unset.
pub open spec fn bit_of(bytes: Seq<u8>, i: int) -> bool {
    0 <= i < 8 * bytes.len() && byte_bit(bytes[i / 8], i % 8)
}

/// Number of bytes needed to hold `n` bits.
pub open spec fn bytes_for_bits(n: int) -> int {
    (n + 7) / 8
}

/// Testing bit `k` with a one-bit mask is reading bit `k`.
pub proof fn lemma_mask_test(byte: u8, k: u8)
    requires
        k < 8,
    ensures
        ((byte & (1u8 << k)) != 0u8) == byte_bit(byte, k as int),
{
    assert(((byte & (1u8 << k)) != 0u8) == ((byte >> k) & 1u8 == 1u8)) by (bit_vector)
        requires k < 8u8;
}

/// Setting bit `s` of a byte sets that bit and leaves every other bit alone.
pub proof fn lemma_set_bit(byte: u8, s: u8, t: u8)
    requires
        s < 8,
        t < 8,
    ensures
        byte_bit(byte | (1u8 << s), t as int) == (s == t || byte_bit(byte, t as int)),
{
    assert((((byte | (1u8 << s)) >> t) & 1u8 == 1u8) == (s == t || ((byte >> t) & 1u8 == 1u8)))
        by (bit_vector)
        requires s < 8u8, t < 8u8;
}

/// No bit of the zero byte is set.
pub proof fn lemma_zero_byte(t: u8)
    requires
        t < 8,
    ensures
        !byte_bit(0u8, t as int),
{
    assert(((0u8 >> t) & 1u8) == 0u8) by (bit_vector);
}

/// Returns true if the bit at `idx` is set (1), false if unset (0).
pub fn get_bit(buffer: &Buffer, idx: usize) -> (b: bool)
    requires
        idx < 8 * buffer@.len(),
    ensures
        b == bit_of(buffer@, idx as int),
{
    let bytes = buffer.as_u8_slice();
    let byte = bytes[idx / 8];
    let k: u8 = (idx % 8) as u8;
    let mask: u8 = 1u8 << k;
    proof {
        lemma_mask_test(byte, k);
    }
    (byte & mask) != 0
}

/// Packs booleans into bytes, least-significant bit first: bit `i` of the
/// result is `bools[i]`, and the padding bits of the last byte are unset.
pub fn pack_bools(bools: &[bool]) -> (r: Buffer)
    ensures
        r@.len() == bytes_for_bits(bools@.len() as int),
        forall|i: int| 0 <= i < 8 * r@.len() ==>
            #[trigger] bit_of(r@, i) == (i < bools@.len() && bools@[i]),
{
    let n = bools.len();
    let num_bytes: usize = n / 8 + if n % 8 == 0 { 0 } else { 1 };
    let mut bytes: Vec<u8> = vec![0u8; num_bytes];
    proof {
        assert forall|k: int| 0 <= k < 8 * num_bytes implies !#[trigger] bit_of(bytes@, k) by {
            lemma_zero_byte((k % 8) as u8);
        }
    }
    let mut i: usize = 0;
    while i < n
        invariant
            n == bools@.len(),
            num_bytes == bytes_for_bits(n as int),
            i <= n,
            bytes@.len() == num_bytes,
            forall|k: int| 0 <= k < 8 * num_bytes ==>
                #[trigger] bit_of(bytes@, k) == (k < i && bools@[k]),
        decreases n - i,
    {
        if bools[i] {
            let j = i / 8;
            let s: u8 = (i % 8) as u8;
            let old_byte = bytes[j];
            let ghost old_bytes = bytes@;
            bytes.set(j, old_byte | (1u8 << s));
            proof {
                assert forall|k: int| 0 <= k < 8 * num_bytes implies
                    #[trigger] bit_of(bytes@, k) == (k < i + 1 && bools@[k]) by {
                    if k / 8 == j {
                        lemma_set_bit(old_byte, s, (k % 8) as u8);
                        assert(bit_of(old_bytes, k) == (k < i && bools@[k]));
                    } else {
                        assert(bytes@[k / 8] == old_bytes[k / 8]);
                        assert(bit_of(old_bytes, k) == (k < i && bools@[k]));
                    }
                }
            }
        } else {
            proof {
                assert forall|k: int| 0 <= k < 8 * num_bytes implies
                    #[trigger] bit_of(bytes@, k) == (k < i + 1 && bools@[k]) by {
                    if k == i {
                        assert(!bools@[k]);
                    }
                }
            }
        }
        i = i + 1;
    }
    Buffer::from_u8_slice(bytes.as_slice())
}

} // verus!
