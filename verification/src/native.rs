//! Rust types that can be stored in typed buffers, and their
//! little-endian byte encoding.

use vstd::prelude::*;

verus! {

/// `256` to the power `w`: the number of values that `w` bytes can hold.
pub open spec fn value_range(w: nat) -> nat
    decreases w,
{
    if w == 0 {
        1
    } else {
        256 * value_range((w - 1) as nat)
    }
}

/// The ranges of the widths that native types have.
pub proof fn lemma_value_range()
    ensures
        value_range(1) == 0x100,
        value_range(2) == 0x10000,
        value_range(4) == 0x1_0000_0000,
        value_range(8) == 0x1_0000_0000_0000_0000,
{
    reveal_with_fuel(value_range, 9);
}

/// Restricts `NativeType` to the primitive types of this module.
pub trait Sealed {}

/// Primitive Rust types stored in typed buffers as raw values.
///
/// Each value has `spec_width()` bytes; its bits, read as an unsigned
/// number, are `spec_bits` (two's complement for the signed types).
pub trait NativeType: Sealed + Copy + Send + Sync + 'static {
    /// Number of bytes of one value.
    spec fn spec_width() -> nat;

    /// The bits of `v`, read as an unsigned number.
    spec fn spec_bits(v: Self) -> nat;

    /// The value whose bits are `bits`.
    spec fn spec_from_bits(bits: nat) -> Self;

    /// A value's bits fit in its width and give the value back.
    proof fn lemma_bits(v: Self)
        ensures
            1 <= Self::spec_width() <= 8,
            Self::spec_bits(v) < value_range(Self::spec_width()),
            Self::spec_from_bits(Self::spec_bits(v)) == v,
    ;

    /// Number of bytes of one value.
    fn width() -> (r: usize)
        ensures
            r == Self::spec_width(),
    ;

    /// The bits of this value, read as an unsigned number.
    fn to_bits(self) -> (r: u64)
        ensures
            r == Self::spec_bits(self),
    ;

    /// The value whose bits are `bits`.
    fn from_bits(bits: u64) -> (r: Self)
        requires
            bits < value_range(Self::spec_width()),
        ensures
            r == Self::spec_from_bits(bits as nat),
    ;

    /// Size of one value in bytes.
    fn get_byte_width() -> (r: usize)
        ensures
            r == vstd::layout::size_of::<Self>(),
    {
        core::mem::size_of::<Self>()
    }

    /// Alignment of one value in bytes.
    fn get_alignment() -> (r: usize)
        ensures
            r == vstd::layout::align_of::<Self>(),
    {
        core::mem::align_of::<Self>()
    }
}

/// The unsigned number whose little-endian bytes are `bytes`.
pub open spec fn le_value(bytes: Seq<u8>) -> nat
    decreases bytes.len(),
{
    if bytes.len() == 0 {
        0
    } else {
        bytes[0] as nat + 256 * le_value(bytes.drop_first())
    }
}

/// The `w` little-endian bytes of `n` (its lowest `w` bytes).
pub open spec fn le_bytes(n: nat, w: nat) -> Seq<u8>
    decreases w,
{
    if w == 0 {
        Seq::empty()
    } else {
        seq![(n % 256) as u8] + le_bytes(n / 256, (w - 1) as nat)
    }
}

/// The values that consecutive groups of `T::spec_width()` little-endian
/// bytes encode; bytes left over that fill no value are not read.
pub open spec fn le_decode<T: NativeType>(bytes: Seq<u8>) -> Seq<T>
    decreases bytes.len(),
{
    let w = T::spec_width();
    if w == 0 || bytes.len() < w {
        Seq::empty()
    } else {
        seq![T::spec_from_bits(le_value(bytes.take(w as int)))] + le_decode::<T>(bytes.skip(w as int))
    }
}

/// The little-endian bytes of `values`, `T::spec_width()` per value.
pub open spec fn le_encode<T: NativeType>(values: Seq<T>) -> Seq<u8>
    decreases values.len(),
{
    if values.len() == 0 {
        Seq::empty()
    } else {
        le_bytes(T::spec_bits(values[0]), T::spec_width()) + le_encode::<T>(values.drop_first())
    }
}

/// `w` bytes hold a number below `256` to the power `w`.
pub proof fn lemma_le_value_bound(bytes: Seq<u8>)
    ensures
        le_value(bytes) < value_range(bytes.len()),
    decreases bytes.len(),
{
    if bytes.len() > 0 {
        lemma_le_value_bound(bytes.drop_first());
    }
}

/// Reading back the `w` little-endian bytes of a number below `256` to the
/// power `w` gives the number.
pub proof fn lemma_le_bytes_value(n: nat, w: nat)
    requires
        n < value_range(w),
    ensures
        le_bytes(n, w).len() == w,
        le_value(le_bytes(n, w)) == n,
    decreases w,
{
    if w > 0 {
        lemma_le_bytes_value(n / 256, (w - 1) as nat);
        let rest = le_bytes(n / 256, (w - 1) as nat);
        assert((seq![(n % 256) as u8] + rest).drop_first() =~= rest);
    }
}

/// The encoding of a list of values is `T::spec_width()` bytes per value.
pub proof fn lemma_le_encode_len<T: NativeType>(values: Seq<T>)
    ensures
        le_encode::<T>(values).len() == T::spec_width() * values.len(),
    decreases values.len(),
{
    if values.len() > 0 {
        T::lemma_bits(values[0]);
        lemma_le_bytes_value(T::spec_bits(values[0]), T::spec_width());
        lemma_le_encode_len::<T>(values.drop_first());
        assert(T::spec_width() * values.len() == T::spec_width() + T::spec_width() * (values.len() - 1))
            by (nonlinear_arith);
    }
}

/// Decoding the little-endian bytes of values gives the values back:
/// `ScalarBuffer::from_buffer(Buffer::from(v))` holds `v`.
pub proof fn lemma_le_round_trip<T: NativeType>(values: Seq<T>)
    ensures
        le_decode::<T>(le_encode::<T>(values)) == values,
    decreases values.len(),
{
    if values.len() > 0 {
        let w = T::spec_width();
        let v0 = values[0];
        T::lemma_bits(v0);
        lemma_le_bytes_value(T::spec_bits(v0), w);
        let head = le_bytes(T::spec_bits(v0), w);
        let rest = le_encode::<T>(values.drop_first());
        let all = le_encode::<T>(values);
        assert(all == head + rest);
        assert(all.take(w as int) =~= head);
        assert(all.skip(w as int) =~= rest);
        lemma_le_round_trip::<T>(values.drop_first());
        assert(le_decode::<T>(all) =~= values);
    } else {
        assert(le_decode::<T>(le_encode::<T>(values)) =~= values);
    }
}

/// The number that the `w` bytes of `bytes` at `start` encode, little-endian.
fn read_le(bytes: &[u8], start: usize, w: usize) -> (r: u64)
    requires
        1 <= w <= 8,
        start + w <= bytes@.len(),
    ensures
        r == le_value(bytes@.subrange(start as int, start + w)),
        r < value_range(w as nat),
{
    proof {
        lemma_value_range();
        reveal_with_fuel(value_range, 9);
    }
    let n = bytes.len();
    let mut acc: u64 = 0;
    let mut j: usize = w;
    while j > 0
        invariant
            n == bytes@.len(),
            1 <= w <= 8,
            start + w <= bytes@.len(),
            j <= w,
            acc == le_value(bytes@.subrange(start + j, start + w)),
            acc < value_range((w - j) as nat),
            value_range(7) == 0x100_0000_0000_0000,
        decreases j,
    {
        proof {
            assert(value_range((w - j) as nat) <= value_range(7)) by {
                lemma_value_range_mono((w - j) as nat, 7);
            }
            let s = bytes@.subrange(start + j - 1, start + w);
            assert(s.drop_first() =~= bytes@.subrange(start + j, start + w));
        }
        acc = acc * 256 + bytes[start + (j - 1)] as u64;
        j = j - 1;
    }
    acc
}

/// A whole number `k` of values' bytes decodes to `k` values.
pub proof fn lemma_le_decode_len<T: NativeType>(bytes: Seq<u8>, k: nat)
    requires
        1 <= T::spec_width(),
        bytes.len() == k * T::spec_width(),
    ensures
        le_decode::<T>(bytes).len() == k,
    decreases k,
{
    let w = T::spec_width();
    if k > 0 {
        assert(k * w == (k - 1) * w + w) by (nonlinear_arith);
        assert((k - 1) * w >= 0) by (nonlinear_arith)
            requires
                k >= 1,
                w >= 1,
        ;
        lemma_le_decode_len::<T>(bytes.skip(w as int), (k - 1) as nat);
    } else {
        assert(bytes.len() == 0) by (nonlinear_arith)
            requires
                bytes.len() == k * w,
                k == 0,
        ;
    }
}

/// `256` to a power grows with the power.
pub proof fn lemma_value_range_mono(a: nat, b: nat)
    requires
        a <= b,
    ensures
        value_range(a) <= value_range(b),
    decreases b,
{
    if a < b {
        lemma_value_range_mono(a, (b - 1) as nat);
    }
}

/// The values that consecutive groups of `T::width()` little-endian bytes
/// of `bytes` encode.
pub fn decode_values<T: NativeType>(bytes: &[u8]) -> (r: Vec<T>)
    ensures
        r@ == le_decode::<T>(bytes@),
{
    let w = T::width();
    let ghost v0: T = arbitrary();
    proof {
        T::lemma_bits(v0);
    }
    let n = bytes.len();
    let mut out: Vec<T> = Vec::new();
    let mut p: usize = 0;
    assert(bytes@.skip(0) =~= bytes@);
    assert(out@ + le_decode::<T>(bytes@) =~= le_decode::<T>(bytes@));
    while w <= n - p
        invariant
            w == T::spec_width(),
            1 <= w <= 8,
            n == bytes@.len(),
            p <= n,
            out@ + le_decode::<T>(bytes@.skip(p as int)) == le_decode::<T>(bytes@),
        decreases n - p,
    {
        let bits = read_le(bytes, p, w);
        let v = T::from_bits(bits);
        proof {
            let rest = bytes@.skip(p as int);
            assert(rest.take(w as int) =~= bytes@.subrange(p as int, p + w));
            assert(rest.skip(w as int) =~= bytes@.skip(p + w));
            assert(le_decode::<T>(rest) == seq![v] + le_decode::<T>(bytes@.skip(p + w)));
            assert(out@.push(v) + le_decode::<T>(bytes@.skip(p + w)) =~= out@ + le_decode::<T>(rest));
        }
        out.push(v);
        p = p + w;
    }
    proof {
        assert(le_decode::<T>(bytes@.skip(p as int)) == Seq::<T>::empty());
        assert(out@ + Seq::<T>::empty() =~= out@);
    }
    out
}

/// Appends the `w` little-endian bytes of `bits`.
fn push_le(out: &mut Vec<u8>, bits: u64, w: usize)
    ensures
        final(out)@ == old(out)@ + le_bytes(bits as nat, w as nat),
{
    let ghost start = out@;
    let mut x: u64 = bits;
    let mut k: usize = 0;
    while k < w
        invariant
            k <= w,
            out@ + le_bytes(x as nat, (w - k) as nat) == start + le_bytes(bits as nat, w as nat),
        decreases w - k,
    {
        proof {
            let tail = le_bytes((x / 256) as nat, (w - k - 1) as nat);
            assert(le_bytes(x as nat, (w - k) as nat) == seq![(x % 256) as u8] + tail);
            assert(out@.push((x % 256) as u8) + tail =~= out@ + (seq![(x % 256) as u8] + tail));
        }
        out.push((x % 256) as u8);
        x = x / 256;
        k = k + 1;
    }
    assert(out@ + Seq::<u8>::empty() =~= out@);
}

/// The little-endian bytes of `values`, `T::width()` per value.
pub fn encode_values<T: NativeType>(values: &[T]) -> (r: Vec<u8>)
    ensures
        r@ == le_encode::<T>(values@),
{
    let w = T::width();
    let mut out: Vec<u8> = Vec::new();
    let mut i: usize = 0;
    assert(values@.skip(0) =~= values@);
    assert(out@ + le_encode::<T>(values@) =~= le_encode::<T>(values@));
    while i < values.len()
        invariant
            w == T::spec_width(),
            i <= values@.len(),
            out@ + le_encode::<T>(values@.skip(i as int)) == le_encode::<T>(values@),
        decreases values@.len() - i,
    {
        let v = values[i];
        let bits = v.to_bits();
        let ghost before = out@;
        push_le(&mut out, bits, w);
        proof {
            let rest = values@.skip(i as int);
            assert(rest[0] == v);
            assert(rest.drop_first() =~= values@.skip(i + 1));
            assert(out@ + le_encode::<T>(values@.skip(i + 1)) =~= before + le_encode::<T>(rest));
        }
        i = i + 1;
    }
    proof {
        assert(le_encode::<T>(values@.skip(i as int)) == Seq::<u8>::empty());
        assert(out@ + Seq::<u8>::empty() =~= out@);
    }
    out
}

impl Sealed for i8 {}

impl NativeType for i8 {
    open spec fn spec_width() -> nat {
        1
    }

    open spec fn spec_bits(v: i8) -> nat {
        if v < 0 {
            (v + 0x100) as nat
        } else {
            v as nat
        }
    }

    open spec fn spec_from_bits(bits: nat) -> i8 {
        if bits >= 0x80 {
            (bits - 0x100) as i8
        } else {
            bits as i8
        }
    }

    proof fn lemma_bits(v: i8) {
        lemma_value_range();
    }

    fn width() -> (r: usize) {
        1
    }

    fn to_bits(self) -> (r: u64) {
        if self < 0 {
            ((self as i64) + 0x100) as u64
        } else {
            self as u64
        }
    }

    fn from_bits(bits: u64) -> (r: i8) {
        proof {
            lemma_value_range();
        }
        if bits >= 0x80 {
            ((bits as i64) - 0x100) as i8
        } else {
            bits as i8
        }
    }
}

impl Sealed for i16 {}

impl NativeType for i16 {
    open spec fn spec_width() -> nat {
        2
    }

    open spec fn spec_bits(v: i16) -> nat {
        if v < 0 {
            (v + 0x10000) as nat
        } else {
            v as nat
        }
    }

    open spec fn spec_from_bits(bits: nat) -> i16 {
        if bits >= 0x8000 {
            (bits - 0x10000) as i16
        } else {
            bits as i16
        }
    }

    proof fn lemma_bits(v: i16) {
        lemma_value_range();
    }

    fn width() -> (r: usize) {
        2
    }

    fn to_bits(self) -> (r: u64) {
        if self < 0 {
            ((self as i64) + 0x10000) as u64
        } else {
            self as u64
        }
    }

    fn from_bits(bits: u64) -> (r: i16) {
        proof {
            lemma_value_range();
        }
        if bits >= 0x8000 {
            ((bits as i64) - 0x10000) as i16
        } else {
            bits as i16
        }
    }
}

impl Sealed for i32 {}

impl NativeType for i32 {
    open spec fn spec_width() -> nat {
        4
    }

    open spec fn spec_bits(v: i32) -> nat {
        if v < 0 {
            (v + 0x100000000) as nat
        } else {
            v as nat
        }
    }

    open spec fn spec_from_bits(bits: nat) -> i32 {
        if bits >= 0x80000000 {
            (bits - 0x100000000) as i32
        } else {
            bits as i32
        }
    }

    proof fn lemma_bits(v: i32) {
        lemma_value_range();
    }

    fn width() -> (r: usize) {
        4
    }

    fn to_bits(self) -> (r: u64) {
        if self < 0 {
            ((self as i64) + 0x100000000) as u64
        } else {
            self as u64
        }
    }

    fn from_bits(bits: u64) -> (r: i32) {
        proof {
            lemma_value_range();
        }
        if bits >= 0x80000000 {
            ((bits as i64) - 0x100000000) as i32
        } else {
            bits as i32
        }
    }
}

impl Sealed for i64 {}

impl NativeType for i64 {
    open spec fn spec_width() -> nat {
        8
    }

    open spec fn spec_bits(v: i64) -> nat {
        if v < 0 {
            (v + 0x10000000000000000) as nat
        } else {
            v as nat
        }
    }

    open spec fn spec_from_bits(bits: nat) -> i64 {
        if bits >= 0x8000000000000000 {
            (bits - 0x10000000000000000) as i64
        } else {
            bits as i64
        }
    }

    proof fn lemma_bits(v: i64) {
        lemma_value_range();
    }

    fn width() -> (r: usize) {
        8
    }

    fn to_bits(self) -> (r: u64) {
        if self < 0 {
            ((self as i128) + 0x10000000000000000) as u64
        } else {
            self as u64
        }
    }

    fn from_bits(bits: u64) -> (r: i64) {
        proof {
            lemma_value_range();
        }
        if bits >= 0x8000000000000000 {
            ((bits as i128) - 0x10000000000000000) as i64
        } else {
            bits as i64
        }
    }
}

impl Sealed for u8 {}

impl NativeType for u8 {
    open spec fn spec_width() -> nat {
        1
    }

    open spec fn spec_bits(v: u8) -> nat {
        v as nat
    }

    open spec fn spec_from_bits(bits: nat) -> u8 {
        bits as u8
    }

    proof fn lemma_bits(v: u8) {
        lemma_value_range();
    }

    fn width() -> (r: usize) {
        1
    }

    fn to_bits(self) -> (r: u64) {
        self as u64
    }

    fn from_bits(bits: u64) -> (r: u8) {
        proof {
            lemma_value_range();
        }
        bits as u8
    }
}

impl Sealed for u16 {}

impl NativeType for u16 {
    open spec fn spec_width() -> nat {
        2
    }

    open spec fn spec_bits(v: u16) -> nat {
        v as nat
    }

    open spec fn spec_from_bits(bits: nat) -> u16 {
        bits as u16
    }

    proof fn lemma_bits(v: u16) {
        lemma_value_range();
    }

    fn width() -> (r: usize) {
        2
    }

    fn to_bits(self) -> (r: u64) {
        self as u64
    }

    fn from_bits(bits: u64) -> (r: u16) {
        proof {
            lemma_value_range();
        }
        bits as u16
    }
}

impl Sealed for u32 {}

impl NativeType for u32 {
    open spec fn spec_width() -> nat {
        4
    }

    open spec fn spec_bits(v: u32) -> nat {
        v as nat
    }

    open spec fn spec_from_bits(bits: nat) -> u32 {
        bits as u32
    }

    proof fn lemma_bits(v: u32) {
        lemma_value_range();
    }

    fn width() -> (r: usize) {
        4
    }

    fn to_bits(self) -> (r: u64) {
        self as u64
    }

    fn from_bits(bits: u64) -> (r: u32) {
        proof {
            lemma_value_range();
        }
        bits as u32
    }
}

impl Sealed for u64 {}

impl NativeType for u64 {
    open spec fn spec_width() -> nat {
        8
    }

    open spec fn spec_bits(v: u64) -> nat {
        v as nat
    }

    open spec fn spec_from_bits(bits: nat) -> u64 {
        bits as u64
    }

    proof fn lemma_bits(v: u64) {
        lemma_value_range();
    }

    fn width() -> (r: usize) {
        8
    }

    fn to_bits(self) -> (r: u64) {
        self as u64
    }

    fn from_bits(bits: u64) -> (r: u64) {
        proof {
            lemma_value_range();
        }
        bits as u64
    }
}


} // verus!
