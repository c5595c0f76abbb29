//! Validity bitmaps with a cached null count.

use vstd::prelude::*;
use super::boolean::BooleanBuffer;

verus! {

/// Number of `false` (null) entries of a validity sequence.
pub open spec fn count_nulls(validity: Seq<bool>) -> nat
    decreases validity.len(),
{
    if validity.len() == 0 {
        0
    } else {
        count_nulls(validity.drop_last()) + if validity.last() { 0nat } else { 1nat }
    }
}

/// A sequence has no more nulls than entries.
pub proof fn lemma_count_nulls_le_len(validity: Seq<bool>)
    ensures
        count_nulls(validity) <= validity.len(),
    decreases validity.len(),
{
    if validity.len() > 0 {
        lemma_count_nulls_le_len(validity.drop_last());
    }
}

/// The null count is zero exactly when every entry is valid.
pub proof fn lemma_count_nulls_zero(validity: Seq<bool>)
    ensures
        (count_nulls(validity) == 0) == (forall|i: int| 0 <= i < validity.len() ==> #[trigger] validity[i]),
    decreases validity.len(),
{
    if validity.len() > 0 {
        let prefix = validity.drop_last();
        lemma_count_nulls_zero(prefix);
        if count_nulls(validity) == 0 {
            assert forall|i: int| 0 <= i < validity.len() implies #[trigger] validity[i] by {
                if i < validity.len() - 1 {
                    assert(prefix[i] == validity[i]);
                }
            }
        }
        if forall|i: int| 0 <= i < validity.len() ==> #[trigger] validity[i] {
            assert forall|i: int| 0 <= i < prefix.len() implies #[trigger] prefix[i] by {
                assert(validity[i]);
            }
            assert(validity[validity.len() - 1]);
        }
    }
}

/// Counting the nulls of one more entry.
proof fn lemma_count_nulls_step(validity: Seq<bool>, i: int)
    requires
        0 <= i < validity.len(),
    ensures
        count_nulls(validity.take(i + 1)) == count_nulls(validity.take(i)) + if validity[i] { 0nat } else { 1nat },
{
    assert(validity.take(i + 1).drop_last() =~= validity.take(i));
}

/// Counts the `false` values of `buffer`.
fn count_false(buffer: &BooleanBuffer) -> (n: usize)
    requires
        buffer.backed(),
    ensures
        n == count_nulls(buffer@),
{
    let len = buffer.len();
    let mut null_count: usize = 0;
    let mut i: usize = 0;
    while i < len
        invariant
            len == buffer@.len(),
            buffer.backed(),
            i <= len,
            null_count == count_nulls(buffer@.take(i as int)),
        decreases len - i,
    {
        proof {
            lemma_count_nulls_step(buffer@, i as int);
            lemma_count_nulls_le_len(buffer@.take(i as int));
            buffer.lemma_backed_has_bit(i as int);
        }
        if !buffer.value(i) {
            null_count = null_count + 1;
        }
        i = i + 1;
    }
    assert(buffer@.take(len as int) =~= buffer@);
    null_count
}

/// A validity bitmap: `true` marks a valid value, `false` a null one.
/// The number of nulls is computed once, at construction.
pub struct NullBuffer {
    buffer: BooleanBuffer,
    null_count: usize,
}

impl View for NullBuffer {
    type V = Seq<bool>;

    /// The validity of each value.
    closed spec fn view(&self) -> Seq<bool> {
        self.buffer@
    }
}

impl NullBuffer {
    #[verifier::type_invariant]
    spec fn inv(self) -> bool {
        &&& self.buffer.backed()
        &&& self.null_count == count_nulls(self.buffer@)
    }

    /// A validity bitmap over `buffer`, counting its nulls.
    pub fn new(buffer: BooleanBuffer) -> (r: Self)
        requires
            forall|i: int| 0 <= i < buffer@.len() ==> #[trigger] buffer.has_bit(i),
        ensures
            r@ == buffer@,
    {
        proof {
            buffer.lemma_backed_iff_all_bits();
        }
        let null_count = count_false(&buffer);
        NullBuffer { buffer, null_count }
    }

    /// A validity bitmap from `bools`: `true` is valid, `false` is null.
    pub fn from_bools(bools: &[bool]) -> (r: Self)
        ensures
            r@ == bools@,
    {
        let buffer = BooleanBuffer::from_bools(bools);
        Self::new(buffer)
    }

    /// Number of null values.
    pub fn null_count(&self) -> (r: usize)
        ensures
            r == count_nulls(self@),
    {
        proof {
            use_type_invariant(self);
        }
        self.null_count
    }

    /// Number of values (not bytes).
    pub fn len(&self) -> (r: usize)
        ensures
            r == self@.len(),
    {
        self.buffer.len()
    }

    /// Whether the value at `idx` is null.
    pub fn is_null(&self, idx: usize) -> (b: bool)
        requires
            idx < self@.len(),
        ensures
            b == !self@[idx as int],
    {
        proof {
            use_type_invariant(self);
            self.buffer.lemma_backed_has_bit(idx as int);
        }
        !self.buffer.value(idx)
    }

    /// The validity of `len` values starting at `offset`, with its own null count.
    pub fn slice(&self, offset: usize, len: usize) -> (r: Self)
        requires
            offset + len <= self@.len(),
        ensures
            r@ == self@.subrange(offset as int, offset + len),
    {
        proof {
            use_type_invariant(self);
        }
        let buffer = self.buffer.slice(offset, len);
        let null_count = count_false(&buffer);
        NullBuffer { buffer, null_count }
    }
}

} // verus!
