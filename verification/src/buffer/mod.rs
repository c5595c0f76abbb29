//! Buffer types: immutable byte buffers, growable buffers, typed views and bitmaps.

use vstd::prelude::*;

pub mod boolean;
pub mod immutable;
pub mod mutable;
pub mod null;
pub mod scalar;

pub use boolean::BooleanBuffer;
pub use immutable::Buffer;
pub use mutable::MutableBuffer;
pub use null::NullBuffer;
pub use scalar::ScalarBuffer;

verus! {

/// Slicing a slice is slicing once: taking `d` entries at `c` of the `b`
/// entries at `a` takes the `d` entries at `a + c`. Every `slice` of this
/// module (bytes, booleans, validity, typed values) views its result as
/// this subrange.
pub proof fn lemma_slice_of_slice<T>(s: Seq<T>, a: int, b: int, c: int, d: int)
    requires
        0 <= a,
        0 <= b,
        a + b <= s.len(),
        0 <= c,
        0 <= d,
        c + d <= b,
    ensures
        s.subrange(a, a + b).subrange(c, c + d) == s.subrange(a + c, a + c + d),
{
    assert(s.subrange(a, a + b).subrange(c, c + d) =~= s.subrange(a + c, a + c + d));
}

} // verus!
