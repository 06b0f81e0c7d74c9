//! Small byte-buffer helpers shared by the codecs and the piece logic.

use vstd::prelude::*;

verus! {

/// Relies on `<[u8; N] as TryFrom<&[u8]>>::try_from`, which its documentation
/// says succeeds exactly when the slice length equals `N` and copies the slice.
#[verifier::external_body]
pub(crate) fn to_array<const N: usize>(src: &[u8]) -> (r: [u8; N])
    requires
        src@.len() == N,
    ensures
        r@ == src@,
{
    src.try_into().unwrap()
}

/// Byte-wise equality of two buffers.
pub fn bytes_eq(a: &[u8], b: &[u8]) -> (r: bool)
    ensures
        r == (a@ == b@),
{
    if a.len() != b.len() {
        proof {
            assert(a@.len() != b@.len());
        }
        return false;
    }
    let n = a.len();
    let mut i: usize = 0;
    while i < n
        invariant
            n == a@.len() == b@.len(),
            0 <= i <= n,
            forall|j: int| 0 <= j < i ==> a@[j] == b@[j],
        decreases n - i,
    {
        if a[i] != b[i] {
            return false;
        }
        i = i + 1;
    }
    proof {
        assert(a@ =~= b@);
    }
    true
}

/// Copy `src[from..to]` into a fresh vector.
pub fn copy_range(src: &[u8], from: usize, to: usize) -> (r: Vec<u8>)
    requires
        from <= to <= src@.len(),
    ensures
        r@ == src@.subrange(from as int, to as int),
{
    let s = vstd::slice::slice_subrange(src, from, to);
    vstd::slice::slice_to_vec(s)
}

} // verus!
