//! Small verified byte-buffer operations the stream layers share.
use vstd::prelude::*;
use vstd::slice::slice_subrange;
use vstd::slice::slice_to_vec;

verus! {

/// Appends `src` to `dst`.
pub fn append_bytes(dst: &mut Vec<u8>, src: &[u8])
    ensures
        final(dst)@ == old(dst)@ + src@,
{
    let ghost start = dst@;
    let mut i: usize = 0;
    while i < src.len()
        invariant
            0 <= i <= src@.len(),
            dst@ == start + src@.take(i as int),
        decreases src@.len() - i,
    {
        dst.push(src[i]);
        assert(src@.take(i as int).push(src@[i as int]) =~= src@.take((i + 1) as int));
        i = i + 1;
    }
    assert(src@.take(src@.len() as int) =~= src@);
}

/// The bytes of `v` from `from` on, as a new buffer.
pub fn tail_from(v: &Vec<u8>, from: usize) -> (t: Vec<u8>)
    requires
        from <= v@.len(),
    ensures
        t@ == v@.subrange(from as int, v@.len() as int),
{
    slice_to_vec(slice_subrange(v.as_slice(), from, v.len()))
}

/// The first `n` bytes of `v`, as a new buffer.
pub fn head_of(v: &Vec<u8>, n: usize) -> (t: Vec<u8>)
    requires
        n <= v@.len(),
    ensures
        t@ == v@.take(n as int),
{
    let t = slice_to_vec(slice_subrange(v.as_slice(), 0, n));
    assert(t@ =~= v@.take(n as int));
    t
}

/// Whether two byte strings are equal.
pub fn bytes_equal(a: &[u8], b: &[u8]) -> (eq: bool)
    ensures
        eq == (a@ == b@),
{
    if a.len() != b.len() {
        return false;
    }
    let mut i: usize = 0;
    while i < a.len()
        invariant
            a@.len() == b@.len(),
            0 <= i <= a@.len(),
            forall|j: int| 0 <= j < i ==> a@[j] == b@[j],
        decreases a@.len() - i,
    {
        if a[i] != b[i] {
            return false;
        }
        i = i + 1;
    }
    assert(a@ =~= b@);
    true
}

} // verus!
