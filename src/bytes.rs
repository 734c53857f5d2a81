use vstd::prelude::*;

verus! {

/// Appends `bytes` to the end of `out`.
pub fn push_all(out: &mut Vec<u8>, bytes: &[u8])
    ensures
        final(out)@ == old(out)@ + bytes@,
{
    let ghost start = out@;
    let mut i: usize = 0;
    while i < bytes.len()
        invariant
            i <= bytes@.len(),
            out@ == start + bytes@.subrange(0, i as int),
        decreases bytes@.len() - i,
    {
        out.push(bytes[i]);
        i = i + 1;
        assert(bytes@.subrange(0, i as int) == bytes@.subrange(0, i - 1) + seq![bytes@[i - 1]]);
    }
    assert(bytes@.subrange(0, bytes@.len() as int) == bytes@);
}

/// Copies the `N` bytes of `data` that begin at `start` into an array.
pub fn copy_array<const N: usize>(data: &[u8], start: usize) -> (r: [u8; N])
    requires
        start + N <= data@.len(),
    ensures
        r@ == data@.subrange(start as int, start + N),
{
    let len = data.len();
    let mut r = [0u8; N];
    let mut i: usize = 0;
    while i < N
        invariant
            i <= N,
            len == data@.len(),
            start + N <= data@.len(),
            r@.len() == N,
            forall|j: int| 0 <= j < i ==> r@[j] == data@[start + j],
        decreases N - i,
    {
        r[i] = data[start + i];
        i = i + 1;
    }
    assert(r@ == data@.subrange(start as int, start + N));
    r
}

} // verus!
