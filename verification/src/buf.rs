//! Small operations on byte vectors.

use vstd::prelude::*;

verus! {

/// Appends the bytes of `src` to `dst`.
pub fn append(dst: &mut Vec<u8>, src: &[u8])
    ensures
        final(dst)@ == old(dst)@ + src@,
{
    let n: usize = src.len();
    let mut i: usize = 0;
    while i < n
        invariant
            n == src@.len(),
            i <= n,
            dst@ == old(dst)@ + src@.subrange(0, i as int),
        decreases n - i,
    {
        dst.push(src[i]);
        i += 1;
        assert(dst@ == old(dst)@ + src@.subrange(0, i as int));
    }
    assert(src@.subrange(0, n as int) == src@);
}

/// A vector holding `src[from..to]`.
pub fn copy_range(src: &[u8], from: usize, to: usize) -> (out: Vec<u8>)
    requires
        from <= to <= src@.len(),
    ensures
        out@ == src@.subrange(from as int, to as int),
{
    let mut out: Vec<u8> = Vec::new();
    let mut i: usize = from;
    while i < to
        invariant
            from <= i <= to <= src@.len(),
            out@ == src@.subrange(from as int, i as int),
        decreases to - i,
    {
        out.push(src[i]);
        i += 1;
        assert(out@ == src@.subrange(from as int, i as int));
    }
    out
}

/// Overwrites the first `src.len()` bytes of `dst` with `src`.
pub fn store(dst: &mut Vec<u8>, src: &[u8])
    requires
        src@.len() <= old(dst)@.len(),
    ensures
        final(dst)@.len() == old(dst)@.len(),
        final(dst)@.subrange(0, src@.len() as int) == src@,
        final(dst)@.subrange(src@.len() as int, old(dst)@.len() as int) == old(dst)@.subrange(
            src@.len() as int,
            old(dst)@.len() as int,
        ),
{
    let n: usize = src.len();
    let mut i: usize = 0;
    while i < n
        invariant
            n == src@.len(),
            i <= n <= dst@.len(),
            dst@.len() == old(dst)@.len(),
            dst@.subrange(0, i as int) == src@.subrange(0, i as int),
            dst@.subrange(i as int, dst@.len() as int) == old(dst)@.subrange(
                i as int,
                dst@.len() as int,
            ),
        decreases n - i,
    {
        let ghost before = dst@;
        dst.set(i, src[i]);
        i += 1;
        assert(dst@.subrange(0, i as int) == src@.subrange(0, i as int)) by {
            assert(forall|k: int| 0 <= k < i - 1 ==> dst@[k] == before.subrange(0, i - 1)[k]);
        }
        assert(dst@.subrange(i as int, dst@.len() as int) == old(dst)@.subrange(
            i as int,
            dst@.len() as int,
        )) by {
            assert(forall|k: int|
                i <= k < dst@.len() ==> dst@[k] == before.subrange(i - 1, dst@.len() as int)[k - (i
                    - 1)]);
        }
    }
    assert(src@.subrange(0, n as int) == src@);
}

} // verus!
