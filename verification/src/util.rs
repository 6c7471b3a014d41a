//! Small verified helpers over byte vectors.

use vstd::prelude::*;

verus! {

/// True exactly when the two byte vectors hold the same bytes.
pub fn bytes_eq(a: &Vec<u8>, b: &Vec<u8>) -> (r: bool)
    ensures
        r == (a@ == b@),
{
    if a.len() != b.len() {
        assert(a@ != b@) by {
            assert(a@.len() != b@.len());
        }
        return false;
    }
    let n = a.len();
    let mut i: usize = 0;
    while i < n
        invariant
            n == a@.len() == b@.len(),
            i <= n,
            forall|j: int| 0 <= j < i ==> a@[j] == b@[j],
        decreases n - i,
    {
        if a[i] != b[i] {
            return false;
        }
        i += 1;
    }
    assert(a@ =~= b@);
    true
}

/// Appends all bytes of `src` to `dst`.
pub fn push_bytes(dst: &mut Vec<u8>, src: &Vec<u8>)
    ensures
        final(dst)@ == old(dst)@ + src@,
{
    let n = src.len();
    let mut i: usize = 0;
    while i < n
        invariant
            n == src@.len(),
            i <= n,
            dst@ == old(dst)@ + src@.take(i as int),
        decreases n - i,
    {
        dst.push(src[i]);
        assert(old(dst)@ + src@.take(i as int) + seq![src@[i as int]] =~= old(dst)@ + src@.take(
            i as int + 1,
        ));
        i += 1;
    }
    assert(old(dst)@ + src@.take(n as int) =~= old(dst)@ + src@);
}

/// Copies the byte range `[from, to)` out of `v`.
pub fn subvec(v: &Vec<u8>, from: usize, to: usize) -> (r: Vec<u8>)
    requires
        from <= to <= v@.len(),
    ensures
        r@ == v@.subrange(from as int, to as int),
{
    let mut r: Vec<u8> = Vec::new();
    let mut i: usize = from;
    while i < to
        invariant
            from <= i <= to <= v@.len(),
            r@ == v@.subrange(from as int, i as int),
        decreases to - i,
    {
        r.push(v[i]);
        assert(v@.subrange(from as int, i as int) + seq![v@[i as int]] =~= v@.subrange(
            from as int,
            i as int + 1,
        ));
        i += 1;
    }
    r
}

/// The first position of `b` in `v` within `[from, to)`, if any.
pub fn find_byte(v: &Vec<u8>, from: usize, to: usize, b: u8) -> (r: Option<usize>)
    requires
        from <= to <= v@.len(),
    ensures
        match r {
            Some(i) => from <= i < to && v@[i as int] == b && forall|j: int|
                from <= j < i ==> v@[j] != b,
            None => forall|j: int| from <= j < to ==> v@[j] != b,
        },
{
    let mut i: usize = from;
    while i < to
        invariant
            from <= i <= to <= v@.len(),
            forall|j: int| from <= j < i ==> v@[j] != b,
        decreases to - i,
    {
        if v[i] == b {
            return Some(i);
        }
        i += 1;
    }
    None
}

/// True exactly when `b` occurs in `v` within `[from, to)`.
pub fn contains_byte(v: &Vec<u8>, from: usize, to: usize, b: u8) -> (r: bool)
    requires
        from <= to <= v@.len(),
    ensures
        r == exists|j: int| from <= j < to && v@[j] == b,
{
    match find_byte(v, from, to, b) {
        Some(i) => {
            assert(from <= i < to && v@[i as int] == b);
            true
        },
        None => false,
    }
}

} // verus!
