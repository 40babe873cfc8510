use crate::address::Address;
use crate::curve::Point;
use vstd::prelude::*;

verus! {

/// Appends the words `b` to the encoding `v`.
pub fn append_words(v: &mut Vec<u8>, b: &[u8])
    ensures
        final(v)@ == old(v)@ + b@,
{
    let ghost start = v@;
    let mut i: usize = 0;
    while i < b.len()
        invariant
            i <= b@.len(),
            v@ == start + b@.take(i as int),
        decreases b.len() - i,
    {
        v.push(b[i]);
        assert(b@.take(i + 1) =~= b@.take(i as int).push(b@[i as int]));
        i = i + 1;
    }
    assert(b@.take(i as int) =~= b@);
}

/// An address as a 32-byte word: twelve zero bytes, then the address.
pub fn address(a: Address) -> (r: [u8; 32])
    ensures
        r@ == Seq::new(12, |i: int| 0u8) + a@,
{
    let s = a.as_slice();
    let mut b = [0u8; 32];
    let mut i: usize = 12;
    while i < 32
        invariant
            12 <= i <= 32,
            s@ == a@,
            s@.len() == 20,
            forall|j: int| 0 <= j < 12 ==> b@[j] == 0u8,
            forall|j: int| 12 <= j < i ==> b@[j] == s@[j - 12],
        decreases 32 - i,
    {
        b[i] = s[i - 12];
        i = i + 1;
    }
    assert(b@ =~= Seq::new(12, |i: int| 0u8) + a@);
    b
}

/// A scalar as a 32-byte big-endian word.
pub fn scalar(z: &[u8; 32]) -> (r: [u8; 32])
    ensures
        r@ == z@,
{
    *z
}

/// A curve point as two 32-byte words: x, then y, with no prefix byte.
pub fn coord(p: &Point) -> (r: [u8; 64])
    ensures
        r@ == p.x@ + p.y@,
{
    let mut b = [0u8; 64];
    let mut i: usize = 0;
    while i < 64
        invariant
            i <= 64,
            forall|j: int| 0 <= j < i ==> b@[j] == (p.x@ + p.y@)[j],
        decreases 64 - i,
    {
        b[i] = if i < 32 { p.x[i] } else { p.y[i - 32] };
        i = i + 1;
    }
    assert(b@ =~= p.x@ + p.y@);
    b
}

} // verus!
