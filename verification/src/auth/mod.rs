//! Who may act: tokens, passwords and the comparison of secrets.
use vstd::prelude::*;

pub mod jwt;
pub mod password;

verus! {

/// The byte at position `i`, or zero behind the end.
fn byte_or_zero(s: &[u8], i: usize) -> (r: u8)
    ensures
        r == (if i < s@.len() { s@[i as int] } else { 0 }),
{
    if i < s.len() {
        s[i]
    } else {
        0
    }
}

/// Whether two secrets are the same bytes. Every position of the longer one is looked at,
/// whatever was found before, so the time taken tells nothing of where they differ.
pub fn constant_time_eq(a: &[u8], b: &[u8]) -> (r: bool)
    ensures
        r == (a@ == b@),
{
    let x: usize = a.len();
    let y: usize = b.len();
    let max_len: usize = if x < y { y } else { x };
    let mut acc: usize = x ^ y;
    assert((x ^ y == 0) == (x == y)) by (bit_vector);
    for i in 0..max_len
        invariant
            x == a@.len(),
            y == b@.len(),
            max_len == (if x < y { y } else { x }),
            acc == 0 <==> (x == y && forall|j: int| 0 <= j < i && j < x ==> a@[j] == b@[j]),
    {
        let p: u8 = byte_or_zero(a, i);
        let q: u8 = byte_or_zero(b, i);
        let d: usize = (p ^ q) as usize;
        let before: usize = acc;
        acc = before | d;
        assert((p ^ q == 0) == (p == q)) by (bit_vector);
        assert((before | d == 0) == (before == 0 && d == 0)) by (bit_vector);
        if acc == 0 {
            assert(a@[i as int] == b@[i as int]);
        }
    }
    if acc == 0 {
        assert(a@ == b@);
    }
    acc == 0
}

} // verus!
