//! Preparing the element sequences of a text.
use vstd::prelude::*;
use vstd::std_specs::iter::IteratorSpec;

verus! {

/// The scalar value of each character of `s`, in order.
pub fn scalar_values(s: &str) -> (r: Vec<u32>)
    ensures
        r@ == s@.map_values(|c: char| c as u32),
{
    let mut it = s.chars();
    let mut r: Vec<u32> = Vec::new();
    loop
        invariant
            it.remaining() == s@.skip(r@.len() as int),
            r@.len() <= s@.len(),
            r@ == s@.take(r@.len() as int).map_values(|c: char| c as u32),
        ensures
            r@ == s@.map_values(|c: char| c as u32),
        decreases s@.len() - r@.len(),
    {
        match it.next() {
            Some(c) => {
                r.push(c as u32);
            },
            None => {
                proof {
                    assert(s@.take(r@.len() as int) =~= s@);
                }
                break;
            },
        }
    }
    r
}

/// Whether two byte slices hold the same bytes in the same order.
pub fn same_bytes(a: &[u8], b: &[u8]) -> (r: bool)
    ensures
        r == (a@ == b@),
{
    if a.len() != b.len() {
        return false;
    }
    let mut i: usize = 0;
    while i < a.len()
        invariant
            i <= a@.len(),
            a@.len() == b@.len(),
            forall|k: int| 0 <= k < i ==> a@[k] == b@[k],
        decreases a@.len() - i,
    {
        if a[i] != b[i] {
            return false;
        }
        i = i + 1;
    }
    proof {
        assert(a@ =~= b@);
    }
    true
}

} // verus!
