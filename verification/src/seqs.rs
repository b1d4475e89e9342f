//! Helpers on vectors.
use vstd::prelude::*;

verus! {

/// The elements of `v` in the opposite order.
pub fn reversed<T>(v: Vec<T>) -> (res: Vec<T>)
    ensures
        res@.len() == v@.len(),
        forall|i: int| 0 <= i < v@.len() ==> #[trigger] res@[i] == v@[v@.len() - 1 - i],
{
    let ghost orig = v@;
    let mut src = v;
    let mut out: Vec<T> = Vec::new();
    while src.len() > 0
        invariant
            src@.len() + out@.len() == orig.len(),
            src@ == orig.subrange(0, src@.len() as int),
            forall|i: int| 0 <= i < out@.len() ==> #[trigger] out@[i] == orig[orig.len() - 1 - i],
        decreases src@.len(),
    {
        let x = src.pop().unwrap();
        out.push(x);
        proof {
            assert(src@ =~= orig.subrange(0, src@.len() as int));
        }
    }
    out
}

} // verus!
