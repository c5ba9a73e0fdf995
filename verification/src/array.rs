//! Small helpers for elementwise operations on fixed-size arrays.
//!
//! `Matrix` and `Vector` both need to combine two same-length arrays of a
//! `Field` element-by-element (for `Add`/`Sub`); `Matrix` does this per row,
//! `Vector` does it over its whole (flat) storage. `zip_map` is the one
//! piece of logic that's actually shared between the two, so it lives here
//! instead of being written out twice.

use vstd::prelude::*;

verus! {

/// Combines two arrays elementwise using `f`
pub(crate) fn zip_map<F: Copy, const N: usize>(a: [F; N], b: [F; N], f: impl Fn(F, F) -> F) -> (r: [F; N])
    requires
        forall|i: int| 0 <= i < N ==> f.requires((#[trigger] a@[i], b@[i])),
    ensures
        forall|i: int| 0 <= i < N ==> f.ensures((#[trigger] a@[i], b@[i]), r@[i]),
{
    let mut out = a;
    let mut i: usize = 0;
    while i < N
        invariant
            0 <= i <= N,
            forall|k: int| 0 <= k < N ==> f.requires((#[trigger] a@[k], b@[k])),
            forall|k: int| 0 <= k < i ==> f.ensures((#[trigger] a@[k], b@[k]), out@[k]),
        decreases N - i,
    {
        assert(f.requires((a@[i as int], b@[i as int])));
        let c = f(a[i], b[i]);
        out[i] = c;
        i = i + 1;
    }
    out
}

} // verus!
