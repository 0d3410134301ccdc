//! The two primitives that the tokens take from other crates: the random
//! source and the comparison in constant time.
use rand::Rng;
use subtle::ConstantTimeEq;
use vstd::prelude::*;

use crate::TOKEN_LEN;

verus! {

/// Overwrites `buf` with bytes from the thread-local generator of the `rand`
/// crate: `rand::thread_rng().fill(buf)`.
///
/// Nothing is claimed of the bytes. The generator is seeded by the operating
/// system; if that fails, `rand` panics, which no caller can foresee or
/// recover from.
#[verifier::external_body]
pub(crate) fn fill_random(buf: &mut [u8; TOKEN_LEN]) {
    rand::thread_rng().fill(buf);
}

/// Compares two secrets with `subtle::ConstantTimeEq::ct_eq` on byte slices
/// and turns the `subtle::Choice` into a `bool`.
///
/// Taken on trust of `subtle`: the choice is 1 if the slices are equal and 0
/// if they are not. That the comparison takes the same time wherever the
/// slices differ is what `subtle` is for; it is no part of this contract.
#[verifier::external_body]
pub(crate) fn constant_time_eq(a: &[u8; TOKEN_LEN], b: &[u8; TOKEN_LEN]) -> (equal: bool)
    ensures
        equal == (a@ == b@),
{
    a.ct_eq(b).into()
}

} // verus!
