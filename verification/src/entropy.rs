//! Deterministic byte source used where the platform's random generator is
//! replaced: every byte is its own position modulo 256.

use vstd::prelude::*;

verus! {

/// The error type of the byte source; [`fill`] never produces it.
#[derive(Debug, Clone, Copy)]
pub struct Error;

/// The byte written at position `i`.
pub open spec fn pattern_byte(i: int) -> u8 {
    (i % 256) as u8
}

/// Overwrites every byte of `dest` with its position modulo 256.
pub fn fill(dest: &mut [u8]) -> (r: Result<(), Error>)
    ensures
        r is Ok,
        final(dest)@.len() == old(dest)@.len(),
        forall|i: int| 0 <= i < final(dest)@.len() ==> #[trigger] final(dest)@[i] == pattern_byte(i),
{
    let n = dest.len();
    let mut i: usize = 0;
    while i < n
        invariant
            n == dest@.len(),
            i <= n,
            forall|k: int| 0 <= k < i ==> #[trigger] dest@[k] == pattern_byte(k),
        decreases n - i,
    {
        dest[i] = (i % 256) as u8;
        i = i + 1;
    }
    Ok(())
}

/// Same as [`fill`].
pub fn getrandom(dest: &mut [u8]) -> (r: Result<(), Error>)
    ensures
        r is Ok,
        final(dest)@.len() == old(dest)@.len(),
        forall|i: int| 0 <= i < final(dest)@.len() ==> #[trigger] final(dest)@[i] == pattern_byte(i),
{
    fill(dest)
}

} // verus!
