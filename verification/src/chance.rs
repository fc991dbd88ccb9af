//! Random bytes.

use vstd::prelude::*;

verus! {

/// Wraps `rand::random`: thirty-two random bytes, of which nothing is known.
#[verifier::external_body]
pub(crate) fn random_32() -> (r: [u8; 32]) {
    rand::random()
}

/// Sixteen random bytes, of which nothing is known: the first of thirty-two.
pub(crate) fn random_16() -> (r: [u8; 16]) {
    let all: [u8; 32] = random_32();
    first_16(&all)
}

/// Eight random bytes, of which nothing is known: the first of thirty-two.
pub(crate) fn random_8() -> (r: [u8; 8]) {
    let all: [u8; 32] = random_32();
    first_8(&all)
}

/// The first sixteen of thirty-two bytes.
pub fn first_16(all: &[u8; 32]) -> (r: [u8; 16])
    ensures
        r@ == all@.take(16),
{
    let mut out: [u8; 16] = [0u8; 16];
    let mut i: usize = 0;
    while i < 16
        invariant
            i <= 16,
            forall|k: int| 0 <= k < i ==> #[trigger] out@[k] == all@[k],
        decreases 16 - i,
    {
        out[i] = all[i];
        i = i + 1;
    }
    assert(out@ =~= all@.take(16));
    out
}

/// The first eight of thirty-two bytes.
pub fn first_8(all: &[u8; 32]) -> (r: [u8; 8])
    ensures
        r@ == all@.take(8),
{
    let mut out: [u8; 8] = [0u8; 8];
    let mut i: usize = 0;
    while i < 8
        invariant
            i <= 8,
            forall|k: int| 0 <= k < i ==> #[trigger] out@[k] == all@[k],
        decreases 8 - i,
    {
        out[i] = all[i];
        i = i + 1;
    }
    assert(out@ =~= all@.take(8));
    out
}

} // verus!
