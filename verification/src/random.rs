//! Random bytes.

use rand::RngCore;
use vstd::prelude::*;

verus! {

/// Calls `fill_bytes` of `rand::thread_rng()` on `len` bytes. What the bytes
/// are is left to chance; only their number is fixed.
#[verifier::external_body]
pub(crate) fn random_bytes(len: usize) -> (r: Vec<u8>)
    ensures
        r@.len() == len,
{
    let mut bytes = vec![0u8; len];
    rand::thread_rng().fill_bytes(&mut bytes);
    bytes
}

/// Whether `random_bytes` may have returned `bytes`: where bytes come from, and
/// nothing of what they are.
pub closed spec fn drawn(bytes: Seq<u8>) -> bool {
    exists|v: Vec<u8>, len: usize|
        v@ == bytes && #[trigger] call_ensures(random_bytes, (len,), v)
}

/// `len` random bytes.
pub(crate) fn draw(len: usize) -> (r: Vec<u8>)
    ensures
        r@.len() == len,
        drawn(r@),
{
    let r = random_bytes(len);
    assert(call_ensures(random_bytes, (len,), r));
    r
}

} // verus!
