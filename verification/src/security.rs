//! Buffers that hold secret bytes and are wiped when dropped.

use vstd::prelude::*;
use zeroize::Zeroize;

verus! {

/// Secret bytes, wiped with `zeroize` when the buffer is dropped.
#[derive(Clone)]
pub struct ProtectedBuffer(pub Vec<u8>);

/// Wipes the bytes of `v` and empties it (`Zeroize::zeroize` on a `Vec`:
/// volatile zero writes over the elements and spare capacity, then `clear`,
/// none of which panics).
#[verifier::external_body]
fn zeroize_bytes(v: &mut Vec<u8>)
    ensures
        final(v)@ == Seq::<u8>::empty(),
    opens_invariants none
    no_unwind
{
    v.zeroize();
}

impl ProtectedBuffer {
    /// The bytes held.
    pub fn as_bytes(&self) -> (r: &[u8])
        ensures
            r@ == self.0@,
    {
        self.0.as_slice()
    }

    /// Wipes the bytes now; the buffer is left empty.
    pub fn wipe(&mut self)
        ensures
            final(self).0@ == Seq::<u8>::empty(),
    {
        zeroize_bytes(&mut self.0);
    }
}

impl Drop for ProtectedBuffer {
    fn drop(&mut self)
        opens_invariants none
        no_unwind
    {
        zeroize_bytes(&mut self.0);
    }
}

} // verus!
