use vstd::prelude::*;

verus! {

/// A 32-byte on-chain address, held as four 64-bit little-endian words.
///
/// Identities name the admin, operators, token holders and token mints; the
/// crate only ever compares them for equality. The host converts its native
/// address type to and from these words.
#[derive(Clone, Copy, Debug, PartialEq, Eq, Structural)]
pub struct Identity {
    pub w0: u64,
    pub w1: u64,
    pub w2: u64,
    pub w3: u64,
}

impl Identity {
    /// Builds an identity from its four words.
    pub fn from_words(w0: u64, w1: u64, w2: u64, w3: u64) -> (r: Identity)
        ensures
            r == (Identity { w0, w1, w2, w3 }),
    {
        Identity { w0, w1, w2, w3 }
    }
}

} // verus!
