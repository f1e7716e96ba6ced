//! Accounts: the addresses of validators.

use vstd::prelude::*;

verus! {

/// The address of an account: the 20 bytes that identify a validator.
#[derive(Clone, Copy, Debug, PartialEq, Eq)]
pub struct Id(pub [u8; 20]);

impl Id {
    /// The bytes of the address, as a sequence.
    pub open spec fn bytes(self) -> Seq<u8> {
        self.0@
    }

    /// The bytes of the address.
    pub fn as_bytes(&self) -> (b: &[u8])
        ensures
            b@ == self.bytes(),
            b@.len() == 20,
    {
        self.0.as_slice()
    }
}

} // verus!
