//! The opaque 32-byte identity of an account, owner, mint or program.

use vstd::prelude::*;

verus! {

/// An opaque 32-byte value standing for an account, owner, mint or program
/// identity. Identities are compared by their bytes and are never mutated.
#[derive(Clone, Copy, Debug)]
pub struct Identity {
    pub bytes: [u8; 32],
}

impl View for Identity {
    type V = Seq<u8>;

    open spec fn view(&self) -> Seq<u8> {
        self.bytes@
    }
}

impl Identity {
    /// Wrap a 32-byte array as an identity.
    pub fn new(bytes: [u8; 32]) -> (r: Identity)
        ensures
            r@ == bytes@,
    {
        Identity { bytes }
    }

    /// The identity's bytes.
    pub fn to_bytes(&self) -> (r: [u8; 32])
        ensures
            r@ == self@,
    {
        self.bytes
    }

    /// The all-zero identity, which the ledger service reads as "no authority".
    pub fn zeroed() -> (r: Identity)
        ensures
            r@ == Seq::<u8>::new(32, |i: int| 0u8),
    {
        let bytes: [u8; 32] = [0u8; 32];
        let r = Identity { bytes };
        proof {
            assert(r@ =~= Seq::<u8>::new(32, |i: int| 0u8));
        }
        r
    }
}

impl PartialEq for Identity {
    fn eq(&self, other: &Identity) -> (r: bool) {
        let mut i: usize = 0;
        while i < 32
            invariant
                0 <= i <= 32,
                forall|j: int| 0 <= j < i ==> self.bytes@[j] == other.bytes@[j],
            decreases 32 - i,
        {
            if self.bytes[i] != other.bytes[i] {
                return false;
            }
            i += 1;
        }
        proof {
            assert(self.bytes@ =~= other.bytes@);
        }
        true
    }
}

impl vstd::std_specs::cmp::PartialEqSpecImpl for Identity {
    open spec fn obeys_eq_spec() -> bool {
        true
    }

    open spec fn eq_spec(&self, other: &Identity) -> bool {
        self.bytes@ == other.bytes@
    }
}

} // verus!
