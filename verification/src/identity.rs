//! Identity keys: the 32-byte public keys that name requesters, authorities
//! and token identifiers.

use vstd::prelude::*;

verus! {

broadcast use vstd::array::group_array_axioms;

/// A 32-byte identity key. The same key space names network identities
/// (requesters, authorities) and token identifiers; the registry only ever
/// compares keys for equality.
#[derive(Clone, Copy, Debug)]
pub struct Identity {
    pub bytes: [u8; 32],
}

impl Identity {
    /// Wraps a raw 32-byte key.
    pub fn new(bytes: [u8; 32]) -> (r: Identity)
        ensures
            r.bytes == bytes,
    {
        Identity { bytes }
    }
}

impl PartialEq for Identity {
    fn eq(&self, other: &Identity) -> (r: bool) {
        let mut i: usize = 0;
        while i < 32
            invariant
                i <= 32,
                forall|j: int| 0 <= j < i ==> self.bytes@[j] == other.bytes@[j],
            decreases 32 - i,
        {
            if self.bytes[i] != other.bytes[i] {
                proof {
                    assert(self.bytes@[i as int] != other.bytes@[i as int]);
                }
                return false;
            }
            i += 1;
        }
        proof {
            assert(self.bytes =~= other.bytes);
        }
        true
    }
}

impl Eq for Identity {

}

impl vstd::std_specs::cmp::PartialEqSpecImpl for Identity {
    open spec fn obeys_eq_spec() -> bool {
        true
    }

    open spec fn eq_spec(&self, other: &Identity) -> bool {
        *self == *other
    }
}

} // verus!
