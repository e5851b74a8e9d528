//! Matching of a candidate address against a target prefix.

use vstd::prelude::*;

verus! {

/// `prefix` occupies the first `prefix.len()` positions of `address`.
pub open spec fn starts_with(address: Seq<u8>, prefix: Seq<u8>) -> bool {
    &&& prefix.len() <= address.len()
    &&& forall|i: int| 0 <= i < prefix.len() ==> address[i] == prefix[i]
}

/// Byte-for-byte prefix check of an address against the job's target.
pub fn prefix_match(address: &[u8], prefix: &[u8]) -> (hit: bool)
    ensures
        hit == starts_with(address@, prefix@),
{
    if prefix.len() > address.len() {
        return false;
    }
    let mut i: usize = 0;
    while i < prefix.len()
        invariant
            i <= prefix.len() <= address.len(),
            forall|j: int| 0 <= j < i ==> address@[j] == prefix@[j],
        decreases prefix.len() - i,
    {
        if address[i] != prefix[i] {
            return false;
        }
        i += 1;
    }
    true
}

} // verus!
