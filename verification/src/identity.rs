use vstd::prelude::*;

verus! {

/// A 32-byte ledger identity: a participant key, an asset kind, or a derived
/// custody address.
pub type Id = [u8; 32];

/// Byte-for-byte equality of two identities.
pub fn id_eq(a: &Id, b: &Id) -> (r: bool)
    ensures
        r <==> a@ == b@,
{
    let mut i: usize = 0;
    while i < 32
        invariant
            i <= 32,
            forall|j: int| 0 <= j < i ==> a@[j] == b@[j],
        decreases 32 - i,
    {
        if a[i] != b[i] {
            return false;
        }
        i = i + 1;
    }
    proof {
        assert(a@ =~= b@);
    }
    true
}

} // verus!
