use vstd::prelude::*;

verus! {

/// A 32-byte ledger address, held as four little-endian 64-bit words.
pub type Pubkey = (u64, u64, u64, u64);

/// Whether two addresses are the same.
pub fn key_eq(a: &Pubkey, b: &Pubkey) -> (r: bool)
    ensures
        r == (*a == *b),
{
    a.0 == b.0 && a.1 == b.1 && a.2 == b.2 && a.3 == b.3
}

} // verus!
