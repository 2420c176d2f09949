//! The proof-of-work predicate: a hash meets a difficulty level when its
//! leading bits, as many as the level, are all zero.

use vstd::prelude::*;

verus! {

/// Bit `i` of `hash`, counted from the most significant bit of the first byte.
pub open spec fn bit_at(hash: Seq<u8>, i: int) -> u8 {
    (hash[i / 8] >> ((7 - i % 8) as u8)) & 1u8
}

/// `hash` has at least `difficulty` bits and the first `difficulty` of them are zero.
pub open spec fn valid_prefix(hash: Seq<u8>, difficulty: nat) -> bool {
    &&& difficulty <= 8 * hash.len()
    &&& forall|i: int| 0 <= i < difficulty ==> #[trigger] bit_at(hash, i) == 0
}

/// Decides whether `hash` meets the difficulty level `difficulty`.
pub fn has_valid_prefix(hash: &[u8], difficulty: u8) -> (r: bool)
    ensures
        r == valid_prefix(hash@, difficulty as nat),
{
    let d: usize = difficulty as usize;
    if hash.len() < (d + 7) / 8 {
        return false;
    }
    let mut i: usize = 0;
    while i < d
        invariant
            d == difficulty,
            d <= 8 * hash@.len(),
            i <= d,
            forall|j: int| 0 <= j < i ==> #[trigger] bit_at(hash@, j) == 0,
        decreases d - i,
    {
        let b: u8 = hash[i / 8];
        let s: u8 = (7 - i % 8) as u8;
        if (b >> s) & 1u8 != 0 {
            assert(bit_at(hash@, i as int) != 0);
            return false;
        }
        i = i + 1;
    }
    true
}

} // verus!
