//! Byte strings as numbers, and the order of the group.
use vstd::arithmetic::power2::{lemma_pow2_pos, pow2};
use vstd::prelude::*;

verus! {

/// The order of the prime-order group: 2^252 + 27742317777372353535851937790883648493.
pub open spec fn group_order() -> nat {
    pow2(252) + 27742317777372353535851937790883648493u128 as nat
}

/// The group order is larger than one.
pub proof fn lemma_group_order_large()
    ensures
        group_order() > 1,
{
    lemma_pow2_pos(252);
}

/// The number that a byte string spells, least significant byte first.
pub open spec fn le_value(bytes: Seq<u8>) -> nat
    decreases bytes.len(),
{
    if bytes.len() == 0 {
        0
    } else {
        bytes[0] as nat + 256 * le_value(bytes.skip(1))
    }
}

/// Whether every byte of a string is zero.
pub fn all_zero(bytes: &[u8; 32]) -> (out: bool)
    ensures
        out == (le_value(bytes@) == 0),
{
    let mut i: usize = 32;
    proof {
        assert(bytes@.skip(32) =~= Seq::<u8>::empty());
    }
    while i > 0
        invariant
            i <= 32,
            le_value(bytes@.skip(i as int)) == 0,
        decreases i,
    {
        i = i - 1;
        proof {
            assert(bytes@.skip(i as int).skip(1) =~= bytes@.skip(i as int + 1));
            assert(bytes@.skip(i as int)[0] == bytes@[i as int]);
        }
        if bytes[i] != 0 {
            proof {
                lemma_nonzero_byte(bytes@, i as int);
            }
            return false;
        }
    }
    proof {
        assert(bytes@.skip(0) =~= bytes@);
    }
    true
}

/// A string with a nonzero byte spells a nonzero number.
pub proof fn lemma_nonzero_byte(bytes: Seq<u8>, i: int)
    requires
        0 <= i < bytes.len(),
        bytes[i] != 0,
    ensures
        le_value(bytes) > 0,
    decreases i,
{
    if i > 0 {
        lemma_nonzero_byte(bytes.skip(1), i - 1);
    }
}

} // verus!
