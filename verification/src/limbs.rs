//! Natural numbers written as little-endian sequences of 64-bit limbs.

use vstd::prelude::*;

verus! {

/// The number that `limbs` denotes, least significant limb first.
pub open spec fn limbs_value(limbs: Seq<u64>) -> nat
    decreases limbs.len(),
{
    if limbs.len() == 0 {
        0
    } else {
        limbs[0] as nat + 0x1_0000_0000_0000_0000 * limbs_value(limbs.drop_first())
    }
}

/// Dropping the limbs below position `i` and then the first of the rest
/// leaves the limbs from position `i + 1` on.
pub proof fn lemma_limbs_value_skip(limbs: Seq<u64>, i: int)
    requires
        0 <= i < limbs.len(),
    ensures
        limbs_value(limbs.skip(i)) == limbs[i] as nat + 0x1_0000_0000_0000_0000 * limbs_value(
            limbs.skip(i + 1),
        ),
{
    assert(limbs.skip(i).drop_first() =~= limbs.skip(i + 1));
}

/// The number that four limbs denote, written out.
pub proof fn lemma_limbs_value_four(limbs: Seq<u64>)
    requires
        limbs.len() == 4,
    ensures
        limbs_value(limbs) == limbs[0] as nat + 0x1_0000_0000_0000_0000 * limbs[1] as nat
            + 0x1_0000_0000_0000_0000_0000_0000_0000_0000 * limbs[2] as nat
            + 0x1_0000_0000_0000_0000_0000_0000_0000_0000_0000_0000_0000_0000 * limbs[3] as nat,
{
    lemma_limbs_value_skip(limbs, 0);
    lemma_limbs_value_skip(limbs, 1);
    lemma_limbs_value_skip(limbs, 2);
    lemma_limbs_value_skip(limbs, 3);
    assert(limbs.skip(0) =~= limbs);
    assert(limbs.skip(4) =~= Seq::<u64>::empty());
}

/// Four limbs are told by the number that they denote.
pub proof fn lemma_limbs_value_four_injective(a: Seq<u64>, b: Seq<u64>)
    requires
        a.len() == 4,
        b.len() == 4,
        limbs_value(a) == limbs_value(b),
    ensures
        a == b,
{
    lemma_limbs_value_four(a);
    lemma_limbs_value_four(b);
    assert(a[3] == b[3]);
    assert(a[2] == b[2]);
    assert(a[1] == b[1]);
    assert(a[0] == b[0]);
    assert(a =~= b);
}

} // verus!
