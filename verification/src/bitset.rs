//! Trusted boundary around `fixedbitset::FixedBitSet`, the dense bit buffer
//! that backs the grid. The contents of a bit set are modeled as a
//! `Seq<bool>` whose length is the set's fixed capacity.

use fixedbitset::FixedBitSet;
use vstd::prelude::*;

verus! {

#[verifier::external_type_specification]
#[verifier::external_body]
pub struct ExFixedBitSet(FixedBitSet);

/// The bits a `FixedBitSet` holds, one `bool` per bit, indexed from zero up
/// to the set's capacity.
pub uninterp spec fn fbs_bits(b: FixedBitSet) -> Seq<bool>;

/// Relies on `FixedBitSet::with_capacity`: a set with exactly `bits` bits,
/// all initially disabled.
#[verifier::external_body]
pub(crate) fn fbs_with_capacity(bits: usize) -> (r: FixedBitSet)
    ensures
        fbs_bits(r).len() == bits,
        forall|i: int| 0 <= i < bits ==> !fbs_bits(r)[i],
{
    FixedBitSet::with_capacity(bits)
}

/// Relies on `FixedBitSet::len`: the number of bits the set was created with.
#[verifier::external_body]
pub(crate) fn fbs_len(b: &FixedBitSet) -> (r: usize)
    ensures
        r == fbs_bits(*b).len(),
{
    b.len()
}

/// Relies on `FixedBitSet::contains`: whether bit `bit` is enabled. The
/// precondition keeps the query inside the set's capacity.
#[verifier::external_body]
pub(crate) fn fbs_get(b: &FixedBitSet, bit: usize) -> (r: bool)
    requires
        bit < fbs_bits(*b).len(),
    ensures
        r == fbs_bits(*b)[bit as int],
{
    b.contains(bit)
}

/// Relies on `FixedBitSet::set`: enables or disables bit `bit`, leaving every
/// other bit as it was. `set` panics at or above the capacity, which the
/// precondition rules out.
#[verifier::external_body]
pub(crate) fn fbs_set(b: &mut FixedBitSet, bit: usize, enabled: bool)
    requires
        bit < fbs_bits(*old(b)).len(),
    ensures
        fbs_bits(*final(b)) == fbs_bits(*old(b)).update(bit as int, enabled),
{
    b.set(bit, enabled)
}

} // verus!
