//! The packed bit buffer, used through `fixedbitset::FixedBitSet`.
//!
//! Each operation the simulation needs is a small wrapper whose contract is
//! stated over `bits_of`, the sequence of booleans the buffer holds.

use vstd::prelude::*;

verus! {

#[verifier::external_type_specification]
#[verifier::external_body]
pub struct ExFixedBitSet(fixedbitset::FixedBitSet);

/// The bits held by a `FixedBitSet`, in index order; its length is the
/// buffer's length in bits.
pub uninterp spec fn bits_of(s: fixedbitset::FixedBitSet) -> Seq<bool>;

/// Relies on `FixedBitSet::with_capacity`: `n` bits, all clear.
#[verifier::external_body]
pub(crate) fn bits_cleared(n: usize) -> (r: fixedbitset::FixedBitSet)
    ensures
        bits_of(r).len() == n,
        forall|i: int| 0 <= i < n ==> !#[trigger] bits_of(r)[i],
{
    fixedbitset::FixedBitSet::with_capacity(n)
}

/// Relies on `FixedBitSet::set`: bit `i` becomes `enabled`, the others stay;
/// it panics when `i` is not below the length.
#[verifier::external_body]
pub(crate) fn bits_set(s: &mut fixedbitset::FixedBitSet, i: usize, enabled: bool)
    requires
        i < bits_of(*old(s)).len(),
    ensures
        bits_of(*final(s)) == bits_of(*old(s)).update(i as int, enabled),
{
    s.set(i, enabled)
}

/// Relies on `FixedBitSet::contains`: whether bit `i` is set, `false` past
/// the length.
#[verifier::external_body]
pub(crate) fn bits_get(s: &fixedbitset::FixedBitSet, i: usize) -> (r: bool)
    ensures
        r == (i < bits_of(*s).len() && bits_of(*s)[i as int]),
{
    s.contains(i)
}

/// Relies on `FixedBitSet::len`: the length in bits.
#[verifier::external_body]
pub(crate) fn bits_len(s: &fixedbitset::FixedBitSet) -> (r: usize)
    ensures
        r == bits_of(*s).len(),
{
    s.len()
}

/// Relies on `Clone` for `FixedBitSet`: the copy holds the same bits.
#[verifier::external_body]
pub(crate) fn bits_copy(s: &fixedbitset::FixedBitSet) -> (r: fixedbitset::FixedBitSet)
    ensures
        bits_of(r) == bits_of(*s),
{
    s.clone()
}

/// Bit `i` of a sequence of 32-bit blocks, least significant bit first.
pub open spec fn block_bit(blocks: Seq<u32>, i: int) -> bool {
    (blocks[i / 32] >> ((i % 32) as u32)) & 1u32 == 1u32
}

/// Relies on `FixedBitSet::as_slice`: the blocks of 32 bits that store the
/// buffer, one for each started run of 32 bits, bit `i` being bit `i % 32`
/// (least significant first) of block `i / 32`.
#[verifier::external_body]
pub(crate) fn bits_blocks(s: &fixedbitset::FixedBitSet) -> (r: Vec<u32>)
    ensures
        r@.len() == (bits_of(*s).len() + 31) / 32,
        forall|i: int| 0 <= i < bits_of(*s).len() ==> #[trigger] bits_of(*s)[i] == block_bit(r@, i),
{
    s.as_slice().to_vec()
}

} // verus!
