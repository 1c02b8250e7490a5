//! What the library takes on trust about `fixedbitset::FixedBitSet`.
//!
//! Nothing in this file is proved. Each item says what the outside crate's
//! code does, and the packed store is verified against these statements.

use fixedbitset::FixedBitSet;
use vstd::prelude::*;

verus! {

/// Makes `fixedbitset::FixedBitSet` known to the verifier as a type whose
/// inside it does not see.
#[verifier::external_type_specification]
#[verifier::external_body]
pub struct ExFixedBitSet(fixedbitset::FixedBitSet);

/// The bits that a set holds, in order of their index. Its length is the
/// number of bits the set was made with.
pub uninterp spec fn bits(set: FixedBitSet) -> Seq<bool>;

/// Bit `k` of a storage word, counted from the least significant one.
pub open spec fn word_bit(word: u32, k: int) -> bool {
    word & (1u32 << (k as u32)) != 0
}

/// `FixedBitSet::with_capacity`: a set of `len` bits, all of them clear.
#[verifier::external_body]
pub(crate) fn cleared(len: usize) -> (set: FixedBitSet)
    ensures
        bits(set) == Seq::new(len as nat, |i: int| false),
{
    FixedBitSet::with_capacity(len)
}

/// `FixedBitSet::set`: bit `i` takes the value given and every other bit
/// keeps its own. The outside function panics when `i` is not below the
/// length, and on no other input; so such an `i` is not admitted, and the
/// call is taken never to unwind.
#[verifier::external_body]
pub(crate) fn set_bit(set: &mut FixedBitSet, i: usize, value: bool)
    requires
        i < bits(*old(set)).len(),
    ensures
        bits(*final(set)) == bits(*old(set)).update(i as int, value),
    no_unwind
{
    set.set(i, value)
}

/// The index operator of `FixedBitSet`, `Index::index`: the value of bit `i`.
/// It is asked only of an `i` below the length, where the outside function
/// reads a bit of the set.
#[verifier::external_body]
pub(crate) fn bit_at(set: &FixedBitSet, i: usize) -> (value: bool)
    requires
        i < bits(*set).len(),
    ensures
        value == bits(*set)[i as int],
{
    set[i]
}

/// `Clone::clone` of `FixedBitSet`: a set with the same bits.
#[verifier::external_body]
pub(crate) fn copy_of(set: &FixedBitSet) -> (copy: FixedBitSet)
    ensures
        bits(copy) == bits(*set),
{
    set.clone()
}

/// `FixedBitSet::as_slice`: the words that store the bits, 32 bits to a
/// word, bit `i` of the set being bit `i % 32` of word `i / 32`. Nothing is
/// said of the bits of the last word that lie past the set's length.
#[verifier::external_body]
pub(crate) fn words(set: &FixedBitSet) -> (words: &[u32])
    ensures
        words@.len() == (bits(*set).len() + 31) / 32,
        forall|i: int|
            0 <= i < bits(*set).len() ==> #[trigger] bits(*set)[i] == word_bit(words@[i / 32], i % 32),
{
    set.as_slice()
}

} // verus!
