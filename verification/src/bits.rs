//! Sets of node ids, held in bit sets.

use vstd::prelude::*;

verus! {

/// A set of numbers, held in a `bit_set::BitSet`.
#[verifier::external_body]
pub struct IdSet {
    bits: bit_set::BitSet,
}

/// The numbers that a set holds.
pub uninterp spec fn members(s: IdSet) -> Set<usize>;

/// `bit_set::BitSet::with_capacity`: a set that holds nothing.
#[verifier::external_body]
pub(crate) fn with_capacity(nbits: usize) -> (s: IdSet)
    ensures
        members(s) == Set::<usize>::empty(),
{
    IdSet { bits: bit_set::BitSet::with_capacity(nbits) }
}

/// `bit_set::BitSet::insert`: the set holds `value` afterwards, and what it
/// held before; the result says whether `value` is new to it.
#[verifier::external_body]
pub(crate) fn insert(s: &mut IdSet, value: usize) -> (fresh: bool)
    requires
        value < usize::MAX,
    ensures
        members(*final(s)) == members(*old(s)).insert(value),
        fresh == !members(*old(s)).contains(value),
{
    s.bits.insert(value)
}

/// `bit_set::BitSet::contains`: whether the set holds `value`.
#[verifier::external_body]
pub(crate) fn contains(s: &IdSet, value: usize) -> (b: bool)
    ensures
        b == members(*s).contains(value),
{
    s.bits.contains(value)
}

/// `Clone::clone` of a `bit_set::BitSet`: a set that holds the same numbers.
#[verifier::external_body]
pub(crate) fn duplicate(s: &IdSet) -> (r: IdSet)
    ensures
        members(r) == members(*s),
{
    IdSet { bits: s.bits.clone() }
}

/// `bit_set::BitSet::difference_with`: the set holds afterwards what it held
/// before and `other` does not hold.
#[verifier::external_body]
pub(crate) fn difference_with(s: &mut IdSet, other: &IdSet)
    ensures
        members(*final(s)) == members(*old(s)).difference(members(*other)),
{
    s.bits.difference_with(&other.bits)
}

/// `bit_set::BitSet::iter`: the numbers that the set holds, from the
/// smallest to the largest.
#[verifier::external_body]
pub(crate) fn elements(s: &IdSet) -> (v: Vec<usize>)
    ensures
        forall|i: int, j: int| 0 <= i < j < v@.len() ==> v@[i] < v@[j],
        forall|x: usize| v@.contains(x) <==> members(*s).contains(x),
{
    s.bits.iter().collect()
}

/// A finite set of numbers below `n` holds at most `n` numbers.
pub proof fn lemma_bounded_len(s: Set<usize>, n: nat)
    requires
        s.finite(),
        forall|x: usize| s.contains(x) ==> x < n,
    ensures
        s.len() <= n,
    decreases n,
{
    if n == 0 {
        if s.len() > 0 {
            assert(s.contains(s.choose()));
        }
    } else {
        let top = (n - 1) as usize;
        if n - 1 <= usize::MAX {
            lemma_bounded_len(s.remove(top), (n - 1) as nat);
        } else {
            lemma_bounded_len(s, (n - 1) as nat);
        }
    }
}

} // verus!
