//! The comparison of the outputs of two evaluations of one node, of which
//! the first is the reference.

use vstd::prelude::*;
use crate::ops::models;
use crate::tensor::{same_extents, Tensor, TensorModel};

verus! {

/// How the outputs of two evaluations differ.
#[derive(Debug, Clone, Copy, PartialEq, Eq, Structural)]
pub enum Mismatch {
    /// The evaluations gave different numbers of outputs.
    Count { reference: usize, found: usize },
    /// The outputs at this position have different extents.
    Shape(usize),
    /// The outputs at this position hold elements that are not close enough.
    Data(usize),
}

/// How the outputs at position `i` differ, if they do. A reference without
/// axes is compared by its elements only. `close` says whether the elements
/// are close enough; where it says nothing, they are not.
pub open spec fn differs_at(
    reference: Seq<TensorModel>,
    found: Seq<TensorModel>,
    close: Seq<bool>,
    i: int,
) -> Option<Mismatch> {
    if reference[i].shape.len() != 0 && reference[i].shape != found[i].shape {
        Some(Mismatch::Shape(i as usize))
    } else if !(i < close.len() && close[i]) {
        Some(Mismatch::Data(i as usize))
    } else {
        None
    }
}

/// What the comparison gives: the difference in the numbers of outputs, or
/// the difference at the first position at which the outputs differ.
pub open spec fn compared(
    reference: Seq<TensorModel>,
    found: Seq<TensorModel>,
    close: Seq<bool>,
    r: Result<(), Mismatch>,
) -> bool {
    if reference.len() != found.len() {
        r == Err::<(), _>(
            Mismatch::Count { reference: reference.len() as usize, found: found.len() as usize },
        )
    } else {
        match r {
            Ok(()) => forall|i: int|
                0 <= i < reference.len() ==> (#[trigger] differs_at(reference, found, close, i))
                    is None,
            Err(e) => exists|i: int|
                0 <= i < reference.len() && #[trigger] differs_at(reference, found, close, i)
                    == Some(e) && forall|j: int|
                    0 <= j < i ==> (#[trigger] differs_at(reference, found, close, j)) is None,
        }
    }
}

/// Compares the outputs of two evaluations: see `compared`. Whether the
/// elements of two outputs are close enough is for the caller to say, one
/// answer for each position.
pub fn compare_outputs(reference: &[Tensor], found: &[Tensor], close: &[bool]) -> (r: Result<
    (),
    Mismatch,
>)
    ensures
        compared(models(reference@), models(found@), close@, r),
{
    if reference.len() != found.len() {
        return Err(Mismatch::Count { reference: reference.len(), found: found.len() });
    }
    let ghost a = models(reference@);
    let ghost b = models(found@);
    let mut i: usize = 0;
    while i < reference.len()
        invariant
            0 <= i <= reference@.len(),
            reference@.len() == found@.len(),
            a == models(reference@),
            b == models(found@),
            forall|j: int| 0 <= j < i ==> (#[trigger] differs_at(a, b, close@, j)) is None,
        decreases reference@.len() - i,
    {
        let shape = reference[i].shape();
        if shape.len() != 0 && !same_extents(shape, found[i].shape()) {
            assert(differs_at(a, b, close@, i as int) == Some(Mismatch::Shape(i)));
            return Err(Mismatch::Shape(i));
        }
        if !(i < close.len() && close[i]) {
            assert(differs_at(a, b, close@, i as int) == Some(Mismatch::Data(i)));
            return Err(Mismatch::Data(i));
        }
        i += 1;
    }
    Ok(())
}

} // verus!
