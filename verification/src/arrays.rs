//! Array kernels: stacking arrays along a new axis, and building an array
//! from a function of its indices.

use vstd::prelude::*;
use vstd::arithmetic::div_mod::{lemma_div_pos_is_pos, lemma_mod_bound, lemma_multiply_divide_lt};
use crate::tensor::{in_bounds, offset, volume, Array, Datum};

verus! {

/// The product of the extents that are not zero.
pub open spec fn nonzero_volume(shape: Seq<usize>) -> nat
    decreases shape.len(),
{
    if shape.len() == 0 {
        1
    } else {
        nonzero_volume(shape.drop_last()) * if shape.last() == 0 {
            1nat
        } else {
            shape.last() as nat
        }
    }
}

/// Whether arrays with these extents can be held: the product of the
/// extents that are not zero is at most `isize::MAX`.
pub open spec fn holdable(shape: Seq<usize>) -> bool {
    nonzero_volume(shape) <= isize::MAX
}

/// Whether `count` arrays with the extents `shape` can be stacked along a new axis `axis`.
pub open spec fn stackable(axis: int, shape: Seq<usize>, count: nat) -> bool {
    &&& count > 0
    &&& count <= usize::MAX
    &&& 0 <= axis <= shape.len()
    &&& holdable(shape.insert(axis, count as usize))
}

/// The elements, in row-major order, of the array that stacks `parts` along
/// a new axis `axis`: its element at `[outer.., k, inner..]` is the element
/// at `[outer.., inner..]` of the part `k`.
pub open spec fn stacked<T>(axis: int, shape: Seq<usize>, parts: Seq<Seq<T>>) -> Seq<T> {
    let count = parts.len();
    let inner = volume(shape.skip(axis)) as int;
    Seq::new(
        volume(shape.insert(axis, count as usize)),
        |j: int| parts[(j / inner) % (count as int)][(j / (count * inner)) * inner + j % inner],
    )
}

/// The views of a list of slices.
pub open spec fn slices<T>(parts: Seq<&[T]>) -> Seq<Seq<T>> {
    parts.map_values(|p: &[T]| p@)
}

/// `ndarray::stack` on views of `parts`, each with the extents `shape`: the
/// elements of the stacked array in row-major order. It gives nothing
/// exactly where there are no parts, where the axis is beyond the extents,
/// or where the stacked array is too large to be held.
#[verifier::external_body]
pub(crate) fn stack<T: Copy>(axis: usize, shape: &Vec<usize>, parts: &Vec<&[T]>) -> (r: Option<
    Vec<T>,
>)
    requires
        forall|i: int| 0 <= i < parts@.len() ==> (#[trigger] parts@[i])@.len() == volume(shape@),
    ensures
        r is Some <==> stackable(axis as int, shape@, parts@.len()),
        r matches Some(v) ==> v@ == stacked(axis as int, shape@, slices(parts@)),
{
    let views: Option<Vec<ndarray::ArrayViewD<T>>> = parts
        .iter()
        .map(|p| ndarray::ArrayViewD::from_shape(ndarray::IxDyn(shape), p).ok())
        .collect();
    let array = ndarray::stack(ndarray::Axis(axis), &views?).ok()?;
    Some(array.iter().copied().collect())
}

/// An array holds as many elements as the product of what its leading and
/// its trailing extents hold.
pub proof fn lemma_volume_concat(a: Seq<usize>, b: Seq<usize>)
    ensures
        volume(a + b) == volume(a) * volume(b),
    decreases b.len(),
{
    if b.len() == 0 {
        assert(a + b =~= a);
        assert(volume(a) * 1 == volume(a)) by (nonlinear_arith);
    } else {
        assert((a + b).drop_last() =~= a + b.drop_last());
        lemma_volume_concat(a, b.drop_last());
        let x = volume(a);
        let y = volume(b.drop_last());
        let z = b.last() as nat;
        assert((x * y) * z == x * (y * z)) by (nonlinear_arith);
    }
}

/// What an array with one more axis holds: the axis cuts the extents in
/// two, and the array holds the product of what the two parts hold and of
/// the extent of the axis.
pub proof fn lemma_volume_insert(shape: Seq<usize>, axis: int, count: usize)
    requires
        0 <= axis <= shape.len(),
    ensures
        volume(shape) == volume(shape.take(axis)) * volume(shape.skip(axis)),
        volume(shape.insert(axis, count)) == volume(shape.take(axis)) * count * volume(
            shape.skip(axis),
        ),
{
    let head = shape.take(axis);
    let tail = shape.skip(axis);
    assert(shape =~= head + tail);
    lemma_volume_concat(head, tail);
    assert(shape.insert(axis, count) =~= head.push(count) + tail);
    lemma_volume_concat(head.push(count), tail);
    assert(head.push(count).drop_last() =~= head);
}

/// The position in a stacked array names a part and a position in the part.
pub proof fn lemma_stack_bounds(j: int, outer: int, count: int, inner: int)
    requires
        0 <= j < outer * count * inner,
        0 < count,
        0 <= inner,
        0 <= outer,
    ensures
        0 < inner,
        0 <= (j / inner) % count < count,
        0 <= (j / (count * inner)) * inner + j % inner < outer * inner,
{
    assert(inner != 0) by (nonlinear_arith)
        requires
            0 <= j < outer * count * inner,
    ;
    lemma_mod_bound(j / inner, count);
    lemma_mod_bound(j, inner);
    let step = count * inner;
    assert(step > 0) by (nonlinear_arith)
        requires
            step == count * inner,
            count > 0,
            inner > 0,
    ;
    assert(j < step * outer) by (nonlinear_arith)
        requires
            j < outer * count * inner,
            step == count * inner,
    ;
    lemma_multiply_divide_lt(j, step, outer);
    lemma_div_pos_is_pos(j, step);
    let a = j / step;
    let b = j % inner;
    assert(0 <= a * inner + b < outer * inner) by (nonlinear_arith)
        requires
            0 <= a < outer,
            0 <= b < inner,
    ;
}

/// A prefix of the extents has no larger a product of the extents that are not zero.
pub proof fn lemma_nonzero_prefix(shape: Seq<usize>, i: int)
    requires
        0 <= i <= shape.len(),
    ensures
        1 <= nonzero_volume(shape.take(i)) <= nonzero_volume(shape),
    decreases shape.len(),
{
    if i == shape.len() {
        assert(shape.take(i) =~= shape);
        if shape.len() > 0 {
            lemma_nonzero_prefix(shape.drop_last(), i - 1);
            assert(shape.drop_last().take(i - 1) =~= shape.drop_last());
            let x = nonzero_volume(shape.drop_last());
            let d = if shape.last() == 0 {
                1nat
            } else {
                shape.last() as nat
            };
            assert(x * d >= 1) by (nonlinear_arith)
                requires
                    x >= 1,
                    d >= 1,
            ;
        }
    } else {
        lemma_nonzero_prefix(shape.drop_last(), i);
        assert(shape.drop_last().take(i) =~= shape.take(i));
        let x = nonzero_volume(shape.drop_last());
        let d = if shape.last() == 0 {
            1nat
        } else {
            shape.last() as nat
        };
        assert(x * d >= x) by (nonlinear_arith)
            requires
                d >= 1,
        ;
    }
}

/// Whether arrays with these extents can be held.
pub fn fits(shape: &[usize]) -> (r: bool)
    ensures
        r == holdable(shape@),
{
    let n = shape.len();
    let mut acc: usize = 1;
    let mut i: usize = 0;
    assert(shape@.take(0) =~= Seq::<usize>::empty());
    while i < n
        invariant
            n == shape@.len(),
            0 <= i <= n,
            acc == nonzero_volume(shape@.take(i as int)),
        decreases n - i,
    {
        proof {
            assert(shape@.take(i + 1).drop_last() =~= shape@.take(i as int));
            lemma_nonzero_prefix(shape@, i + 1);
        }
        let d = if shape[i] == 0 {
            1
        } else {
            shape[i]
        };
        match acc.checked_mul(d) {
            Some(next) => {
                acc = next;
            },
            None => {
                return false;
            },
        }
        i += 1;
    }
    assert(shape@.take(n as int) =~= shape@);
    acc <= isize::MAX as usize
}

/// The index of the element at position `j` of the row-major order of an
/// array with these extents.
pub open spec fn unravel(shape: Seq<usize>, j: int) -> Seq<usize>
    decreases shape.len(),
{
    if shape.len() == 0 {
        Seq::empty()
    } else {
        unravel(shape.drop_last(), j / (shape.last() as int)).push(
            (j % (shape.last() as int)) as usize,
        )
    }
}

/// The index in the input of the element that stands at `index` of an array
/// that pads the input with `before[i]` elements at the start of each axis
/// `i`; none where `index` lies in the padding.
pub open spec fn unpadded(shape: Seq<usize>, before: Seq<usize>, index: Seq<usize>) -> Option<
    Seq<usize>,
> {
    if index.len() == shape.len() && before.len() == shape.len() && forall|i: int|
        0 <= i < shape.len() ==> before[i] <= (#[trigger] index[i]) < before[i] + shape[i] {
        Some(Seq::new(shape.len(), |i: int| (index[i] - before[i]) as usize))
    } else {
        None
    }
}

/// The element at `index` of the padded array: the element of the input
/// that stands there, or zero in the padding.
pub open spec fn padded_at(
    shape: Seq<usize>,
    data: Seq<int>,
    before: Seq<usize>,
    index: Seq<usize>,
) -> int {
    match unpadded(shape, before, index) {
        Some(source) => data[offset(shape, source) as int],
        None => 0,
    }
}

/// The element at `index` of the array that pads `input`: see `padded_at`.
pub fn pad_element<T: Datum>(input: &Array<T>, before: &Vec<usize>, index: &[usize]) -> (r: T)
    ensures
        r.as_int() == padded_at(
            input.extents(),
            input.elements().map_values(|x: T| x.as_int()),
            before@,
            index@,
        ),
{
    let shape = input.shape();
    let n = shape.len();
    if index.len() != n || before.len() != n {
        return T::zero();
    }
    let mut source: Vec<usize> = Vec::new();
    let mut i: usize = 0;
    while i < n
        invariant
            0 <= i <= n,
            n == shape@.len(),
            n == index@.len(),
            n == before@.len(),
            shape@ == input.extents(),
            source@.len() == i,
            forall|j: int|
                0 <= j < i ==> before@[j] <= (#[trigger] index@[j]) < before@[j] + shape@[j],
            forall|j: int| 0 <= j < i ==> (#[trigger] source@[j]) == index@[j] - before@[j],
        decreases n - i,
    {
        if index[i] < before[i] || index[i] - before[i] >= shape[i] {
            return T::zero();
        }
        source.push(index[i] - before[i]);
        i += 1;
    }
    assert(source@ =~= unpadded(shape@, before@, index@).unwrap());
    assert(in_bounds(shape@, source@));
    match input.get(source.as_slice()) {
        Some(v) => v,
        None => T::zero(),
    }
}

/// `ndarray::ArrayD::from_shape_fn` with `pad_element` as the function: the
/// elements, in row-major order, of the array with the extents `shape`
/// whose element at each index is what `pad_element` gives for that index.
#[verifier::external_body]
pub(crate) fn fill_padded<T: Datum>(shape: &Vec<usize>, input: &Array<T>, before: &Vec<usize>) -> (r:
    Vec<T>)
    requires
        holdable(shape@),
    ensures
        r@.len() == volume(shape@),
        forall|j: int|
            0 <= j < r@.len() ==> (#[trigger] r@[j]).as_int() == padded_at(
                input.extents(),
                input.elements().map_values(|x: T| x.as_int()),
                before@,
                unravel(shape@, j),
            ),
{
    ndarray::ArrayD::from_shape_fn(
        ndarray::IxDyn(shape),
        |ix| pad_element(input, before, ndarray::Dimension::slice(&ix)),
    ).iter().copied().collect()
}

} // verus!
