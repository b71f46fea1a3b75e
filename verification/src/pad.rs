//! The operator that pads a tensor with zeros along each of its axes.

use vstd::prelude::*;
use std::marker::PhantomData;
use crate::arrays::{fill_padded, fits, holdable, padded_at, unravel};
use crate::errors::Error;
use crate::ops::{attrs_model, models, Attr, BufferModel, Op, OpBuffer};
use crate::tensor::{
    in_bounds, model_with, offset, volume, Array, DataType, Datum, Tensor, TensorModel,
};

verus! {

/// The operator that pads its first input as its second input says.
#[derive(Debug)]
pub struct Pad<T> {
    pub _phantom: PhantomData<T>,
}

/// The number of elements that the paddings put before (`side` 0) or after
/// (`side` 1) the elements of the axis `axis`.
pub open spec fn padding_at(paddings: TensorModel, axis: int, side: int) -> int {
    paddings.data[offset(paddings.shape, seq![axis as usize, side as usize]) as int]
}

/// Whether the paddings say, for each of `rank` axes, how many elements
/// come before and after: a tensor of `rank` rows of two numbers, none negative.
pub open spec fn paddings_fit(paddings: TensorModel, rank: nat) -> bool {
    &&& rank <= usize::MAX
    &&& paddings.shape == seq![rank as usize, 2usize]
    &&& forall|i: int|
        0 <= i < rank ==> 0 <= #[trigger] padding_at(paddings, i, 0) && 0 <= padding_at(
            paddings,
            i,
            1,
        )
}

/// The numbers of elements that the paddings put before the axes.
pub open spec fn paddings_before(paddings: TensorModel, rank: nat) -> Seq<usize> {
    Seq::new(rank, |i: int| padding_at(paddings, i, 0) as usize)
}

/// The extent of the axis `i` of the padded tensor: the axis along which a
/// stream runs, if there is one, keeps its extent (its elements still move
/// by the padding before them).
pub open spec fn padded_extent(
    shape: Seq<usize>,
    paddings: TensorModel,
    stream: Option<usize>,
    i: int,
) -> int {
    if stream == Some(i as usize) {
        shape[i] as int
    } else {
        shape[i] + padding_at(paddings, i, 0) + padding_at(paddings, i, 1)
    }
}

/// The extents of the padded tensor.
pub open spec fn padded_shape(shape: Seq<usize>, paddings: TensorModel, stream: Option<usize>) -> Seq<
    usize,
> {
    Seq::new(shape.len(), |i: int| padded_extent(shape, paddings, stream, i) as usize)
}

/// The tensor that pads `input` with zeros as `paddings` says: each axis
/// gets the elements before and after that the paddings give for it, and the
/// elements of the input stand between them. `Shape` where the paddings do
/// not fit the input or the result is too large to be held, `Overflow` where
/// an extent of the result is no `usize`.
pub open spec fn padded(input: TensorModel, paddings: TensorModel, stream: Option<usize>) -> Result<
    TensorModel,
    Error,
> {
    let rank = input.shape.len();
    if !paddings_fit(paddings, rank) {
        Err(Error::Shape)
    } else if exists|i: int|
        0 <= i < rank && #[trigger] padded_extent(input.shape, paddings, stream, i) > usize::MAX {
        Err(Error::Overflow)
    } else {
        let shape = padded_shape(input.shape, paddings, stream);
        if !holdable(shape) {
            Err(Error::Shape)
        } else {
            Ok(
                model_with(
                    input.datatype,
                    shape,
                    Seq::new(
                        volume(shape),
                        |j: int|
                            padded_at(
                                input.shape,
                                input.data,
                                paddings_before(paddings, rank),
                                unravel(shape, j),
                            ),
                    ),
                ),
            )
        }
    }
}

/// What a step of the operator gives: the padded chunk, the axis of the
/// stream left as it is, where the first input brings a chunk along an axis
/// and the second is there and does not stream; nothing otherwise. The
/// operator keeps nothing between steps.
pub open spec fn pad_step_spec(
    datatype: DataType,
    inputs: Seq<(Option<usize>, Option<TensorModel>)>,
    buffer: BufferModel,
) -> Result<(Option<Seq<TensorModel>>, BufferModel), Error> {
    if inputs.len() != 2 {
        Err(Error::Arity)
    } else {
        match (inputs[0], inputs[1]) {
            ((Some(axis), Some(chunk)), (None, Some(paddings))) => if chunk.datatype != datatype
                || paddings.datatype != DataType::I32 {
                Err(Error::UnsupportedType)
            } else {
                match padded(chunk, paddings, Some(axis)) {
                    Ok(t) => Ok((Some(seq![t]), buffer)),
                    Err(e) => Err(e),
                }
            },
            _ => Ok((None, buffer)),
        }
    }
}

/// What the operator gives for its inputs: `Arity` where they are not two,
/// `UnsupportedType` where the first has not the operator's datatype or the
/// second does not hold 32-bit integers.
pub open spec fn pad_spec(datatype: DataType, inputs: Seq<TensorModel>) -> Result<
    Seq<TensorModel>,
    Error,
> {
    if inputs.len() != 2 {
        Err(Error::Arity)
    } else if inputs[0].datatype != datatype || inputs[1].datatype != DataType::I32 {
        Err(Error::UnsupportedType)
    } else {
        match padded(inputs[0], inputs[1], None) {
            Ok(t) => Ok(seq![t]),
            Err(e) => Err(e),
        }
    }
}

impl<T: Datum> Pad<T> {
    /// The operator.
    pub fn new() -> (r: Pad<T>)
        ensures
            r == (Pad::<T> { _phantom: PhantomData }),
    {
        Pad { _phantom: PhantomData }
    }

    /// Pads `input` as `paddings` says: see `padded`.
    pub fn compute(input: &Array<T>, paddings: &Array<i32>, stream_dim: Option<usize>) -> (r:
        Result<Array<T>, Error>)
        ensures
            match r {
                Ok(a) => padded(
                    model_with(
                        T::datatype_spec(),
                        input.extents(),
                        input.elements().map_values(|x: T| x.as_int()),
                    ),
                    model_with(
                        DataType::I32,
                        paddings.extents(),
                        paddings.elements().map_values(|x: i32| x.as_int()),
                    ),
                    stream_dim,
                ) == Ok::<_, Error>(
                    model_with(
                        T::datatype_spec(),
                        a.extents(),
                        a.elements().map_values(|x: T| x.as_int()),
                    ),
                ),
                Err(e) => padded(
                    model_with(
                        T::datatype_spec(),
                        input.extents(),
                        input.elements().map_values(|x: T| x.as_int()),
                    ),
                    model_with(
                        DataType::I32,
                        paddings.extents(),
                        paddings.elements().map_values(|x: i32| x.as_int()),
                    ),
                    stream_dim,
                ) == Err::<TensorModel, _>(e),
            },
    {
        let ghost given = model_with(
            T::datatype_spec(),
            input.extents(),
            input.elements().map_values(|x: T| x.as_int()),
        );
        let ghost pads = model_with(
            DataType::I32,
            paddings.extents(),
            paddings.elements().map_values(|x: i32| x.as_int()),
        );
        let rank = input.ndim();
        let mut wanted: Vec<usize> = Vec::new();
        wanted.push(rank);
        wanted.push(2);
        assert(wanted@ =~= seq![rank, 2usize]);
        if !crate::tensor::same_extents(paddings.shape(), wanted.as_slice()) {
            return Err(Error::Shape);
        }
        let mut before: Vec<usize> = Vec::new();
        let mut after: Vec<usize> = Vec::new();
        let mut i: usize = 0;
        while i < rank
            invariant
                0 <= i <= rank,
                rank == input.extents().len(),
                paddings.extents() == seq![rank, 2usize],
                pads == model_with(
                    DataType::I32,
                    paddings.extents(),
                    paddings.elements().map_values(|x: i32| x.as_int()),
                ),
                before@.len() == i,
                after@.len() == i,
                forall|j: int|
                    0 <= j < i ==> 0 <= #[trigger] padding_at(pads, j, 0) && 0 <= padding_at(
                        pads,
                        j,
                        1,
                    ),
                forall|j: int| 0 <= j < i ==> (#[trigger] before@[j]) == padding_at(pads, j, 0),
                forall|j: int| 0 <= j < i ==> (#[trigger] after@[j]) == padding_at(pads, j, 1),
            decreases rank - i,
        {
            let mut at: Vec<usize> = Vec::new();
            at.push(i);
            at.push(0);
            assert(at@ =~= seq![i, 0usize]);
            assert(in_bounds(paddings.extents(), at@));
            let b = paddings.get(at.as_slice());
            at.set(1, 1);
            assert(at@ =~= seq![i, 1usize]);
            assert(in_bounds(paddings.extents(), at@));
            let a = paddings.get(at.as_slice());
            match (b, a) {
                (Some(b), Some(a)) => {
                    if b < 0 || a < 0 {
                        assert(padding_at(pads, i as int, 0) < 0 || padding_at(pads, i as int, 1) < 0);
                        return Err(Error::Shape);
                    }
                    before.push(b as usize);
                    after.push(a as usize);
                },
                _ => {
                    return Err(Error::Shape);
                },
            }
            i += 1;
        }
        assert(paddings_fit(pads, rank as nat));
        assert(before@ =~= paddings_before(pads, rank as nat));
        let mut shape: Vec<usize> = Vec::new();
        let mut i: usize = 0;
        while i < rank
            invariant
                0 <= i <= rank,
                rank == input.extents().len(),
                before@.len() == rank,
                after@.len() == rank,
                given.shape == input.extents(),
                given == model_with(
                    T::datatype_spec(),
                    input.extents(),
                    input.elements().map_values(|x: T| x.as_int()),
                ),
                pads == model_with(
                    DataType::I32,
                    paddings.extents(),
                    paddings.elements().map_values(|x: i32| x.as_int()),
                ),
                paddings_fit(pads, rank as nat),
                forall|j: int| 0 <= j < rank ==> (#[trigger] before@[j]) == padding_at(pads, j, 0),
                forall|j: int| 0 <= j < rank ==> (#[trigger] after@[j]) == padding_at(pads, j, 1),
                shape@.len() == i,
                forall|j: int|
                    0 <= j < i ==> (#[trigger] shape@[j]) == padded_extent(
                        given.shape,
                        pads,
                        stream_dim,
                        j,
                    ),
            decreases rank - i,
        {
            let d = input.shape()[i];
            let streamed = match stream_dim {
                Some(s) => s == i,
                None => false,
            };
            let extent = if streamed {
                Some(d)
            } else {
                match d.checked_add(before[i]) {
                    Some(x) => x.checked_add(after[i]),
                    None => None,
                }
            };
            match extent {
                Some(e) => {
                    shape.push(e);
                },
                None => {
                    assert(before@[i as int] == padding_at(pads, i as int, 0));
                    assert(after@[i as int] == padding_at(pads, i as int, 1));
                    assert(padded_extent(given.shape, pads, stream_dim, i as int) > usize::MAX);
                    return Err(Error::Overflow);
                },
            }
            i += 1;
        }
        assert(shape@ =~= padded_shape(given.shape, pads, stream_dim));
        assert(!exists|i: int|
            0 <= i < rank && #[trigger] padded_extent(given.shape, pads, stream_dim, i)
                > usize::MAX) by {
            assert forall|i: int| 0 <= i < rank implies #[trigger] padded_extent(
                given.shape,
                pads,
                stream_dim,
                i,
            ) <= usize::MAX by {
                assert(shape@[i] == padded_extent(given.shape, pads, stream_dim, i));
            }
        }
        if !fits(shape.as_slice()) {
            return Err(Error::Shape);
        }
        let data = fill_padded(&shape, input, &before);
        let ghost extents = shape@;
        let array = match Array::from_shape_vec(shape, data) {
            Ok(a) => a,
            Err(e) => {
                return Err(e);
            },
        };
        assert(array.elements().map_values(|x: T| x.as_int()) =~= Seq::new(
            volume(extents),
            |j: int|
                padded_at(given.shape, given.data, paddings_before(pads, rank as nat), unravel(extents, j)),
        ));
        Ok(array)
    }
}

impl<T: Datum> Op for Pad<T> {
    open spec fn eval_spec(&self, inputs: Seq<TensorModel>) -> Result<Seq<TensorModel>, Error> {
        pad_spec(T::datatype_spec(), inputs)
    }

    fn eval(&self, inputs: Vec<Tensor>) -> (r: Result<Vec<Tensor>, Error>) {
        if inputs.len() != 2 {
            return Err(Error::Arity);
        }
        let input = T::tensor_to_view(&inputs[0])?;
        let paddings = <i32 as Datum>::tensor_to_view(&inputs[1])?;
        let array = Self::compute(input, paddings, None)?;
        let mut out: Vec<Tensor> = Vec::new();
        out.push(T::array_into_tensor(array));
        assert(models(out@) =~= pad_spec(T::datatype_spec(), models(inputs@)).unwrap());
        Ok(out)
    }

    open spec fn step_spec(
        &self,
        inputs: Seq<(Option<usize>, Option<TensorModel>)>,
        buffer: BufferModel,
    ) -> Result<(Option<Seq<TensorModel>>, BufferModel), Error> {
        pad_step_spec(T::datatype_spec(), inputs, buffer)
    }

    fn step(&self, inputs: Vec<(Option<usize>, Option<Tensor>)>, buffer: &mut OpBuffer) -> (r:
        Result<Option<Vec<Tensor>>, Error>) {
        if inputs.len() != 2 {
            return Err(Error::Arity);
        }
        match (&inputs[0], &inputs[1]) {
            ((Some(axis), Some(chunk)), (None, Some(paddings))) => {
                let chunk = T::tensor_to_view(chunk)?;
                let paddings = <i32 as Datum>::tensor_to_view(paddings)?;
                let array = Self::compute(chunk, paddings, Some(*axis))?;
                let mut out: Vec<Tensor> = Vec::new();
                out.push(T::array_into_tensor(array));
                assert(models(out@) =~= seq![out@[0]@]);
                Ok(Some(out))
            },
            _ => Ok(None),
        }
    }

    fn new_buffer(&self) -> (r: OpBuffer) {
        OpBuffer::Empty
    }

    open spec fn attributes(&self) -> Seq<(Seq<char>, Attr)> {
        seq![("T"@, Attr::DataType(T::datatype_spec()))]
    }

    fn get_attributes(&self) -> (r: Vec<(&'static str, Attr)>) {
        let mut r: Vec<(&'static str, Attr)> = Vec::new();
        r.push(("T", Attr::DataType(T::datatype())));
        assert(attrs_model(r@) =~= self.attributes());
        r
    }
}

} // verus!
