//! The operator that packs its inputs, which have one shape, into one tensor
//! with one more axis.

use vstd::prelude::*;
use std::marker::PhantomData;
use crate::arrays::{lemma_stack_bounds, lemma_volume_insert, slices, stack, stackable, stacked};
use crate::errors::Error;
use crate::ops::{attrs_model, models, Attr, Op, OpBuffer};
use crate::tensor::{model_with, volume, Array, DataType, Datum, Tensor, TensorModel};

verus! {

/// The operator that packs `n` inputs along a new axis `axis`.
#[derive(Debug)]
pub struct Pack<T> {
    pub n: usize,
    pub axis: usize,
    pub _phantom: PhantomData<T>,
}

/// The elements of the tensors of a list.
pub open spec fn datas(inputs: Seq<TensorModel>) -> Seq<Seq<int>> {
    inputs.map_values(|t: TensorModel| t.data)
}

/// What packing tensors of the datatype `datatype` along a new axis gives:
/// one tensor, whose extents are those of the inputs with their number put
/// in at `axis`. `Arity` where there is no input, `UnsupportedType` where an
/// input has another datatype, `Shape` where the inputs differ in their
/// extents, the axis is beyond them, or the result is too large.
pub open spec fn pack_spec(datatype: DataType, axis: usize, inputs: Seq<TensorModel>) -> Result<
    Seq<TensorModel>,
    Error,
> {
    if inputs.len() == 0 {
        Err(Error::Arity)
    } else if exists|i: int| 0 <= i < inputs.len() && (#[trigger] inputs[i]).datatype != datatype {
        Err(Error::UnsupportedType)
    } else if exists|i: int| 0 <= i < inputs.len() && (#[trigger] inputs[i]).shape != inputs[0].shape {
        Err(Error::Shape)
    } else if !stackable(axis as int, inputs[0].shape, inputs.len()) {
        Err(Error::Shape)
    } else {
        Ok(
            seq![
                model_with(
                    datatype,
                    inputs[0].shape.insert(axis as int, inputs.len() as usize),
                    stacked(axis as int, inputs[0].shape, datas(inputs)),
                ),
            ],
        )
    }
}

/// The extents of tensors that were packed are the extents of each of them,
/// with their number put in at the axis.
pub proof fn lemma_pack_shape(datatype: DataType, axis: usize, inputs: Seq<TensorModel>)
    requires
        pack_spec(datatype, axis, inputs) is Ok,
    ensures
        pack_spec(datatype, axis, inputs).unwrap().len() == 1,
        pack_spec(datatype, axis, inputs).unwrap()[0].shape == inputs[0].shape.insert(
            axis as int,
            inputs.len() as usize,
        ),
{
}

impl<T: Datum> Pack<T> {
    /// The operator that packs `n` inputs along a new axis `axis`.
    pub fn new(n: usize, axis: usize) -> (r: Pack<T>)
        ensures
            r.n == n,
            r.axis == axis,
    {
        Pack { n, axis, _phantom: PhantomData }
    }
}

impl<T: Datum> Op for Pack<T> {
    open spec fn eval_spec(&self, inputs: Seq<TensorModel>) -> Result<Seq<TensorModel>, Error> {
        pack_spec(T::datatype_spec(), self.axis, inputs)
    }

    fn eval(&self, inputs: Vec<Tensor>) -> (r: Result<Vec<Tensor>, Error>) {
        let ghost given = models(inputs@);
        let k = inputs.len();
        if k == 0 {
            return Err(Error::Arity);
        }
        let mut arrays: Vec<&Array<T>> = Vec::new();
        let mut i: usize = 0;
        while i < k
            invariant
                0 <= i <= k,
                k == inputs@.len(),
                given == models(inputs@),
                arrays@.len() == i,
                forall|j: int|
                    0 <= j < i ==> given[j] == model_with(
                        T::datatype_spec(),
                        (#[trigger] arrays@[j]).extents(),
                        arrays@[j].elements().map_values(|x: T| x.as_int()),
                    ),
            decreases k - i,
        {
            match T::tensor_to_view(&inputs[i]) {
                Ok(a) => {
                    arrays.push(a);
                },
                Err(e) => {
                    assert(given[i as int].datatype != T::datatype_spec());
                    return Err(e);
                },
            }
            i += 1;
        }
        assert(!exists|i: int|
            0 <= i < given.len() && (#[trigger] given[i]).datatype != T::datatype_spec()) by {
            assert forall|i: int| 0 <= i < given.len() implies (#[trigger] given[i]).datatype
                == T::datatype_spec() by {
                assert(given[i] == model_with(
                    T::datatype_spec(),
                    arrays@[i].extents(),
                    arrays@[i].elements().map_values(|x: T| x.as_int()),
                ));
            }
        }
        let shape = crate::tensor::copy_of(arrays[0].shape());
        let mut parts: Vec<&[T]> = Vec::new();
        let mut i: usize = 0;
        while i < k
            invariant
                0 <= i <= k,
                k == arrays@.len(),
                k == given.len(),
                parts@.len() == i,
                shape@ == given[0].shape,
                given == models(inputs@),
                !exists|i: int|
                    0 <= i < given.len() && (#[trigger] given[i]).datatype != T::datatype_spec(),
                forall|j: int|
                    0 <= j < k ==> given[j] == model_with(
                        T::datatype_spec(),
                        (#[trigger] arrays@[j]).extents(),
                        arrays@[j].elements().map_values(|x: T| x.as_int()),
                    ),
                forall|j: int| 0 <= j < i ==> given[j].shape == shape@,
                forall|j: int|
                    0 <= j < i ==> (#[trigger] parts@[j])@ == arrays@[j].elements()
                        && parts@[j]@.len() == volume(shape@),
            decreases k - i,
        {
            if !crate::tensor::same_extents(arrays[i].shape(), shape.as_slice()) {
                assert(given[i as int].shape != given[0].shape);
                return Err(Error::Shape);
            }
            let len = arrays[i].len();
            parts.push(arrays[i].as_slice());
            assert(parts@[i as int]@.len() == len);
            i += 1;
        }
        assert(!exists|i: int| 0 <= i < given.len() && (#[trigger] given[i]).shape != given[0].shape);
        let data = match stack(self.axis, &shape, &parts) {
            Some(v) => v,
            None => {
                return Err(Error::Shape);
            },
        };
        let mut extents = shape;
        extents.insert(self.axis, k);
        proof {
            let base = given[0].shape;
            let got = stacked(self.axis as int, base, slices(parts@));
            let want = stacked(self.axis as int, base, datas(given));
            let inner = volume(base.skip(self.axis as int)) as int;
            let outer = volume(base.take(self.axis as int)) as int;
            lemma_volume_insert(base, self.axis as int, k);
            assert forall|j: int| 0 <= j < got.len() implies got.map_values(|x: T| x.as_int())[j]
                == want[j] by {
                lemma_stack_bounds(j, outer, k as int, inner);
                let p = (j / inner) % (k as int);
                let q = (j / (k * inner)) * inner + j % inner;
                assert(slices(parts@)[p] == arrays@[p].elements());
                assert(given[p] == model_with(
                    T::datatype_spec(),
                    arrays@[p].extents(),
                    arrays@[p].elements().map_values(|x: T| x.as_int()),
                ));
                assert(arrays@[p].elements().len() == outer * inner);
                assert(datas(given)[p][q] == arrays@[p].elements()[q].as_int());
            }
            assert(got.map_values(|x: T| x.as_int()) =~= want);
        }
        let array = match Array::from_shape_vec(extents, data) {
            Ok(a) => a,
            Err(e) => {
                return Err(e);
            },
        };
        let mut out: Vec<Tensor> = Vec::new();
        out.push(T::array_into_tensor(array));
        assert(models(out@) =~= pack_spec(T::datatype_spec(), self.axis, given).unwrap());
        Ok(out)
    }

    fn step(&self, inputs: Vec<(Option<usize>, Option<Tensor>)>, buffer: &mut OpBuffer) -> (r:
        Result<Option<Vec<Tensor>>, Error>) {
        Err(Error::NoStreaming)
    }

    fn new_buffer(&self) -> (r: OpBuffer) {
        OpBuffer::Empty
    }

    open spec fn attributes(&self) -> Seq<(Seq<char>, Attr)> {
        seq![
            ("T"@, Attr::DataType(T::datatype_spec())),
            ("n"@, Attr::Usize(self.n)),
            ("axis"@, Attr::Usize(self.axis)),
        ]
    }

    fn get_attributes(&self) -> (r: Vec<(&'static str, Attr)>) {
        let mut r: Vec<(&'static str, Attr)> = Vec::new();
        r.push(("T", Attr::DataType(T::datatype())));
        r.push(("n", Attr::Usize(self.n)));
        r.push(("axis", Attr::Usize(self.axis)));
        assert(attrs_model(r@) =~= self.attributes());
        r
    }
}

} // verus!
