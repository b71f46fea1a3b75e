//! Paths: the addresses of the facts in a context.
//!
//! A path is a list of small integers. The first picks the inputs (0) or the
//! outputs (1). The second is -1 for the number of facts, or the index of a
//! tensor fact. The third picks a part of that fact: 0 its datatype, 1 its
//! rank, 2 its shape (followed by the index of a dimension for one
//! dimension), 3 its value (followed by indices for one element).

use vstd::prelude::*;
use vstd::slice::slice_subrange;
use crate::context::{facts_model, Context, ContextModel};
use crate::errors::Error;
use crate::expressions::{Output, Wrapped, WrappedModel};
use crate::facts::{
    meet_shape, meet_type, meet_value, DimFact, IntFact, ShapeFact, ShapeModel, TensorFact,
    TensorFactModel, TypeFact, ValueFact, ValueModel,
};
use crate::tensor::{in_bounds, offset, DataType, Tensor};

verus! {

/// The address of a fact in a context.
#[derive(Debug, PartialEq, Eq)]
pub struct Path(pub Vec<isize>);

impl View for Path {
    type V = Seq<isize>;

    open spec fn view(&self) -> Seq<isize> {
        self.0@
    }
}

impl Path {
    /// The path with these components.
    pub fn from(v: Vec<isize>) -> (r: Path)
        ensures
            r@ == v@,
    {
        Path(v)
    }

    /// The components of the path.
    pub fn as_slice(&self) -> (r: &[isize])
        ensures
            r@ == self@,
    {
        self.0.as_slice()
    }

    /// A copy of the path.
    pub fn duplicate(&self) -> (r: Path)
        ensures
            r@ == self@,
    {
        Path(crate::tensor::copy_of(self.0.as_slice()))
    }
}

impl Clone for Path {
    fn clone(&self) -> (r: Path)
        ensures
            r@ == self@,
    {
        self.duplicate()
    }
}

/// `num_traits::ToPrimitive::to_usize` on an `i64`: the same number as a
/// `usize` where it is not negative and fits, and `None` otherwise.
#[verifier::external_body]
fn to_usize(value: i64) -> (r: Option<usize>)
    ensures
        r == if 0 <= value <= usize::MAX {
            Some(value as usize)
        } else {
            None::<usize>
        },
{
    num_traits::ToPrimitive::to_usize(&value)
}

/// The components of a path as indices, where none of them is negative.
pub open spec fn indices_of(path: Seq<isize>) -> Option<Seq<usize>> {
    if forall|i: int| 0 <= i < path.len() ==> path[i] >= 0 {
        Some(path.map_values(|k: isize| k as usize))
    } else {
        None
    }
}

/// A number of facts or of dimensions as an integer fact.
pub open spec fn int_of_len(n: nat) -> Result<WrappedModel, Error> {
    if n <= i64::MAX {
        Ok(WrappedModel::Int(IntFact::Only(n as i64)))
    } else {
        Err(Error::Overflow)
    }
}

/// What is read at `path` in a value fact: the fact itself for the empty
/// path and for `[-1]`, and the element at the indices of the path otherwise.
pub open spec fn get_value_at(value: ValueModel, path: Seq<isize>) -> Result<WrappedModel, Error> {
    if path.len() == 0 || path == seq![-1isize] {
        Ok(WrappedModel::Value(value))
    } else {
        match indices_of(path) {
            None => Err(Error::InvalidPath),
            Some(index) => match value {
                ValueModel::Any => Ok(WrappedModel::Int(IntFact::Any)),
                ValueModel::Only(t) => if t.datatype == DataType::I32 || t.datatype == DataType::I8
                    || t.datatype == DataType::U8 {
                    if in_bounds(t.shape, index) {
                        Ok(
                            WrappedModel::Int(
                                IntFact::Only(t.data[offset(t.shape, index) as int] as i64),
                            ),
                        )
                    } else {
                        Err(Error::OutOfBounds)
                    }
                } else {
                    Err(Error::UnsupportedType)
                },
            },
        }
    }
}

/// What is read at `path` in a shape fact: the fact itself for the empty
/// path, and one dimension for a path of one index. A dimension that an open
/// shape does not list is unknown.
pub open spec fn get_shape_at(shape: ShapeModel, path: Seq<isize>) -> Result<WrappedModel, Error> {
    if path.len() == 0 {
        Ok(WrappedModel::Shape(shape))
    } else if path.len() == 1 {
        if path[0] < 0 {
            Err(Error::InvalidPath)
        } else if path[0] < shape.dims.len() {
            Ok(WrappedModel::Dim(shape.dims[path[0] as int]))
        } else if shape.open {
            Ok(WrappedModel::Dim(DimFact::Any))
        } else {
            Err(Error::OutOfBounds)
        }
    } else {
        Err(Error::InvalidPath)
    }
}

/// What is read at `path` in a tensor fact.
pub open spec fn get_fact_at(fact: TensorFactModel, path: Seq<isize>) -> Result<
    WrappedModel,
    Error,
> {
    if path.len() == 0 {
        Err(Error::InvalidPath)
    } else if path == seq![0isize] {
        Ok(WrappedModel::Type(fact.datatype))
    } else if path == seq![1isize] {
        if fact.shape.open {
            Ok(WrappedModel::Int(IntFact::Any))
        } else {
            int_of_len(fact.shape.dims.len())
        }
    } else if path[0] == 2 {
        get_shape_at(fact.shape, path.skip(1))
    } else if path[0] == 3 {
        get_value_at(fact.value, path.skip(1))
    } else {
        Err(Error::InvalidPath)
    }
}

/// What is read at `path` in a list of tensor facts.
pub open spec fn get_facts_at(facts: Seq<TensorFactModel>, path: Seq<isize>) -> Result<
    WrappedModel,
    Error,
> {
    if path.len() == 0 {
        Err(Error::InvalidPath)
    } else if path == seq![-1isize] {
        int_of_len(facts.len())
    } else if path[0] >= 0 {
        if path[0] < facts.len() {
            get_fact_at(facts[path[0] as int], path.skip(1))
        } else {
            Err(Error::OutOfBounds)
        }
    } else {
        Err(Error::InvalidPath)
    }
}

/// What is read at `path` in a context.
pub open spec fn get_at(context: ContextModel, path: Seq<isize>) -> Result<WrappedModel, Error> {
    if path.len() == 0 {
        Err(Error::InvalidPath)
    } else if path[0] == 0 {
        get_facts_at(context.inputs, path.skip(1))
    } else if path[0] == 1 {
        get_facts_at(context.outputs, path.skip(1))
    } else {
        Err(Error::InvalidPath)
    }
}

/// A shape of `rank` dimensions of which none is known.
pub open spec fn unknown_dims(rank: nat, open: bool) -> ShapeModel {
    ShapeModel { open, dims: Seq::new(rank, |i: int| DimFact::Any) }
}

/// The open shape whose dimension `k` is `dim` and that says nothing of the
/// dimensions before it.
pub open spec fn shape_with_dim(k: nat, dim: DimFact) -> ShapeModel {
    ShapeModel { open: true, dims: Seq::new(k, |i: int| DimFact::Any).push(dim) }
}

/// A tensor fact after `value` was unified into its value, and the value,
/// where it is then known, into its shape and its datatype.
pub open spec fn set_value_of(fact: TensorFactModel, value: ValueModel) -> Result<
    TensorFactModel,
    Error,
> {
    match meet_value(fact.value, value) {
        None => Err(Error::Incompatibility),
        Some(ValueModel::Any) => Ok(fact),
        Some(ValueModel::Only(t)) => match (
            meet_shape(fact.shape, crate::facts::shape_of_extents(t.shape)),
            meet_type(fact.datatype, TypeFact::Only(t.datatype)),
        ) {
            (Some(shape), Some(datatype)) => Ok(
                TensorFactModel { datatype, shape, value: ValueModel::Only(t) },
            ),
            _ => Err(Error::Incompatibility),
        },
    }
}

/// A tensor fact after `value` was unified into the part of it at `path`.
pub open spec fn set_fact_at(fact: TensorFactModel, path: Seq<isize>, value: WrappedModel) -> Result<
    TensorFactModel,
    Error,
> {
    if path.len() == 0 {
        Err(Error::InvalidPath)
    } else if path == seq![0isize] {
        match value {
            WrappedModel::Type(t) => match meet_type(t, fact.datatype) {
                Some(datatype) => Ok(TensorFactModel { datatype, ..fact }),
                None => Err(Error::Incompatibility),
            },
            _ => Err(Error::WrongKind),
        }
    } else if path == seq![1isize] {
        match value {
            WrappedModel::Int(IntFact::Any) => Ok(fact),
            WrappedModel::Int(IntFact::Only(k)) => if k < 0 {
                Err(Error::Incompatibility)
            } else if k > usize::MAX {
                Err(Error::Overflow)
            } else {
                match meet_shape(fact.shape, unknown_dims(k as nat, false)) {
                    Some(shape) => Ok(TensorFactModel { shape, ..fact }),
                    None => Err(Error::Incompatibility),
                }
            },
            _ => Err(Error::WrongKind),
        }
    } else if path == seq![2isize] {
        match value {
            WrappedModel::Shape(s) => match meet_shape(s, fact.shape) {
                Some(shape) => Ok(TensorFactModel { shape, ..fact }),
                None => Err(Error::Incompatibility),
            },
            _ => Err(Error::WrongKind),
        }
    } else if path[0] == 2 && path.len() == 2 {
        if path[1] < 0 {
            Err(Error::InvalidPath)
        } else {
            match value {
                WrappedModel::Dim(d) => match meet_shape(
                    fact.shape,
                    shape_with_dim(path[1] as nat, d),
                ) {
                    Some(shape) => Ok(TensorFactModel { shape, ..fact }),
                    None => Err(Error::Incompatibility),
                },
                _ => Err(Error::WrongKind),
            }
        }
    } else if path == seq![3isize] {
        match value {
            WrappedModel::Value(v) => set_value_of(fact, v),
            _ => Err(Error::WrongKind),
        }
    } else if path[0] == 3 {
        Ok(fact)
    } else {
        Err(Error::InvalidPath)
    }
}

/// A list of tensor facts after `value` was unified into the part of it at
/// `path`. The number of facts is only ever compared, never changed.
pub open spec fn set_facts_at(facts: Seq<TensorFactModel>, path: Seq<isize>, value: WrappedModel) -> Result<
    Seq<TensorFactModel>,
    Error,
> {
    if path.len() == 0 {
        Err(Error::InvalidPath)
    } else if path == seq![-1isize] {
        match value {
            WrappedModel::Int(IntFact::Any) => Ok(facts),
            WrappedModel::Int(IntFact::Only(n)) => if n == facts.len() {
                Ok(facts)
            } else {
                Err(Error::Incompatibility)
            },
            _ => Err(Error::WrongKind),
        }
    } else if path[0] >= 0 {
        if path[0] < facts.len() {
            match set_fact_at(facts[path[0] as int], path.skip(1), value) {
                Ok(f) => Ok(facts.update(path[0] as int, f)),
                Err(e) => Err(e),
            }
        } else {
            Err(Error::OutOfBounds)
        }
    } else {
        Err(Error::InvalidPath)
    }
}

/// A context after `value` was unified into the part of it at `path`.
pub open spec fn set_at(context: ContextModel, path: Seq<isize>, value: WrappedModel) -> Result<
    ContextModel,
    Error,
> {
    if path.len() == 0 {
        Err(Error::InvalidPath)
    } else if path[0] == 0 {
        match set_facts_at(context.inputs, path.skip(1), value) {
            Ok(inputs) => Ok(ContextModel { inputs, ..context }),
            Err(e) => Err(e),
        }
    } else if path[0] == 1 {
        match set_facts_at(context.outputs, path.skip(1), value) {
            Ok(outputs) => Ok(ContextModel { outputs, ..context }),
            Err(e) => Err(e),
        }
    } else {
        Err(Error::InvalidPath)
    }
}

/// Whether a read returned what the model of the read says.
pub open spec fn read_as(r: Result<Wrapped, Error>, want: Result<WrappedModel, Error>) -> bool {
    match r {
        Ok(w) => want == Ok::<_, Error>(w@),
        Err(e) => want == Err::<WrappedModel, _>(e),
    }
}

/// The fact at `path` in a context.
pub fn get_path(context: &Context, path: &[isize]) -> (r: Result<Wrapped, Error>)
    ensures
        read_as(r, get_at(context@, path@)),
{
    if path.len() == 0 {
        return Err(Error::InvalidPath);
    }
    let rest = slice_subrange(path, 1, path.len());
    assert(rest@ == path@.skip(1));
    if path[0] == 0 {
        get_tensorfacts_path(&context.inputs, rest)
    } else if path[0] == 1 {
        get_tensorfacts_path(&context.outputs, rest)
    } else {
        Err(Error::InvalidPath)
    }
}

/// A number of facts or of dimensions as an integer fact.
fn wrap_len(n: usize) -> (r: Result<Wrapped, Error>)
    ensures
        read_as(r, int_of_len(n as nat)),
{
    if n as u64 <= i64::MAX as u64 {
        Ok(Wrapped::Int(IntFact::Only(n as i64)))
    } else {
        Err(Error::Overflow)
    }
}

/// The fact at `path` in a list of tensor facts.
fn get_tensorfacts_path(facts: &Vec<TensorFact>, path: &[isize]) -> (r: Result<Wrapped, Error>)
    ensures
        read_as(r, get_facts_at(facts_model(facts@), path@)),
{
    if path.len() == 0 {
        return Err(Error::InvalidPath);
    }
    if path.len() == 1 && path[0] == -1 {
        assert(path@ =~= seq![-1isize]);
        return wrap_len(facts.len());
    }
    assert(path@ != seq![-1isize]) by {
        if path@ == seq![-1isize] {
            assert(seq![-1isize].len() == 1);
            assert(seq![-1isize][0] == -1);
        }
    }
    match to_usize(path[0] as i64) {
        Some(k) => {
            if k < facts.len() {
                let rest = slice_subrange(path, 1, path.len());
                assert(rest@ == path@.skip(1));
                get_tensorfact_path(&facts[k], rest)
            } else {
                Err(Error::OutOfBounds)
            }
        },
        None => Err(Error::InvalidPath),
    }
}

/// The fact at `path` in a tensor fact.
fn get_tensorfact_path(fact: &TensorFact, path: &[isize]) -> (r: Result<Wrapped, Error>)
    ensures
        read_as(r, get_fact_at(fact@, path@)),
{
    if path.len() == 0 {
        return Err(Error::InvalidPath);
    }
    proof {
        lemma_singleton(path@, 0);
        lemma_singleton(path@, 1);
    }
    if path.len() == 1 && path[0] == 0 {
        Ok(fact.datatype.wrap())
    } else if path.len() == 1 && path[0] == 1 {
        if fact.shape.open {
            Ok(IntFact::Any.wrap())
        } else {
            wrap_len(fact.shape.dims.len())
        }
    } else if path[0] == 2 {
        let rest = slice_subrange(path, 1, path.len());
        assert(rest@ == path@.skip(1));
        get_shape_path(&fact.shape, rest)
    } else if path[0] == 3 {
        let rest = slice_subrange(path, 1, path.len());
        assert(rest@ == path@.skip(1));
        get_value_path(&fact.value, rest)
    } else {
        Err(Error::InvalidPath)
    }
}

/// A path is the path of one component `k` exactly when it has one component and that is `k`.
pub proof fn lemma_singleton(path: Seq<isize>, k: isize)
    ensures
        (path == seq![k]) <==> (path.len() == 1 && path[0] == k),
{
    if path.len() == 1 && path[0] == k {
        assert(path =~= seq![k]);
    }
    if path == seq![k] {
        assert(seq![k].len() == 1);
        assert(seq![k][0] == k);
    }
}

/// The shape or the dimension at `path` in a shape fact.
fn get_shape_path(shape: &ShapeFact, path: &[isize]) -> (r: Result<Wrapped, Error>)
    ensures
        read_as(r, get_shape_at(shape@, path@)),
{
    if path.len() == 0 {
        Ok(shape.duplicate().wrap())
    } else if path.len() == 1 {
        match to_usize(path[0] as i64) {
            None => Err(Error::InvalidPath),
            Some(k) => {
                if k < shape.dims.len() {
                    Ok(shape.dims[k].wrap())
                } else if shape.open {
                    Ok(DimFact::Any.wrap())
                } else {
                    Err(Error::OutOfBounds)
                }
            },
        }
    } else {
        Err(Error::InvalidPath)
    }
}

/// The components of a path as indices, where none of them is negative.
fn path_indices(path: &[isize]) -> (r: Option<Vec<usize>>)
    ensures
        match r {
            Some(v) => indices_of(path@) == Some(v@),
            None => indices_of(path@) is None,
        },
{
    let mut out: Vec<usize> = Vec::new();
    let mut i: usize = 0;
    while i < path.len()
        invariant
            0 <= i <= path@.len(),
            out@.len() == i,
            forall|j: int| 0 <= j < i ==> path@[j] >= 0,
            forall|j: int| 0 <= j < i ==> out@[j] == path@[j] as usize,
        decreases path@.len() - i,
    {
        let component: i64 = path[i] as i64;
        assert(component == path@[i as int]);
        match to_usize(component) {
            Some(k) => {
                assert(k == path@[i as int] as usize);
                out.push(k);
            },
            None => {
                return None;
            },
        }
        i += 1;
    }
    assert(out@ =~= path@.map_values(|k: isize| k as usize));
    Some(out)
}

/// The element of an integer tensor at `index`, as an integer fact.
fn element_at(tensor: &Tensor, index: &[usize]) -> (r: Result<Wrapped, Error>)
    ensures
        read_as(
            r,
            if tensor@.datatype == DataType::I32 || tensor@.datatype == DataType::I8
                || tensor@.datatype == DataType::U8 {
                if in_bounds(tensor@.shape, index@) {
                    Ok(
                        WrappedModel::Int(
                            IntFact::Only(
                                tensor@.data[offset(tensor@.shape, index@) as int] as i64,
                            ),
                        ),
                    )
                } else {
                    Err(Error::OutOfBounds)
                }
            } else {
                Err(Error::UnsupportedType)
            },
        ),
{
    match tensor {
        Tensor::I32(array) => match array.get(index) {
            Some(v) => {
                Ok(Wrapped::Int(IntFact::Only(v as i64)))
            },
            None => Err(Error::OutOfBounds),
        },
        Tensor::I8(array) => match array.get(index) {
            Some(v) => {
                Ok(Wrapped::Int(IntFact::Only(v as i64)))
            },
            None => Err(Error::OutOfBounds),
        },
        Tensor::U8(array) => match array.get(index) {
            Some(v) => {
                Ok(Wrapped::Int(IntFact::Only(v as i64)))
            },
            None => Err(Error::OutOfBounds),
        },
        _ => Err(Error::UnsupportedType),
    }
}

/// The value or the element at `path` in a value fact.
fn get_value_path(value: &ValueFact, path: &[isize]) -> (r: Result<Wrapped, Error>)
    ensures
        read_as(r, get_value_at(value@, path@)),
{
    proof {
        lemma_singleton(path@, -1isize);
    }
    if path.len() == 0 || (path.len() == 1 && path[0] == -1) {
        return Ok(value.duplicate().wrap());
    }
    match path_indices(path) {
        None => Err(Error::InvalidPath),
        Some(index) => match value.concretize() {
            None => Ok(IntFact::Any.wrap()),
            Some(tensor) => element_at(tensor, index.as_slice()),
        },
    }
}

/// Whether a write did what the model of the write says: on success the
/// state after it is the one that the model gives, and on failure the error is
/// the one that the model gives and the state is as it was.
pub open spec fn wrote<M>(r: Result<(), Error>, before: M, after: M, want: Result<M, Error>) -> bool {
    match r {
        Ok(()) => want == Ok::<_, Error>(after),
        Err(e) => want == Err::<M, _>(e) && after == before,
    }
}

/// Unifies `value` into the fact at `path` in a context.
pub fn set_path(context: &mut Context, path: &[isize], value: Wrapped) -> (r: Result<(), Error>)
    ensures
        wrote(r, old(context)@, final(context)@, set_at(old(context)@, path@, value@)),
{
    if path.len() == 0 {
        return Err(Error::InvalidPath);
    }
    let rest = slice_subrange(path, 1, path.len());
    assert(rest@ == path@.skip(1));
    if path[0] == 0 {
        set_tensorfacts_path(&mut context.inputs, rest, value)
    } else if path[0] == 1 {
        set_tensorfacts_path(&mut context.outputs, rest, value)
    } else {
        Err(Error::InvalidPath)
    }
}

/// Unifies `value` into the fact at `path` in a list of tensor facts.
fn set_tensorfacts_path(facts: &mut Vec<TensorFact>, path: &[isize], value: Wrapped) -> (r: Result<
    (),
    Error,
>)
    ensures
        wrote(
            r,
            facts_model(old(facts)@),
            facts_model(final(facts)@),
            set_facts_at(facts_model(old(facts)@), path@, value@),
        ),
{
    if path.len() == 0 {
        return Err(Error::InvalidPath);
    }
    proof {
        lemma_singleton(path@, -1isize);
    }
    if path.len() == 1 && path[0] == -1 {
        assert(facts_model(facts@).len() == facts@.len());
        let fact = IntFact::from_wrapped(value)?;
        let len = facts.len();
        return match fact.concretize() {
            None => Ok(()),
            Some(v) => match to_usize(v) {
                Some(n) => if n == len {
                    Ok(())
                } else {
                    Err(Error::Incompatibility)
                },
                None => Err(Error::Incompatibility),
            },
        };
    }
    match to_usize(path[0] as i64) {
        Some(k) => {
            if k < facts.len() {
                let rest = slice_subrange(path, 1, path.len());
                assert(rest@ == path@.skip(1));
                let ghost before = facts@;
                let r = set_tensorfact_path(&mut facts[k], rest, value);
                proof {
                    assert(facts_model(facts@) =~= facts_model(before).update(
                        k as int,
                        facts@[k as int]@,
                    ));
                    if r is Err {
                        assert(facts_model(facts@) =~= facts_model(before));
                    }
                }
                r
            } else {
                Err(Error::OutOfBounds)
            }
        },
        None => Err(Error::InvalidPath),
    }
}

/// Unifies `value` into the part at `path` of a tensor fact.
fn set_tensorfact_path(fact: &mut TensorFact, path: &[isize], value: Wrapped) -> (r: Result<
    (),
    Error,
>)
    ensures
        wrote(r, old(fact)@, final(fact)@, set_fact_at(old(fact)@, path@, value@)),
{
    if path.len() == 0 {
        return Err(Error::InvalidPath);
    }
    proof {
        lemma_singleton(path@, 0);
        lemma_singleton(path@, 1);
        lemma_singleton(path@, 2);
        lemma_singleton(path@, 3);
    }
    if path.len() == 1 && path[0] == 0 {
        let value = TypeFact::from_wrapped(value)?;
        fact.datatype = value.unify(&fact.datatype)?;
        Ok(())
    } else if path.len() == 1 && path[0] == 1 {
        match IntFact::from_wrapped(value)?.concretize() {
            None => Ok(()),
            Some(k) => {
                if k < 0 {
                    return Err(Error::Incompatibility);
                }
                match to_usize(k) {
                    None => Err(Error::Overflow),
                    Some(k) => {
                        fact.shape = fact.shape.unify(&ShapeFact::unknown_dims(k, false))?;
                        Ok(())
                    },
                }
            },
        }
    } else if path.len() == 1 && path[0] == 2 {
        let shape = ShapeFact::from_wrapped(value)?;
        fact.shape = shape.unify(&fact.shape)?;
        Ok(())
    } else if path.len() == 2 && path[0] == 2 {
        match to_usize(path[1] as i64) {
            None => Err(Error::InvalidPath),
            Some(k) => {
                let dim = DimFact::from_wrapped(value)?;
                let mut dims = ShapeFact::unknown_dims(k, true).dims;
                dims.push(dim);
                fact.shape = fact.shape.unify(&ShapeFact::open(dims))?;
                Ok(())
            },
        }
    } else if path.len() == 1 && path[0] == 3 {
        let value = ValueFact::from_wrapped(value)?;
        let value = fact.value.unify(&value)?;
        match value.concretize() {
            None => {},
            Some(tensor) => {
                let shape = fact.shape.unify(&ShapeFact::from(tensor.shape()))?;
                let datatype = fact.datatype.unify(&TypeFact::from(tensor.datatype()))?;
                fact.shape = shape;
                fact.datatype = datatype;
            },
        }
        fact.value = value;
        Ok(())
    } else if path[0] == 3 {
        Ok(())
    } else {
        Err(Error::InvalidPath)
    }
}

} // verus!
