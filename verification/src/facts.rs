//! Partial knowledge about tensors, and its unification.
//!
//! A fact is either unknown (`Any`) or known (`Only`). Two facts unify to the
//! most specific fact that is consistent with both; two different known values
//! do not unify. The shape of a tensor is known dimension by dimension, and may
//! be open: an open shape says nothing of the dimensions after those it lists.

use vstd::prelude::*;
use crate::errors::Error;
use crate::tensor::{copy_of, DataType, Tensor, TensorModel};

verus! {

/// What is known of a tensor's element type.
#[derive(Debug, Clone, Copy, PartialEq, Eq, Structural)]
pub enum TypeFact {
    Any,
    Only(DataType),
}

/// What is known of an integer.
#[derive(Debug, Clone, Copy, PartialEq, Eq, Structural)]
pub enum IntFact {
    Any,
    Only(i64),
}

/// What is known of one dimension of a shape.
#[derive(Debug, Clone, Copy, PartialEq, Eq, Structural)]
pub enum DimFact {
    Any,
    Only(usize),
}

/// What is known of a tensor's shape: the leading dimensions, and whether
/// more dimensions may follow them.
#[derive(Debug, PartialEq, Eq)]
pub struct ShapeFact {
    pub open: bool,
    pub dims: Vec<DimFact>,
}

/// What is known of a tensor's value.
#[derive(Debug, PartialEq, Eq)]
pub enum ValueFact {
    Any,
    Only(Tensor),
}

/// What is known of a tensor.
#[derive(Debug, PartialEq, Eq)]
pub struct TensorFact {
    pub datatype: TypeFact,
    pub shape: ShapeFact,
    pub value: ValueFact,
}

/// The mathematical value of a `ShapeFact`.
pub struct ShapeModel {
    pub open: bool,
    pub dims: Seq<DimFact>,
}

/// The mathematical value of a `ValueFact`.
pub enum ValueModel {
    Any,
    Only(TensorModel),
}

/// The mathematical value of a `TensorFact`.
pub struct TensorFactModel {
    pub datatype: TypeFact,
    pub shape: ShapeModel,
    pub value: ValueModel,
}

/// The most specific type fact consistent with both arguments, if there is one.
pub open spec fn meet_type(a: TypeFact, b: TypeFact) -> Option<TypeFact> {
    match (a, b) {
        (TypeFact::Any, _) => Some(b),
        (_, TypeFact::Any) => Some(a),
        (TypeFact::Only(x), TypeFact::Only(y)) => if x == y {
            Some(a)
        } else {
            None
        },
    }
}

/// The most specific integer fact consistent with both arguments, if there is one.
pub open spec fn meet_int(a: IntFact, b: IntFact) -> Option<IntFact> {
    match (a, b) {
        (IntFact::Any, _) => Some(b),
        (_, IntFact::Any) => Some(a),
        (IntFact::Only(x), IntFact::Only(y)) => if x == y {
            Some(a)
        } else {
            None
        },
    }
}

/// The most specific dimension fact consistent with both arguments, if there is one.
pub open spec fn meet_dim(a: DimFact, b: DimFact) -> Option<DimFact> {
    match (a, b) {
        (DimFact::Any, _) => Some(b),
        (_, DimFact::Any) => Some(a),
        (DimFact::Only(x), DimFact::Only(y)) => if x == y {
            Some(a)
        } else {
            None
        },
    }
}

/// The dimension at position `i` of the unification of two lists of dimensions.
pub open spec fn meet_dim_at(a: Seq<DimFact>, b: Seq<DimFact>, i: int) -> Option<DimFact> {
    if i < a.len() && i < b.len() {
        meet_dim(a[i], b[i])
    } else if i < a.len() {
        Some(a[i])
    } else {
        Some(b[i])
    }
}

/// Whether two shape facts are consistent: the dimensions that both list
/// unify, and a shape that lists fewer dimensions than the other is open.
pub open spec fn shapes_agree(a: ShapeModel, b: ShapeModel) -> bool {
    &&& a.dims.len() < b.dims.len() ==> a.open
    &&& b.dims.len() < a.dims.len() ==> b.open
    &&& forall|i: int|
        0 <= i < a.dims.len() && 0 <= i < b.dims.len() ==> (#[trigger] meet_dim_at(
            a.dims,
            b.dims,
            i,
        )) is Some
}

/// The most specific shape fact consistent with both arguments, if there is one.
pub open spec fn meet_shape(a: ShapeModel, b: ShapeModel) -> Option<ShapeModel> {
    if shapes_agree(a, b) {
        Some(
            ShapeModel {
                open: a.open && b.open,
                dims: Seq::new(
                    if a.dims.len() >= b.dims.len() {
                        a.dims.len()
                    } else {
                        b.dims.len()
                    },
                    |i: int| meet_dim_at(a.dims, b.dims, i).unwrap(),
                ),
            },
        )
    } else {
        None
    }
}

/// The most specific value fact consistent with both arguments, if there is one.
pub open spec fn meet_value(a: ValueModel, b: ValueModel) -> Option<ValueModel> {
    match (a, b) {
        (ValueModel::Any, _) => Some(b),
        (_, ValueModel::Any) => Some(a),
        (ValueModel::Only(x), ValueModel::Only(y)) => if x == y {
            Some(a)
        } else {
            None
        },
    }
}

/// The shape fact of a tensor with these extents: closed, every dimension known.
pub open spec fn shape_of_extents(extents: Seq<usize>) -> ShapeModel {
    ShapeModel { open: false, dims: extents.map_values(|d: usize| DimFact::Only(d)) }
}

/// A tensor fact after its known value, if it has one, was imposed on its
/// datatype and its shape; `None` where the value contradicts either.
pub open spec fn settle(f: TensorFactModel) -> Option<TensorFactModel> {
    match f.value {
        ValueModel::Any => Some(f),
        ValueModel::Only(t) => match (
            meet_type(f.datatype, TypeFact::Only(t.datatype)),
            meet_shape(f.shape, shape_of_extents(t.shape)),
        ) {
            (Some(datatype), Some(shape)) => Some(
                TensorFactModel { datatype, shape, value: f.value },
            ),
            _ => None,
        },
    }
}

/// The most specific tensor fact consistent with both arguments, if there is
/// one: the three components are unified one by one, and a known value then
/// decides the datatype and the shape.
pub open spec fn meet_tensor(a: TensorFactModel, b: TensorFactModel) -> Option<TensorFactModel> {
    match (
        meet_type(a.datatype, b.datatype),
        meet_shape(a.shape, b.shape),
        meet_value(a.value, b.value),
    ) {
        (Some(datatype), Some(shape), Some(value)) => settle(
            TensorFactModel { datatype, shape, value },
        ),
        _ => None,
    }
}

/// What `unify` returns for a unification that has this outcome.
pub open spec fn unified<F, M>(r: Result<F, Error>, model: spec_fn(F) -> M, want: Option<M>) -> bool {
    match r {
        Ok(f) => want == Some(model(f)),
        Err(e) => e == Error::Incompatibility && want is None,
    }
}

impl TypeFact {
    /// The fact that the type is `datatype`.
    pub fn from(datatype: DataType) -> (r: TypeFact)
        ensures
            r == TypeFact::Only(datatype),
    {
        TypeFact::Only(datatype)
    }

    /// The known type, if the fact holds one.
    pub fn concretize(&self) -> (r: Option<DataType>)
        ensures
            r == match *self {
                TypeFact::Any => None::<DataType>,
                TypeFact::Only(t) => Some(t),
            },
    {
        match *self {
            TypeFact::Any => None,
            TypeFact::Only(t) => Some(t),
        }
    }

    /// The most specific fact consistent with both, or `Incompatibility`.
    pub fn unify(&self, other: &TypeFact) -> (r: Result<TypeFact, Error>)
        ensures
            r == match meet_type(*self, *other) {
                Some(f) => Ok::<TypeFact, Error>(f),
                None => Err(Error::Incompatibility),
            },
    {
        match (*self, *other) {
            (TypeFact::Any, _) => Ok(*other),
            (_, TypeFact::Any) => Ok(*self),
            (TypeFact::Only(x), TypeFact::Only(y)) => if x == y {
                Ok(*self)
            } else {
                Err(Error::Incompatibility)
            },
        }
    }
}

impl IntFact {
    /// The fact that the integer is `value`.
    pub fn from(value: i64) -> (r: IntFact)
        ensures
            r == IntFact::Only(value),
    {
        IntFact::Only(value)
    }

    /// The known integer, if the fact holds one.
    pub fn concretize(&self) -> (r: Option<i64>)
        ensures
            r == match *self {
                IntFact::Any => None::<i64>,
                IntFact::Only(v) => Some(v),
            },
    {
        match *self {
            IntFact::Any => None,
            IntFact::Only(v) => Some(v),
        }
    }

    /// The most specific fact consistent with both, or `Incompatibility`.
    pub fn unify(&self, other: &IntFact) -> (r: Result<IntFact, Error>)
        ensures
            r == match meet_int(*self, *other) {
                Some(f) => Ok::<IntFact, Error>(f),
                None => Err(Error::Incompatibility),
            },
    {
        match (*self, *other) {
            (IntFact::Any, _) => Ok(*other),
            (_, IntFact::Any) => Ok(*self),
            (IntFact::Only(x), IntFact::Only(y)) => if x == y {
                Ok(*self)
            } else {
                Err(Error::Incompatibility)
            },
        }
    }
}

impl DimFact {
    /// The fact that the dimension is `value`.
    pub fn from(value: usize) -> (r: DimFact)
        ensures
            r == DimFact::Only(value),
    {
        DimFact::Only(value)
    }

    /// The known dimension, if the fact holds one.
    pub fn concretize(&self) -> (r: Option<usize>)
        ensures
            r == match *self {
                DimFact::Any => None::<usize>,
                DimFact::Only(v) => Some(v),
            },
    {
        match *self {
            DimFact::Any => None,
            DimFact::Only(v) => Some(v),
        }
    }

    /// The most specific fact consistent with both, or `Incompatibility`.
    pub fn unify(&self, other: &DimFact) -> (r: Result<DimFact, Error>)
        ensures
            r == match meet_dim(*self, *other) {
                Some(f) => Ok::<DimFact, Error>(f),
                None => Err(Error::Incompatibility),
            },
    {
        match (*self, *other) {
            (DimFact::Any, _) => Ok(*other),
            (_, DimFact::Any) => Ok(*self),
            (DimFact::Only(x), DimFact::Only(y)) => if x == y {
                Ok(*self)
            } else {
                Err(Error::Incompatibility)
            },
        }
    }
}

impl View for ShapeFact {
    type V = ShapeModel;

    open spec fn view(&self) -> ShapeModel {
        ShapeModel { open: self.open, dims: self.dims@ }
    }
}

impl Clone for ShapeFact {
    fn clone(&self) -> (r: ShapeFact)
        ensures
            r@ == self@,
    {
        self.duplicate()
    }
}

impl ShapeFact {
    /// The shape that lists `dims` and may have more dimensions after them.
    pub fn open(dims: Vec<DimFact>) -> (r: ShapeFact)
        ensures
            r@ == (ShapeModel { open: true, dims: dims@ }),
    {
        ShapeFact { open: true, dims }
    }

    /// The shape that has exactly the dimensions `dims`.
    pub fn closed(dims: Vec<DimFact>) -> (r: ShapeFact)
        ensures
            r@ == (ShapeModel { open: false, dims: dims@ }),
    {
        ShapeFact { open: false, dims }
    }

    /// The shape of which nothing is known.
    pub fn new() -> (r: ShapeFact)
        ensures
            r@ == (ShapeModel { open: true, dims: Seq::<DimFact>::empty() }),
    {
        ShapeFact { open: true, dims: Vec::new() }
    }

    /// The shape of a tensor with these extents.
    pub fn from(extents: &[usize]) -> (r: ShapeFact)
        ensures
            r@ == shape_of_extents(extents@),
    {
        let mut dims: Vec<DimFact> = Vec::new();
        let mut i: usize = 0;
        while i < extents.len()
            invariant
                0 <= i <= extents@.len(),
                dims@ =~= extents@.take(i as int).map_values(|d: usize| DimFact::Only(d)),
            decreases extents@.len() - i,
        {
            dims.push(DimFact::Only(extents[i]));
            assert(extents@.take(i + 1) =~= extents@.take(i as int).push(extents@[i as int]));
            i += 1;
        }
        assert(extents@.take(extents@.len() as int) =~= extents@);
        ShapeFact { open: false, dims }
    }

    /// A shape of `rank` dimensions, none of them known.
    pub fn unknown_dims(rank: usize, open: bool) -> (r: ShapeFact)
        ensures
            r@ == (ShapeModel { open, dims: Seq::new(rank as nat, |i: int| DimFact::Any) }),
    {
        let mut dims: Vec<DimFact> = Vec::new();
        let mut i: usize = 0;
        while i < rank
            invariant
                0 <= i <= rank,
                dims@ =~= Seq::new(i as nat, |i: int| DimFact::Any),
            decreases rank - i,
        {
            dims.push(DimFact::Any);
            i += 1;
        }
        ShapeFact { open, dims }
    }

    /// A copy of the fact.
    pub fn duplicate(&self) -> (r: ShapeFact)
        ensures
            r@ == self@,
    {
        ShapeFact { open: self.open, dims: copy_of(self.dims.as_slice()) }
    }

    /// Whether two shape facts are the same.
    pub fn same(&self, other: &ShapeFact) -> (r: bool)
        ensures
            r == (self@ == other@),
    {
        if self.open != other.open || self.dims.len() != other.dims.len() {
            return false;
        }
        let n = self.dims.len();
        let mut i: usize = 0;
        while i < n
            invariant
                n == self.dims@.len(),
                n == other.dims@.len(),
                0 <= i <= n,
                forall|j: int| 0 <= j < i ==> self.dims@[j] == other.dims@[j],
            decreases n - i,
        {
            if self.dims[i] != other.dims[i] {
                return false;
            }
            i += 1;
        }
        assert(self.dims@ =~= other.dims@);
        true
    }

    /// The extents of the shape, if it is closed and every dimension is known.
    pub fn concretize(&self) -> (r: Option<Vec<usize>>)
        ensures
            match r {
                Some(v) => self@ == shape_of_extents(v@),
                None => forall|s: Seq<usize>| self@ != shape_of_extents(s),
            },
    {
        if self.open {
            return None;
        }
        let mut out: Vec<usize> = Vec::new();
        let mut i: usize = 0;
        while i < self.dims.len()
            invariant
                0 <= i <= self.dims@.len(),
                out@.len() == i,
                forall|j: int| 0 <= j < i ==> self.dims@[j] == DimFact::Only(out@[j]),
            decreases self.dims@.len() - i,
        {
            match self.dims[i] {
                DimFact::Any => {
                    assert forall|s: Seq<usize>| self@ != shape_of_extents(s) by {
                        if self@ == shape_of_extents(s) {
                            assert(shape_of_extents(s).dims[i as int] == DimFact::Only(
                                s[i as int],
                            ));
                        }
                    }
                    return None;
                },
                DimFact::Only(d) => {
                    out.push(d);
                },
            }
            i += 1;
        }
        assert(self.dims@ =~= shape_of_extents(out@).dims);
        Some(out)
    }

    /// The most specific fact consistent with both, or `Incompatibility`.
    pub fn unify(&self, other: &ShapeFact) -> (r: Result<ShapeFact, Error>)
        ensures
            unified(r, |f: ShapeFact| f@, meet_shape(self@, other@)),
    {
        let n = self.dims.len();
        let m = other.dims.len();
        if (n < m && !self.open) || (m < n && !other.open) {
            return Err(Error::Incompatibility);
        }
        let len = if n >= m {
            n
        } else {
            m
        };
        let mut dims: Vec<DimFact> = Vec::new();
        let mut i: usize = 0;
        while i < len
            invariant
                n == self.dims@.len(),
                m == other.dims@.len(),
                len == if n >= m {
                    n
                } else {
                    m
                },
                0 <= i <= len,
                dims@.len() == i,
                forall|j: int|
                    0 <= j < i ==> (#[trigger] meet_dim_at(self.dims@, other.dims@, j)) == Some(
                        dims@[j],
                    ),
            decreases len - i,
        {
            let d = if i < n && i < m {
                match self.dims[i].unify(&other.dims[i]) {
                    Ok(d) => d,
                    Err(e) => {
                        assert(meet_dim_at(self.dims@, other.dims@, i as int) is None);
                        return Err(Error::Incompatibility);
                    },
                }
            } else if i < n {
                self.dims[i]
            } else {
                other.dims[i]
            };
            dims.push(d);
            i += 1;
        }
        let out = ShapeFact { open: self.open && other.open, dims };
        assert(out@.dims =~= meet_shape(self@, other@).unwrap().dims);
        Ok(out)
    }
}

impl View for ValueFact {
    type V = ValueModel;

    open spec fn view(&self) -> ValueModel {
        match *self {
            ValueFact::Any => ValueModel::Any,
            ValueFact::Only(t) => ValueModel::Only(t@),
        }
    }
}

impl Clone for ValueFact {
    fn clone(&self) -> (r: ValueFact)
        ensures
            r@ == self@,
    {
        self.duplicate()
    }
}

impl ValueFact {
    /// The fact that the value is `tensor`.
    pub fn from(tensor: Tensor) -> (r: ValueFact)
        ensures
            r@ == ValueModel::Only(tensor@),
    {
        ValueFact::Only(tensor)
    }

    /// The known tensor, if the fact holds one.
    pub fn concretize(&self) -> (r: Option<&Tensor>)
        ensures
            match r {
                Some(t) => self@ == ValueModel::Only(t@),
                None => self@ == ValueModel::Any,
            },
    {
        match self {
            ValueFact::Any => None,
            ValueFact::Only(t) => Some(t),
        }
    }

    /// A copy of the fact.
    pub fn duplicate(&self) -> (r: ValueFact)
        ensures
            r@ == self@,
    {
        match self {
            ValueFact::Any => ValueFact::Any,
            ValueFact::Only(t) => ValueFact::Only(t.duplicate()),
        }
    }

    /// Whether two value facts are the same.
    pub fn same(&self, other: &ValueFact) -> (r: bool)
        ensures
            r == (self@ == other@),
    {
        match (self, other) {
            (ValueFact::Any, ValueFact::Any) => true,
            (ValueFact::Only(a), ValueFact::Only(b)) => a.same(b),
            _ => false,
        }
    }

    /// The most specific fact consistent with both, or `Incompatibility`.
    pub fn unify(&self, other: &ValueFact) -> (r: Result<ValueFact, Error>)
        ensures
            unified(r, |f: ValueFact| f@, meet_value(self@, other@)),
    {
        match (self, other) {
            (ValueFact::Any, _) => Ok(other.duplicate()),
            (_, ValueFact::Any) => Ok(self.duplicate()),
            (ValueFact::Only(a), ValueFact::Only(b)) => if a.same(b) {
                Ok(self.duplicate())
            } else {
                Err(Error::Incompatibility)
            },
        }
    }
}

impl View for TensorFact {
    type V = TensorFactModel;

    open spec fn view(&self) -> TensorFactModel {
        TensorFactModel { datatype: self.datatype, shape: self.shape@, value: self.value@ }
    }
}

/// The tensor fact of which nothing is known.
pub open spec fn unknown_tensor() -> TensorFactModel {
    TensorFactModel {
        datatype: TypeFact::Any,
        shape: ShapeModel { open: true, dims: Seq::<DimFact>::empty() },
        value: ValueModel::Any,
    }
}

impl Clone for TensorFact {
    fn clone(&self) -> (r: TensorFact)
        ensures
            r@ == self@,
    {
        self.duplicate()
    }
}

impl TensorFact {
    /// The fact of which nothing is known.
    pub fn new() -> (r: TensorFact)
        ensures
            r@ == unknown_tensor(),
    {
        TensorFact { datatype: TypeFact::Any, shape: ShapeFact::new(), value: ValueFact::Any }
    }

    /// A copy of the fact.
    pub fn duplicate(&self) -> (r: TensorFact)
        ensures
            r@ == self@,
    {
        TensorFact {
            datatype: self.datatype,
            shape: self.shape.duplicate(),
            value: self.value.duplicate(),
        }
    }

    /// Whether two tensor facts are the same.
    pub fn same(&self, other: &TensorFact) -> (r: bool)
        ensures
            r == (self@ == other@),
    {
        self.datatype == other.datatype && self.shape.same(&other.shape) && self.value.same(
            &other.value,
        )
    }

    /// The most specific fact consistent with both, or `Incompatibility`.
    pub fn unify(&self, other: &TensorFact) -> (r: Result<TensorFact, Error>)
        ensures
            unified(r, |f: TensorFact| f@, meet_tensor(self@, other@)),
    {
        let datatype = self.datatype.unify(&other.datatype)?;
        let shape = self.shape.unify(&other.shape)?;
        let value = self.value.unify(&other.value)?;
        match value.concretize() {
            None => Ok(TensorFact { datatype, shape, value }),
            Some(t) => {
                let datatype = datatype.unify(&TypeFact::Only(t.datatype()))?;
                let shape = shape.unify(&ShapeFact::from(t.shape()))?;
                Ok(TensorFact { datatype, shape, value })
            },
        }
    }
}

} // verus!
