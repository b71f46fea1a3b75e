//! Tensor values: a datatype tag and a dense row-major array of elements.
//!
//! Floating-point elements are held by their IEEE-754 bit patterns, so that
//! two tensors are equal exactly when they are bit-identical.

use vstd::prelude::*;
use crate::errors::Error;

verus! {

/// The element types that a tensor can hold.
#[derive(Debug, Clone, Copy, PartialEq, Eq, Structural)]
pub enum DataType {
    U8,
    I8,
    I32,
    F32,
    F64,
    String,
}

/// The number of elements of an array with these extents.
pub open spec fn volume(shape: Seq<usize>) -> nat
    decreases shape.len(),
{
    if shape.len() == 0 {
        1
    } else {
        volume(shape.drop_last()) * (shape.last() as nat)
    }
}

/// Whether `index` names an element of an array with these extents.
pub open spec fn in_bounds(shape: Seq<usize>, index: Seq<usize>) -> bool {
    &&& index.len() == shape.len()
    &&& forall|i: int| 0 <= i < shape.len() ==> index[i] < shape[i]
}

/// The row-major position of the element that `index` names.
pub open spec fn offset(shape: Seq<usize>, index: Seq<usize>) -> nat
    decreases shape.len(),
{
    if shape.len() == 0 || index.len() != shape.len() {
        0
    } else {
        offset(shape.drop_last(), index.drop_last()) * (shape.last() as nat) + (index.last() as nat)
    }
}

/// An array with an extent of zero has no elements.
pub proof fn lemma_volume_zero(shape: Seq<usize>, k: int)
    requires
        0 <= k < shape.len(),
        shape[k] == 0,
    ensures
        volume(shape) == 0,
    decreases shape.len(),
{
    if k < shape.len() - 1 {
        lemma_volume_zero(shape.drop_last(), k);
    }
    assert(volume(shape.drop_last()) * (shape.last() as nat) == 0) by (nonlinear_arith)
        requires
            volume(shape.drop_last()) == 0 || shape.last() == 0,
    ;
}

/// Where no extent is zero, a prefix of the extents holds no more elements than the whole.
pub proof fn lemma_volume_prefix(shape: Seq<usize>, i: int)
    requires
        0 <= i <= shape.len(),
        forall|j: int| 0 <= j < shape.len() ==> shape[j] >= 1,
    ensures
        1 <= volume(shape.take(i)) <= volume(shape),
    decreases shape.len(),
{
    if i == shape.len() {
        assert(shape.take(i) =~= shape);
        if shape.len() > 0 {
            lemma_volume_prefix(shape.drop_last(), i - 1);
            assert(shape.drop_last().take(i - 1) =~= shape.drop_last());
            assert(volume(shape.drop_last()) * (shape.last() as nat) >= 1) by (nonlinear_arith)
                requires
                    volume(shape.drop_last()) >= 1,
                    shape.last() >= 1,
            ;
        }
    } else {
        lemma_volume_prefix(shape.drop_last(), i);
        assert(shape.drop_last().take(i) =~= shape.take(i));
        assert(volume(shape.drop_last()) * (shape.last() as nat) >= volume(shape.drop_last()))
            by (nonlinear_arith)
            requires
                shape.last() >= 1,
        ;
    }
}

/// The position of an index that is in bounds is below the number of elements.
pub proof fn lemma_offset_bound(shape: Seq<usize>, index: Seq<usize>)
    requires
        in_bounds(shape, index),
    ensures
        offset(shape, index) < volume(shape),
    decreases shape.len(),
{
    if shape.len() > 0 {
        lemma_offset_bound(shape.drop_last(), index.drop_last());
        let o = offset(shape.drop_last(), index.drop_last());
        let v = volume(shape.drop_last());
        let d = shape.last() as nat;
        let x = index.last() as nat;
        assert(o * d + x < v * d) by (nonlinear_arith)
            requires
                o < v,
                x < d,
        ;
    }
}

/// The number of elements of an array with these extents, or `None` where it
/// does not fit a `usize`.
pub fn checked_volume(shape: &[usize]) -> (r: Option<usize>)
    ensures
        match r {
            Some(n) => n == volume(shape@),
            None => volume(shape@) > usize::MAX,
        },
{
    let n = shape.len();
    let mut k: usize = 0;
    while k < n
        invariant
            n == shape@.len(),
            0 <= k <= n,
            forall|j: int| 0 <= j < k ==> shape@[j] >= 1,
        decreases n - k,
    {
        if shape[k] == 0 {
            proof {
                lemma_volume_zero(shape@, k as int);
            }
            return Some(0);
        }
        k += 1;
    }
    let mut acc: usize = 1;
    let mut i: usize = 0;
    assert(shape@.take(0) =~= Seq::<usize>::empty());
    while i < n
        invariant
            n == shape@.len(),
            0 <= i <= n,
            forall|j: int| 0 <= j < n ==> shape@[j] >= 1,
            acc == volume(shape@.take(i as int)),
        decreases n - i,
    {
        proof {
            assert(shape@.take(i + 1).drop_last() =~= shape@.take(i as int));
            lemma_volume_prefix(shape@, i + 1);
        }
        match acc.checked_mul(shape[i]) {
            Some(next) => {
                acc = next;
            },
            None => {
                return None;
            },
        }
        i += 1;
    }
    assert(shape@.take(n as int) =~= shape@);
    Some(acc)
}

/// A dense array: its extents, and its elements in row-major order.
#[derive(Debug, PartialEq, Eq)]
pub struct Array<T> {
    shape: Vec<usize>,
    data: Vec<T>,
}

impl<T> Array<T> {
    #[verifier::type_invariant]
    spec fn well_formed(self) -> bool {
        self.data@.len() == volume(self.shape@)
    }

    /// The extents of the array.
    pub closed spec fn extents(&self) -> Seq<usize> {
        self.shape@
    }

    /// The elements of the array in row-major order.
    pub closed spec fn elements(&self) -> Seq<T> {
        self.data@
    }

}

impl<T: Copy> Array<T> {
    /// Builds an array from its extents and its elements in row-major order.
    pub fn from_shape_vec(shape: Vec<usize>, data: Vec<T>) -> (r: Result<Array<T>, Error>)
        ensures
            match r {
                Ok(a) => a.extents() == shape@ && a.elements() == data@ && data@.len() == volume(
                    shape@,
                ),
                Err(e) => e == Error::Shape && data@.len() != volume(shape@),
            },
    {
        let len = data.len();
        match checked_volume(shape.as_slice()) {
            Some(n) => {
                if n == len {
                    Ok(Array { shape, data })
                } else {
                    Err(Error::Shape)
                }
            },
            None => Err(Error::Shape),
        }
    }

    /// The extents of the array.
    pub fn shape(&self) -> (r: &[usize])
        ensures
            r@ == self.extents(),
    {
        self.shape.as_slice()
    }

    /// The number of axes of the array.
    pub fn ndim(&self) -> (r: usize)
        ensures
            r == self.extents().len(),
    {
        self.shape.len()
    }

    /// The elements of the array in row-major order.
    pub fn as_slice(&self) -> (r: &[T])
        ensures
            r@ == self.elements(),
    {
        self.data.as_slice()
    }

    /// The number of elements of the array.
    pub fn len(&self) -> (r: usize)
        ensures
            r == self.elements().len(),
            r == volume(self.extents()),
    {
        proof {
            use_type_invariant(self);
        }
        self.data.len()
    }

    /// The element that `index` names, if it is in bounds.
    pub fn get(&self, index: &[usize]) -> (r: Option<T>)
        ensures
            r == if in_bounds(self.extents(), index@) {
                Some(self.elements()[offset(self.extents(), index@) as int])
            } else {
                None
            },
            in_bounds(self.extents(), index@) ==> offset(self.extents(), index@)
                < self.elements().len(),
    {
        proof {
            use_type_invariant(self);
        }
        let n = self.shape.len();
        if index.len() != n {
            return None;
        }
        let mut k: usize = 0;
        while k < n
            invariant
                n == self.shape@.len(),
                n == index@.len(),
                0 <= k <= n,
                forall|j: int| 0 <= j < k ==> index@[j] < self.shape@[j],
            decreases n - k,
        {
            if index[k] >= self.shape[k] {
                return None;
            }
            k += 1;
        }
        let mut acc: usize = 0;
        let mut i: usize = 0;
        assert(self.shape@.take(0) =~= Seq::<usize>::empty());
        while i < n
            invariant
                n == self.shape@.len(),
                n == index@.len(),
                0 <= i <= n,
                in_bounds(self.shape@, index@),
                self.data@.len() == volume(self.shape@),
                acc == offset(self.shape@.take(i as int), index@.take(i as int)),
            decreases n - i,
        {
            proof {
                let s = self.shape@.take(i + 1);
                let x = index@.take(i + 1);
                assert(s.drop_last() =~= self.shape@.take(i as int));
                assert(x.drop_last() =~= index@.take(i as int));
                assert(in_bounds(s, x));
                lemma_offset_bound(s, x);
                assert forall|j: int| 0 <= j < n implies self.shape@[j] >= 1 by {
                    assert(index@[j] < self.shape@[j]);
                }
                lemma_volume_prefix(self.shape@, i + 1);
                assert(self.data.len() == self.data@.len());
                assert(s.last() == self.shape@[i as int] && x.last() == index@[i as int]);
                assert(offset(s, x) == acc * self.shape@[i as int] + index@[i as int]);
                assert(acc * self.shape@[i as int] >= 0) by (nonlinear_arith)
                    requires
                        acc >= 0,
                        self.shape@[i as int] >= 0,
                ;
            }
            acc = acc * self.shape[i] + index[i];
            i += 1;
        }
        proof {
            assert(self.shape@.take(n as int) =~= self.shape@);
            assert(index@.take(n as int) =~= index@);
            lemma_offset_bound(self.shape@, index@);
        }
        Some(self.data[acc])
    }

    /// A copy of the array.
    pub fn duplicate(&self) -> (r: Array<T>)
        ensures
            r.extents() == self.extents(),
            r.elements() == self.elements(),
    {
        proof {
            use_type_invariant(self);
        }
        let shape = copy_of(self.shape.as_slice());
        let data = copy_of(self.data.as_slice());
        Array { shape, data }
    }

    /// Whether two arrays have the same extents.
    pub fn same_extents(&self, other: &Array<T>) -> (r: bool)
        ensures
            r == (self.extents() == other.extents()),
    {
        same_extents(self.shape.as_slice(), other.shape.as_slice())
    }
}

impl<T: Copy> Clone for Array<T> {
    fn clone(&self) -> (r: Array<T>)
        ensures
            r.extents() == self.extents(),
            r.elements() == self.elements(),
    {
        self.duplicate()
    }
}

/// A copy of a slice.
pub fn copy_of<T: Copy>(items: &[T]) -> (r: Vec<T>)
    ensures
        r@ == items@,
{
    let mut out: Vec<T> = Vec::new();
    let mut i: usize = 0;
    while i < items.len()
        invariant
            0 <= i <= items@.len(),
            out@ == items@.take(i as int),
        decreases items@.len() - i,
    {
        out.push(items[i]);
        assert(items@.take(i + 1) =~= items@.take(i as int).push(items@[i as int]));
        i += 1;
    }
    assert(items@.take(items@.len() as int) =~= items@);
    out
}

/// Whether two lists of extents are equal.
pub fn same_extents(a: &[usize], b: &[usize]) -> (r: bool)
    ensures
        r == (a@ == b@),
{
    if a.len() != b.len() {
        return false;
    }
    let mut i: usize = 0;
    while i < a.len()
        invariant
            a@.len() == b@.len(),
            0 <= i <= a@.len(),
            a@.take(i as int) == b@.take(i as int),
        decreases a@.len() - i,
    {
        if a[i] != b[i] {
            return false;
        }
        assert(a@.take(i + 1) =~= a@.take(i as int).push(a@[i as int]));
        assert(b@.take(i + 1) =~= b@.take(i as int).push(b@[i as int]));
        i += 1;
    }
    assert(a@.take(a@.len() as int) =~= a@);
    assert(b@.take(b@.len() as int) =~= b@);
    true
}

/// The bit pattern of a 32-bit floating-point number.
#[derive(Debug, Clone, Copy, PartialEq, Eq, Structural)]
pub struct F32(pub u32);

/// The bit pattern of a 64-bit floating-point number.
#[derive(Debug, Clone, Copy, PartialEq, Eq, Structural)]
pub struct F64(pub u64);

/// The mathematical value of a tensor: its datatype, its extents, and its
/// elements in row-major order, each as the integer that stands for it.
pub struct TensorModel {
    pub datatype: DataType,
    pub shape: Seq<usize>,
    pub data: Seq<int>,
}

/// The model of a tensor with this datatype that holds these extents and elements.
pub open spec fn model_with(datatype: DataType, shape: Seq<usize>, data: Seq<int>) -> TensorModel {
    TensorModel { datatype, shape, data }
}

/// A value that can be an element of a tensor.
pub trait Datum: Copy + Sized {
    /// The integer that stands for the element in a tensor's model.
    spec fn as_int(self) -> int;

    /// The datatype of tensors with such elements.
    spec fn datatype_spec() -> DataType;

    /// Whether two elements are the same.
    fn same(self, other: Self) -> (r: bool)
        ensures
            r == (self.as_int() == other.as_int()),
    ;

    /// The datatype of tensors with such elements.
    fn datatype() -> (r: DataType)
        ensures
            r == Self::datatype_spec(),
    ;

    /// The element that stands for the number zero.
    fn zero() -> (r: Self)
        ensures
            r.as_int() == 0,
    ;

    /// The tensor that holds this array.
    fn array_into_tensor(m: Array<Self>) -> (t: Tensor)
        ensures
            t@ == model_with(
                Self::datatype_spec(),
                m.extents(),
                m.elements().map_values(|x: Self| x.as_int()),
            ),
    ;

    /// The array out of a tensor, where its elements are of this type.
    fn tensor_into_array(m: Tensor) -> (r: Result<Array<Self>, Error>)
        ensures
            match r {
                Ok(a) => m@ == model_with(
                    Self::datatype_spec(),
                    a.extents(),
                    a.elements().map_values(|x: Self| x.as_int()),
                ),
                Err(e) => e == Error::UnsupportedType && m@.datatype != Self::datatype_spec(),
            },
    ;

    /// The array that a tensor holds, where its elements are of this type.
    fn tensor_to_view(m: &Tensor) -> (r: Result<&Array<Self>, Error>)
        ensures
            match r {
                Ok(a) => m@ == model_with(
                    Self::datatype_spec(),
                    a.extents(),
                    a.elements().map_values(|x: Self| x.as_int()),
                ),
                Err(e) => e == Error::UnsupportedType && m@.datatype != Self::datatype_spec(),
            },
    ;
}

/// The model of the tensor that holds `a`.
pub open spec fn model_of<T: Datum>(a: Array<T>) -> TensorModel {
    model_with(T::datatype_spec(), a.extents(), a.elements().map_values(|x: T| x.as_int()))
}

/// A tensor: a dense array of one of the element types.
#[derive(Debug, PartialEq, Eq)]
pub enum Tensor {
    F32(Array<F32>),
    F64(Array<F64>),
    I32(Array<i32>),
    I8(Array<i8>),
    U8(Array<u8>),
    String(Array<i8>),
}

impl View for Tensor {
    type V = TensorModel;

    open spec fn view(&self) -> TensorModel {
        match *self {
            Tensor::F32(a) => model_with(
                DataType::F32,
                a.extents(),
                a.elements().map_values(|x: F32| x.0 as int),
            ),
            Tensor::F64(a) => model_with(
                DataType::F64,
                a.extents(),
                a.elements().map_values(|x: F64| x.0 as int),
            ),
            Tensor::I32(a) => model_with(
                DataType::I32,
                a.extents(),
                a.elements().map_values(|x: i32| x as int),
            ),
            Tensor::I8(a) => model_with(
                DataType::I8,
                a.extents(),
                a.elements().map_values(|x: i8| x as int),
            ),
            Tensor::U8(a) => model_with(
                DataType::U8,
                a.extents(),
                a.elements().map_values(|x: u8| x as int),
            ),
            Tensor::String(a) => model_with(
                DataType::String,
                a.extents(),
                a.elements().map_values(|x: i8| x as int),
            ),
        }
    }
}

impl Datum for F32 {
    open spec fn as_int(self) -> int {
        self.0 as int
    }

    open spec fn datatype_spec() -> DataType {
        DataType::F32
    }

    fn same(self, other: Self) -> (r: bool) {
        self.0 == other.0
    }

    fn datatype() -> (r: DataType) {
        DataType::F32
    }

    fn zero() -> (r: Self) {
        F32(0)
    }

    fn array_into_tensor(m: Array<Self>) -> (t: Tensor) {
        assert(m.elements().map_values(|x: F32| x.0 as int) =~= m.elements().map_values(
            |x: F32| x.as_int(),
        ));
        Tensor::F32(m)
    }

    fn tensor_into_array(m: Tensor) -> (r: Result<Array<Self>, Error>) {
        match m {
            Tensor::F32(a) => {
                assert(a.elements().map_values(|x: F32| x.0 as int) =~= a.elements().map_values(
                    |x: F32| x.as_int(),
                ));
                Ok(a)
            },
            _ => Err(Error::UnsupportedType),
        }
    }

    fn tensor_to_view(m: &Tensor) -> (r: Result<&Array<Self>, Error>) {
        match m {
            Tensor::F32(a) => {
                assert(a.elements().map_values(|x: F32| x.0 as int) =~= a.elements().map_values(
                    |x: F32| x.as_int(),
                ));
                Ok(a)
            },
            _ => Err(Error::UnsupportedType),
        }
    }
}

impl Datum for F64 {
    open spec fn as_int(self) -> int {
        self.0 as int
    }

    open spec fn datatype_spec() -> DataType {
        DataType::F64
    }

    fn same(self, other: Self) -> (r: bool) {
        self.0 == other.0
    }

    fn datatype() -> (r: DataType) {
        DataType::F64
    }

    fn zero() -> (r: Self) {
        F64(0)
    }

    fn array_into_tensor(m: Array<Self>) -> (t: Tensor) {
        assert(m.elements().map_values(|x: F64| x.0 as int) =~= m.elements().map_values(
            |x: F64| x.as_int(),
        ));
        Tensor::F64(m)
    }

    fn tensor_into_array(m: Tensor) -> (r: Result<Array<Self>, Error>) {
        match m {
            Tensor::F64(a) => {
                assert(a.elements().map_values(|x: F64| x.0 as int) =~= a.elements().map_values(
                    |x: F64| x.as_int(),
                ));
                Ok(a)
            },
            _ => Err(Error::UnsupportedType),
        }
    }

    fn tensor_to_view(m: &Tensor) -> (r: Result<&Array<Self>, Error>) {
        match m {
            Tensor::F64(a) => {
                assert(a.elements().map_values(|x: F64| x.0 as int) =~= a.elements().map_values(
                    |x: F64| x.as_int(),
                ));
                Ok(a)
            },
            _ => Err(Error::UnsupportedType),
        }
    }
}

impl Datum for i32 {
    open spec fn as_int(self) -> int {
        self as int
    }

    open spec fn datatype_spec() -> DataType {
        DataType::I32
    }

    fn same(self, other: Self) -> (r: bool) {
        self == other
    }

    fn datatype() -> (r: DataType) {
        DataType::I32
    }

    fn zero() -> (r: Self) {
        0
    }

    fn array_into_tensor(m: Array<Self>) -> (t: Tensor) {
        assert(m.elements().map_values(|x: i32| x as int) =~= m.elements().map_values(
            |x: i32| x.as_int(),
        ));
        Tensor::I32(m)
    }

    fn tensor_into_array(m: Tensor) -> (r: Result<Array<Self>, Error>) {
        match m {
            Tensor::I32(a) => {
                assert(a.elements().map_values(|x: i32| x as int) =~= a.elements().map_values(
                    |x: i32| x.as_int(),
                ));
                Ok(a)
            },
            _ => Err(Error::UnsupportedType),
        }
    }

    fn tensor_to_view(m: &Tensor) -> (r: Result<&Array<Self>, Error>) {
        match m {
            Tensor::I32(a) => {
                assert(a.elements().map_values(|x: i32| x as int) =~= a.elements().map_values(
                    |x: i32| x.as_int(),
                ));
                Ok(a)
            },
            _ => Err(Error::UnsupportedType),
        }
    }
}

impl Datum for i8 {
    open spec fn as_int(self) -> int {
        self as int
    }

    open spec fn datatype_spec() -> DataType {
        DataType::I8
    }

    fn same(self, other: Self) -> (r: bool) {
        self == other
    }

    fn datatype() -> (r: DataType) {
        DataType::I8
    }

    fn zero() -> (r: Self) {
        0
    }

    fn array_into_tensor(m: Array<Self>) -> (t: Tensor) {
        assert(m.elements().map_values(|x: i8| x as int) =~= m.elements().map_values(
            |x: i8| x.as_int(),
        ));
        Tensor::I8(m)
    }

    fn tensor_into_array(m: Tensor) -> (r: Result<Array<Self>, Error>) {
        match m {
            Tensor::I8(a) => {
                assert(a.elements().map_values(|x: i8| x as int) =~= a.elements().map_values(
                    |x: i8| x.as_int(),
                ));
                Ok(a)
            },
            _ => Err(Error::UnsupportedType),
        }
    }

    fn tensor_to_view(m: &Tensor) -> (r: Result<&Array<Self>, Error>) {
        match m {
            Tensor::I8(a) => {
                assert(a.elements().map_values(|x: i8| x as int) =~= a.elements().map_values(
                    |x: i8| x.as_int(),
                ));
                Ok(a)
            },
            _ => Err(Error::UnsupportedType),
        }
    }
}

impl Datum for u8 {
    open spec fn as_int(self) -> int {
        self as int
    }

    open spec fn datatype_spec() -> DataType {
        DataType::U8
    }

    fn same(self, other: Self) -> (r: bool) {
        self == other
    }

    fn datatype() -> (r: DataType) {
        DataType::U8
    }

    fn zero() -> (r: Self) {
        0
    }

    fn array_into_tensor(m: Array<Self>) -> (t: Tensor) {
        assert(m.elements().map_values(|x: u8| x as int) =~= m.elements().map_values(
            |x: u8| x.as_int(),
        ));
        Tensor::U8(m)
    }

    fn tensor_into_array(m: Tensor) -> (r: Result<Array<Self>, Error>) {
        match m {
            Tensor::U8(a) => {
                assert(a.elements().map_values(|x: u8| x as int) =~= a.elements().map_values(
                    |x: u8| x.as_int(),
                ));
                Ok(a)
            },
            _ => Err(Error::UnsupportedType),
        }
    }

    fn tensor_to_view(m: &Tensor) -> (r: Result<&Array<Self>, Error>) {
        match m {
            Tensor::U8(a) => {
                assert(a.elements().map_values(|x: u8| x as int) =~= a.elements().map_values(
                    |x: u8| x.as_int(),
                ));
                Ok(a)
            },
            _ => Err(Error::UnsupportedType),
        }
    }
}

/// Whether two arrays have the same extents and the same elements.
pub fn same_array<T: Datum>(a: &Array<T>, b: &Array<T>) -> (r: bool)
    ensures
        r == (model_of::<T>(*a) == model_of::<T>(*b)),
{
    if !a.same_extents(b) {
        return false;
    }
    let x = a.as_slice();
    let y = b.as_slice();
    let ghost mx = a.elements().map_values(|v: T| v.as_int());
    let ghost my = b.elements().map_values(|v: T| v.as_int());
    let n = a.len();
    let m = b.len();
    assert(n == m);
    let mut i: usize = 0;
    while i < n
        invariant
            x@ == a.elements(),
            y@ == b.elements(),
            n == x@.len(),
            n == y@.len(),
            0 <= i <= n,
            mx == a.elements().map_values(|v: T| v.as_int()),
            my == b.elements().map_values(|v: T| v.as_int()),
            forall|j: int| 0 <= j < i ==> mx[j] == my[j],
        decreases n - i,
    {
        if !x[i].same(y[i]) {
            assert(mx[i as int] != my[i as int]);
            return false;
        }
        i += 1;
    }
    assert(mx =~= my);
    true
}

impl Clone for Tensor {
    fn clone(&self) -> (r: Tensor)
        ensures
            r@ == self@,
    {
        self.duplicate()
    }
}

impl Tensor {
    /// The datatype of the tensor's elements.
    pub fn datatype(&self) -> (r: DataType)
        ensures
            r == self@.datatype,
    {
        match self {
            Tensor::F32(_) => DataType::F32,
            Tensor::F64(_) => DataType::F64,
            Tensor::I32(_) => DataType::I32,
            Tensor::I8(_) => DataType::I8,
            Tensor::U8(_) => DataType::U8,
            Tensor::String(_) => DataType::String,
        }
    }

    /// The extents of the tensor.
    pub fn shape(&self) -> (r: &[usize])
        ensures
            r@ == self@.shape,
    {
        match self {
            Tensor::F32(a) => a.shape(),
            Tensor::F64(a) => a.shape(),
            Tensor::I32(a) => a.shape(),
            Tensor::I8(a) => a.shape(),
            Tensor::U8(a) => a.shape(),
            Tensor::String(a) => a.shape(),
        }
    }

    /// Whether two tensors have the same datatype, extents and elements.
    pub fn same(&self, other: &Tensor) -> (r: bool)
        ensures
            r == (self@ == other@),
    {
        match (self, other) {
            (Tensor::F32(a), Tensor::F32(b)) => {
                assert(a.elements().map_values(|x: F32| x.0 as int) =~= a.elements().map_values(
                    |x: F32| x.as_int(),
                ));
                assert(b.elements().map_values(|x: F32| x.0 as int) =~= b.elements().map_values(
                    |x: F32| x.as_int(),
                ));
                same_array(a, b)
            },
            (Tensor::F64(a), Tensor::F64(b)) => {
                assert(a.elements().map_values(|x: F64| x.0 as int) =~= a.elements().map_values(
                    |x: F64| x.as_int(),
                ));
                assert(b.elements().map_values(|x: F64| x.0 as int) =~= b.elements().map_values(
                    |x: F64| x.as_int(),
                ));
                same_array(a, b)
            },
            (Tensor::I32(a), Tensor::I32(b)) => {
                assert(a.elements().map_values(|x: i32| x as int) =~= a.elements().map_values(
                    |x: i32| x.as_int(),
                ));
                assert(b.elements().map_values(|x: i32| x as int) =~= b.elements().map_values(
                    |x: i32| x.as_int(),
                ));
                same_array(a, b)
            },
            (Tensor::I8(a), Tensor::I8(b)) => {
                assert(a.elements().map_values(|x: i8| x as int) =~= a.elements().map_values(
                    |x: i8| x.as_int(),
                ));
                assert(b.elements().map_values(|x: i8| x as int) =~= b.elements().map_values(
                    |x: i8| x.as_int(),
                ));
                same_array(a, b)
            },
            (Tensor::U8(a), Tensor::U8(b)) => {
                assert(a.elements().map_values(|x: u8| x as int) =~= a.elements().map_values(
                    |x: u8| x.as_int(),
                ));
                assert(b.elements().map_values(|x: u8| x as int) =~= b.elements().map_values(
                    |x: u8| x.as_int(),
                ));
                same_array(a, b)
            },
            (Tensor::String(a), Tensor::String(b)) => {
                assert(a.elements().map_values(|x: i8| x as int) =~= a.elements().map_values(
                    |x: i8| x.as_int(),
                ));
                assert(b.elements().map_values(|x: i8| x as int) =~= b.elements().map_values(
                    |x: i8| x.as_int(),
                ));
                same_array(a, b)
            },
            _ => false,
        }
    }

    /// A copy of the tensor.
    pub fn duplicate(&self) -> (r: Tensor)
        ensures
            r@ == self@,
    {
        match self {
            Tensor::F32(a) => Tensor::F32(a.duplicate()),
            Tensor::F64(a) => Tensor::F64(a.duplicate()),
            Tensor::I32(a) => Tensor::I32(a.duplicate()),
            Tensor::I8(a) => Tensor::I8(a.duplicate()),
            Tensor::U8(a) => Tensor::U8(a.duplicate()),
            Tensor::String(a) => Tensor::String(a.duplicate()),
        }
    }

    /// A tensor of 32-bit floating-point numbers, given by their bit patterns.
    pub fn f32s(shape: &[usize], values: &[F32]) -> (r: Result<Tensor, Error>)
        ensures
            tensor_built(r, DataType::F32, shape@, values@.map_values(|x: F32| x.0 as int)),
    {
        match Array::from_shape_vec(copy_of(shape), copy_of(values)) {
            Ok(a) => Ok(Tensor::F32(a)),
            Err(e) => Err(e),
        }
    }

    /// A tensor of 64-bit floating-point numbers, given by their bit patterns.
    pub fn f64s(shape: &[usize], values: &[F64]) -> (r: Result<Tensor, Error>)
        ensures
            tensor_built(r, DataType::F64, shape@, values@.map_values(|x: F64| x.0 as int)),
    {
        match Array::from_shape_vec(copy_of(shape), copy_of(values)) {
            Ok(a) => Ok(Tensor::F64(a)),
            Err(e) => Err(e),
        }
    }

    /// A tensor of 32-bit integers.
    pub fn i32s(shape: &[usize], values: &[i32]) -> (r: Result<Tensor, Error>)
        ensures
            tensor_built(r, DataType::I32, shape@, values@.map_values(|x: i32| x as int)),
    {
        match Array::from_shape_vec(copy_of(shape), copy_of(values)) {
            Ok(a) => Ok(Tensor::I32(a)),
            Err(e) => Err(e),
        }
    }

    /// A tensor of signed bytes.
    pub fn i8s(shape: &[usize], values: &[i8]) -> (r: Result<Tensor, Error>)
        ensures
            tensor_built(r, DataType::I8, shape@, values@.map_values(|x: i8| x as int)),
    {
        match Array::from_shape_vec(copy_of(shape), copy_of(values)) {
            Ok(a) => Ok(Tensor::I8(a)),
            Err(e) => Err(e),
        }
    }

    /// A tensor of unsigned bytes.
    pub fn u8s(shape: &[usize], values: &[u8]) -> (r: Result<Tensor, Error>)
        ensures
            tensor_built(r, DataType::U8, shape@, values@.map_values(|x: u8| x as int)),
    {
        match Array::from_shape_vec(copy_of(shape), copy_of(values)) {
            Ok(a) => Ok(Tensor::U8(a)),
            Err(e) => Err(e),
        }
    }

    /// The array of the tensor, where it holds 32-bit floating-point numbers.
    pub fn as_f32s(&self) -> (r: Option<&Array<F32>>)
        ensures
            r == match *self {
                Tensor::F32(a) => Some(&a),
                _ => None,
            },
    {
        match self {
            Tensor::F32(a) => Some(a),
            _ => None,
        }
    }

    /// The array of the tensor, where it holds 64-bit floating-point numbers.
    pub fn as_f64s(&self) -> (r: Option<&Array<F64>>)
        ensures
            r == match *self {
                Tensor::F64(a) => Some(&a),
                _ => None,
            },
    {
        match self {
            Tensor::F64(a) => Some(a),
            _ => None,
        }
    }

    /// The array of the tensor, where it holds 32-bit integers.
    pub fn as_i32s(&self) -> (r: Option<&Array<i32>>)
        ensures
            r == match *self {
                Tensor::I32(a) => Some(&a),
                _ => None,
            },
    {
        match self {
            Tensor::I32(a) => Some(a),
            _ => None,
        }
    }

    /// The array of the tensor, where it holds signed bytes.
    pub fn as_i8s(&self) -> (r: Option<&Array<i8>>)
        ensures
            r == match *self {
                Tensor::I8(a) => Some(&a),
                _ => None,
            },
    {
        match self {
            Tensor::I8(a) => Some(a),
            _ => None,
        }
    }

    /// The array of the tensor, where it holds unsigned bytes.
    pub fn as_u8s(&self) -> (r: Option<&Array<u8>>)
        ensures
            r == match *self {
                Tensor::U8(a) => Some(&a),
                _ => None,
            },
    {
        match self {
            Tensor::U8(a) => Some(a),
            _ => None,
        }
    }

    /// The array out of the tensor, where it holds 32-bit floating-point numbers.
    pub fn take_f32s(self) -> (r: Option<Array<F32>>)
        ensures
            r == match self {
                Tensor::F32(a) => Some(a),
                _ => None,
            },
    {
        match self {
            Tensor::F32(a) => Some(a),
            _ => None,
        }
    }

    /// The array out of the tensor, where it holds 64-bit floating-point numbers.
    pub fn take_f64s(self) -> (r: Option<Array<F64>>)
        ensures
            r == match self {
                Tensor::F64(a) => Some(a),
                _ => None,
            },
    {
        match self {
            Tensor::F64(a) => Some(a),
            _ => None,
        }
    }

    /// The array out of the tensor, where it holds 32-bit integers.
    pub fn take_i32s(self) -> (r: Option<Array<i32>>)
        ensures
            r == match self {
                Tensor::I32(a) => Some(a),
                _ => None,
            },
    {
        match self {
            Tensor::I32(a) => Some(a),
            _ => None,
        }
    }

    /// The array out of the tensor, where it holds signed bytes.
    pub fn take_i8s(self) -> (r: Option<Array<i8>>)
        ensures
            r == match self {
                Tensor::I8(a) => Some(a),
                _ => None,
            },
    {
        match self {
            Tensor::I8(a) => Some(a),
            _ => None,
        }
    }

    /// The array out of the tensor, where it holds unsigned bytes.
    pub fn take_u8s(self) -> (r: Option<Array<u8>>)
        ensures
            r == match self {
                Tensor::U8(a) => Some(a),
                _ => None,
            },
    {
        match self {
            Tensor::U8(a) => Some(a),
            _ => None,
        }
    }
}

/// What the constructors of tensors return: the tensor with this datatype,
/// these extents and these elements where the extents hold as many elements
/// as were given, and the error `Shape` where they do not.
pub open spec fn tensor_built(
    r: Result<Tensor, Error>,
    datatype: DataType,
    shape: Seq<usize>,
    data: Seq<int>,
) -> bool {
    match r {
        Ok(t) => t@ == (TensorModel { datatype, shape, data }) && data.len() == volume(shape),
        Err(e) => e == Error::Shape && data.len() != volume(shape),
    }
}

/// A type whose values can be made from values of `T`, where the value allows it.
pub trait CastFrom<T>: Sized {
    /// The value that `value` is cast to, if there is one.
    spec fn cast_of(value: T) -> Option<Self>;

    /// Casts `value`.
    fn cast_from(value: T) -> (r: Option<Self>)
        ensures
            r == Self::cast_of(value),
    ;
}

/// A type whose values can be cast to `U`, where the value allows it.
pub trait CastInto<U>: Sized {
    /// The value that this value is cast to, if there is one.
    spec fn cast_to(self) -> Option<U>;

    /// Casts the value.
    fn cast_into(self) -> (r: Option<U>)
        ensures
            r == self.cast_to(),
    ;
}

impl<T, U: CastFrom<T>> CastInto<U> for T {
    open spec fn cast_to(self) -> Option<U> {
        U::cast_of(self)
    }

    fn cast_into(self) -> (r: Option<U>) {
        U::cast_from(self)
    }
}

impl CastFrom<Tensor> for Array<F32> {
    open spec fn cast_of(value: Tensor) -> Option<Array<F32>> {
        match value {
            Tensor::F32(a) => Some(a),
            _ => None,
        }
    }

    fn cast_from(value: Tensor) -> (r: Option<Array<F32>>) {
        match value {
            Tensor::F32(a) => Some(a),
            _ => None,
        }
    }
}

impl CastFrom<Tensor> for Array<F64> {
    open spec fn cast_of(value: Tensor) -> Option<Array<F64>> {
        match value {
            Tensor::F64(a) => Some(a),
            _ => None,
        }
    }

    fn cast_from(value: Tensor) -> (r: Option<Array<F64>>) {
        match value {
            Tensor::F64(a) => Some(a),
            _ => None,
        }
    }
}

impl CastFrom<Tensor> for Array<i32> {
    open spec fn cast_of(value: Tensor) -> Option<Array<i32>> {
        match value {
            Tensor::I32(a) => Some(a),
            _ => None,
        }
    }

    fn cast_from(value: Tensor) -> (r: Option<Array<i32>>) {
        match value {
            Tensor::I32(a) => Some(a),
            _ => None,
        }
    }
}

impl CastFrom<Tensor> for Array<i8> {
    open spec fn cast_of(value: Tensor) -> Option<Array<i8>> {
        match value {
            Tensor::I8(a) => Some(a),
            _ => None,
        }
    }

    fn cast_from(value: Tensor) -> (r: Option<Array<i8>>) {
        match value {
            Tensor::I8(a) => Some(a),
            _ => None,
        }
    }
}

impl CastFrom<Tensor> for Array<u8> {
    open spec fn cast_of(value: Tensor) -> Option<Array<u8>> {
        match value {
            Tensor::U8(a) => Some(a),
            _ => None,
        }
    }

    fn cast_from(value: Tensor) -> (r: Option<Array<u8>>) {
        match value {
            Tensor::U8(a) => Some(a),
            _ => None,
        }
    }
}

} // verus!
