//! Tensors and datatypes as a serialized graph holds them, and their
//! conversion to and from the tensors of this library.

use vstd::prelude::*;
use crate::errors::Error;
use crate::tensor::{model_with, volume, Array, DataType, Tensor, TensorModel, F32, F64};

verus! {

/// The datatype of a serialized tensor.
#[derive(Debug, Clone, Copy, PartialEq, Eq, Structural)]
pub enum ProtoType {
    Float,
    Double,
    Int32,
    Uint8,
    Int8,
    String,
    /// A datatype that this library has no tensors for, by its number.
    Other(i32),
}

/// The serialized datatype with this number.
pub open spec fn prototype_numbered(n: i32) -> ProtoType {
    if n == 1 {
        ProtoType::Float
    } else if n == 2 {
        ProtoType::Double
    } else if n == 3 {
        ProtoType::Int32
    } else if n == 4 {
        ProtoType::Uint8
    } else if n == 6 {
        ProtoType::Int8
    } else if n == 7 {
        ProtoType::String
    } else {
        ProtoType::Other(n)
    }
}

impl ProtoType {
    /// The serialized datatype with this number.
    pub fn from_number(n: i32) -> (r: ProtoType)
        ensures
            r == prototype_numbered(n),
    {
        if n == 1 {
            ProtoType::Float
        } else if n == 2 {
            ProtoType::Double
        } else if n == 3 {
            ProtoType::Int32
        } else if n == 4 {
            ProtoType::Uint8
        } else if n == 6 {
            ProtoType::Int8
        } else if n == 7 {
            ProtoType::String
        } else {
            ProtoType::Other(n)
        }
    }

    /// The number of the serialized datatype.
    pub fn number(&self) -> (r: i32)
        ensures
            !(*self is Other) ==> prototype_numbered(r) == *self,
            *self matches ProtoType::Other(n) ==> r == n,
    {
        match self {
            ProtoType::Float => 1,
            ProtoType::Double => 2,
            ProtoType::Int32 => 3,
            ProtoType::Uint8 => 4,
            ProtoType::Int8 => 6,
            ProtoType::String => 7,
            ProtoType::Other(n) => *n,
        }
    }
}

/// The datatype of this library that a serialized datatype stands for.
pub open spec fn datatype_of(t: ProtoType) -> Result<DataType, Error> {
    match t {
        ProtoType::Uint8 => Ok(DataType::U8),
        ProtoType::Int8 => Ok(DataType::I8),
        ProtoType::Int32 => Ok(DataType::I32),
        ProtoType::Float => Ok(DataType::F32),
        ProtoType::Double => Ok(DataType::F64),
        ProtoType::String => Ok(DataType::String),
        ProtoType::Other(_) => Err(Error::UnsupportedType),
    }
}

/// The serialized datatype that stands for a datatype of this library.
pub open spec fn prototype_of(t: DataType) -> ProtoType {
    match t {
        DataType::U8 => ProtoType::Uint8,
        DataType::I8 => ProtoType::Int8,
        DataType::I32 => ProtoType::Int32,
        DataType::F32 => ProtoType::Float,
        DataType::F64 => ProtoType::Double,
        DataType::String => ProtoType::String,
    }
}

impl DataType {
    /// The datatype that a serialized datatype stands for;
    /// `UnsupportedType` where this library has no tensors for it.
    pub fn from_pb(t: &ProtoType) -> (r: Result<DataType, Error>)
        ensures
            r == datatype_of(*t),
    {
        match t {
            ProtoType::Uint8 => Ok(DataType::U8),
            ProtoType::Int8 => Ok(DataType::I8),
            ProtoType::Int32 => Ok(DataType::I32),
            ProtoType::Float => Ok(DataType::F32),
            ProtoType::Double => Ok(DataType::F64),
            ProtoType::String => Ok(DataType::String),
            ProtoType::Other(_) => Err(Error::UnsupportedType),
        }
    }

    /// The serialized datatype that stands for this datatype.
    pub fn to_pb(&self) -> (r: ProtoType)
        ensures
            r == prototype_of(*self),
    {
        match self {
            DataType::U8 => ProtoType::Uint8,
            DataType::I8 => ProtoType::Int8,
            DataType::I32 => ProtoType::Int32,
            DataType::F32 => ProtoType::Float,
            DataType::F64 => ProtoType::Double,
            DataType::String => ProtoType::String,
        }
    }
}

/// A datatype that was serialized stands for itself.
pub proof fn lemma_datatype_round_trip(t: DataType)
    ensures
        datatype_of(prototype_of(t)) == Ok::<_, Error>(t),
{
}

/// A serialized tensor: its datatype, its extents, and its elements, either
/// as bytes (`tensor_content`, four little-endian bytes for each element)
/// or, where there are no bytes, in the list of its datatype.
#[derive(Debug, PartialEq, Eq)]
pub struct TensorProto {
    pub dtype: ProtoType,
    pub dims: Vec<i64>,
    pub tensor_content: Vec<u8>,
    pub float_val: Vec<F32>,
    pub double_val: Vec<F64>,
    pub int_val: Vec<i32>,
}

/// The mathematical value of a serialized tensor: floating-point numbers
/// are held as their bit patterns.
pub struct ProtoModel {
    pub dtype: ProtoType,
    pub dims: Seq<i64>,
    pub content: Seq<u8>,
    pub float_val: Seq<int>,
    pub double_val: Seq<int>,
    pub int_val: Seq<int>,
}

impl View for TensorProto {
    type V = ProtoModel;

    open spec fn view(&self) -> ProtoModel {
        ProtoModel {
            dtype: self.dtype,
            dims: self.dims@,
            content: self.tensor_content@,
            float_val: self.float_val@.map_values(|x: F32| x.0 as int),
            double_val: self.double_val@.map_values(|x: F64| x.0 as int),
            int_val: self.int_val@.map_values(|x: i32| x as int),
        }
    }
}

/// The number that the four bytes from `4 * i` on write, the lowest byte first.
pub open spec fn word_at(content: Seq<u8>, i: int) -> int {
    content[4 * i] + 256 * content[4 * i + 1] + 65536 * content[4 * i + 2] + 16777216 * content[4
        * i + 3]
}

/// The numbers that bytes write, four bytes each; bytes that are left over are not read.
pub open spec fn words_of(content: Seq<u8>) -> Seq<int> {
    Seq::new((content.len() / 4) as nat, |i: int| word_at(content, i))
}

/// The signed 32-bit integer with the bit pattern `w`.
pub open spec fn signed(w: int) -> int {
    if w >= 0x8000_0000 {
        w - 0x1_0000_0000
    } else {
        w
    }
}

/// The extents that a serialized tensor lists, where none is negative or
/// too large for this machine.
pub open spec fn extents_of(dims: Seq<i64>) -> Option<Seq<usize>> {
    if forall|i: int| 0 <= i < dims.len() ==> 0 <= #[trigger] dims[i] <= usize::MAX {
        Some(dims.map_values(|d: i64| d as usize))
    } else {
        None
    }
}

/// The elements of a serialized tensor, each as the integer that stands for
/// it: read from its bytes where it has bytes, and from the list of its
/// datatype otherwise. `UnsupportedType` where the datatype is neither
/// 32-bit floating-point numbers nor 32-bit integers.
pub open spec fn proto_elements(p: ProtoModel) -> Result<Seq<int>, Error> {
    if p.content.len() != 0 {
        match p.dtype {
            ProtoType::Float => Ok(words_of(p.content)),
            ProtoType::Int32 => Ok(words_of(p.content).map_values(|w: int| signed(w))),
            _ => Err(Error::UnsupportedType),
        }
    } else {
        match p.dtype {
            ProtoType::Float => Ok(p.float_val),
            ProtoType::Int32 => Ok(p.int_val),
            _ => Err(Error::UnsupportedType),
        }
    }
}

/// The tensor that a serialized tensor stands for. `Shape` where its
/// extents do not hold as many elements as it has.
pub open spec fn tensor_of_proto(p: ProtoModel) -> Result<TensorModel, Error> {
    match proto_elements(p) {
        Err(e) => Err(e),
        Ok(data) => match extents_of(p.dims) {
            None => Err(Error::Shape),
            Some(shape) => if data.len() == volume(shape) {
                Ok(
                    model_with(
                        if p.dtype == ProtoType::Float {
                            DataType::F32
                        } else {
                            DataType::I32
                        },
                        shape,
                        data,
                    ),
                )
            } else {
                Err(Error::Shape)
            },
        },
    }
}

/// The serialized tensor that stands for a tensor: its elements are in the
/// list of its datatype, and it has no bytes. `Overflow` where an extent is
/// too large to be written, `UnsupportedType` where the datatype is none of
/// 32-bit and 64-bit floating-point numbers and 32-bit integers.
pub open spec fn proto_of_tensor(t: TensorModel) -> Result<ProtoModel, Error> {
    if exists|i: int| 0 <= i < t.shape.len() && #[trigger] t.shape[i] > i64::MAX {
        Err(Error::Overflow)
    } else {
        let dims = t.shape.map_values(|d: usize| d as i64);
        let none = Seq::<int>::empty();
        match t.datatype {
            DataType::F32 => Ok(
                ProtoModel {
                    dtype: ProtoType::Float,
                    dims,
                    content: Seq::empty(),
                    float_val: t.data,
                    double_val: none,
                    int_val: none,
                },
            ),
            DataType::F64 => Ok(
                ProtoModel {
                    dtype: ProtoType::Double,
                    dims,
                    content: Seq::empty(),
                    float_val: none,
                    double_val: t.data,
                    int_val: none,
                },
            ),
            DataType::I32 => Ok(
                ProtoModel {
                    dtype: ProtoType::Int32,
                    dims,
                    content: Seq::empty(),
                    float_val: none,
                    double_val: none,
                    int_val: t.data,
                },
            ),
            _ => Err(Error::UnsupportedType),
        }
    }
}

/// A serialized tensor that was read and is written again keeps its
/// datatype and its extents, and, where its elements stood in the list of
/// its datatype, its elements.
pub proof fn lemma_proto_round_trip(p: ProtoModel)
    requires
        tensor_of_proto(p) is Ok,
    ensures
        proto_of_tensor(tensor_of_proto(p).unwrap()) is Ok,
        proto_of_tensor(tensor_of_proto(p).unwrap()).unwrap().dtype == p.dtype,
        proto_of_tensor(tensor_of_proto(p).unwrap()).unwrap().dims == p.dims,
        p.content.len() == 0 && p.dtype == ProtoType::Float ==> proto_of_tensor(
            tensor_of_proto(p).unwrap(),
        ).unwrap().float_val == p.float_val,
        p.content.len() == 0 && p.dtype == ProtoType::Int32 ==> proto_of_tensor(
            tensor_of_proto(p).unwrap(),
        ).unwrap().int_val == p.int_val,
{
    let t = tensor_of_proto(p).unwrap();
    let shape = extents_of(p.dims).unwrap();
    assert(t.shape == shape);
    assert forall|i: int| 0 <= i < shape.len() implies #[trigger] shape[i] <= i64::MAX by {
        assert(shape[i] == p.dims[i] as usize);
    }
    assert(t.shape.map_values(|d: usize| d as i64) =~= p.dims);
}

/// A tensor of 32-bit floating-point numbers or 32-bit integers that was
/// serialized and is read again is the same tensor.
pub proof fn lemma_tensor_round_trip(t: TensorModel)
    requires
        t.datatype == DataType::F32 || t.datatype == DataType::I32,
        t.data.len() == volume(t.shape),
        proto_of_tensor(t) is Ok,
    ensures
        tensor_of_proto(proto_of_tensor(t).unwrap()) == Ok::<_, Error>(t),
{
    let p = proto_of_tensor(t).unwrap();
    assert forall|i: int| 0 <= i < p.dims.len() implies 0 <= #[trigger] p.dims[i] <= usize::MAX by {
        assert(p.dims[i] == t.shape[i] as i64);
        assert(!(t.shape[i] > i64::MAX));
    }
    assert(p.dims.map_values(|d: i64| d as usize) =~= t.shape);
}

/// The 32-bit words that bytes write, four little-endian bytes each.
fn words(content: &[u8]) -> (r: Vec<u32>)
    ensures
        r@.map_values(|w: u32| w as int) == words_of(content@),
{
    let len = content.len();
    let n = len / 4;
    let mut out: Vec<u32> = Vec::new();
    let mut i: usize = 0;
    while i < n
        invariant
            0 <= i <= n,
            len == content@.len(),
            n == len / 4,
            out@.len() == i,
            forall|j: int| 0 <= j < i ==> (#[trigger] out@[j]) as int == word_at(content@, j),
        decreases n - i,
    {
        let b0: u32 = content[4 * i] as u32;
        let b1: u32 = content[4 * i + 1] as u32;
        let b2: u32 = content[4 * i + 2] as u32;
        let b3: u32 = content[4 * i + 3] as u32;
        out.push(b0 + 256 * b1 + 65536 * b2 + 16777216 * b3);
        i += 1;
    }
    assert(out@.map_values(|w: u32| w as int) =~= words_of(content@));
    out
}

/// The signed integer with the bit pattern of a word.
fn to_signed(w: u32) -> (r: i32)
    ensures
        r as int == signed(w as int),
{
    if w >= 0x8000_0000 {
        let x: i64 = w as i64 - 0x1_0000_0000;
        x as i32
    } else {
        w as i32
    }
}

/// The extents that a serialized tensor lists.
fn extents(dims: &Vec<i64>) -> (r: Option<Vec<usize>>)
    ensures
        match r {
            Some(v) => extents_of(dims@) == Some(v@),
            None => extents_of(dims@) is None,
        },
{
    let mut out: Vec<usize> = Vec::new();
    let mut i: usize = 0;
    while i < dims.len()
        invariant
            0 <= i <= dims@.len(),
            out@.len() == i,
            forall|j: int| 0 <= j < i ==> 0 <= #[trigger] dims@[j] <= usize::MAX,
            forall|j: int| 0 <= j < i ==> (#[trigger] out@[j]) == dims@[j] as usize,
        decreases dims@.len() - i,
    {
        let d = dims[i];
        if d < 0 || d as u64 > usize::MAX as u64 {
            assert(!(0 <= dims@[i as int] <= usize::MAX));
            return None;
        }
        out.push(d as usize);
        i += 1;
    }
    assert(out@ =~= dims@.map_values(|d: i64| d as usize));
    Some(out)
}

impl Tensor {
    /// The array with these extents and elements. `Shape` where the extents
    /// do not hold as many elements as there are.
    pub fn from_content<T: Copy>(dims: Vec<usize>, content: &[T]) -> (r: Result<Array<T>, Error>)
        ensures
            match r {
                Ok(a) => a.extents() == dims@ && a.elements() == content@ && content@.len()
                    == volume(dims@),
                Err(e) => e == Error::Shape && content@.len() != volume(dims@),
            },
    {
        Array::from_shape_vec(dims, crate::tensor::copy_of(content))
    }

    /// The tensor that a serialized tensor stands for: see `tensor_of_proto`.
    pub fn from_pb(t: &TensorProto) -> (r: Result<Tensor, Error>)
        ensures
            match r {
                Ok(tensor) => tensor_of_proto(t@) == Ok::<_, Error>(tensor@),
                Err(e) => tensor_of_proto(t@) == Err::<TensorModel, _>(e),
            },
    {
        if t.tensor_content.len() != 0 {
            match t.dtype {
                ProtoType::Float => {
                    let w = words(t.tensor_content.as_slice());
                    let mut data: Vec<F32> = Vec::new();
                    let mut i: usize = 0;
                    while i < w.len()
                        invariant
                            0 <= i <= w@.len(),
                            data@.len() == i,
                            forall|j: int| 0 <= j < i ==> (#[trigger] data@[j]).0 == w@[j],
                        decreases w@.len() - i,
                    {
                        data.push(F32(w[i]));
                        i += 1;
                    }
                    assert(data@.map_values(|x: F32| x.0 as int) =~= w@.map_values(
                        |w: u32| w as int,
                    ));
                    match extents(&t.dims) {
                        None => Err(Error::Shape),
                        Some(dims) => match Self::from_content(dims, data.as_slice()) {
                            Ok(a) => Ok(Tensor::F32(a)),
                            Err(e) => Err(e),
                        },
                    }
                },
                ProtoType::Int32 => {
                    let w = words(t.tensor_content.as_slice());
                    let mut data: Vec<i32> = Vec::new();
                    let mut i: usize = 0;
                    while i < w.len()
                        invariant
                            0 <= i <= w@.len(),
                            data@.len() == i,
                            forall|j: int|
                                0 <= j < i ==> (#[trigger] data@[j]) as int == signed(w@[j] as int),
                        decreases w@.len() - i,
                    {
                        data.push(to_signed(w[i]));
                        i += 1;
                    }
                    assert(data@.map_values(|x: i32| x as int) =~= w@.map_values(
                        |w: u32| w as int,
                    ).map_values(|w: int| signed(w)));
                    match extents(&t.dims) {
                        None => Err(Error::Shape),
                        Some(dims) => match Self::from_content(dims, data.as_slice()) {
                            Ok(a) => Ok(Tensor::I32(a)),
                            Err(e) => Err(e),
                        },
                    }
                },
                _ => Err(Error::UnsupportedType),
            }
        } else {
            match t.dtype {
                ProtoType::Int32 => match extents(&t.dims) {
                    None => Err(Error::Shape),
                    Some(dims) => match Self::from_content(dims, t.int_val.as_slice()) {
                        Ok(a) => Ok(Tensor::I32(a)),
                        Err(e) => Err(e),
                    },
                },
                ProtoType::Float => match extents(&t.dims) {
                    None => Err(Error::Shape),
                    Some(dims) => match Self::from_content(dims, t.float_val.as_slice()) {
                        Ok(a) => Ok(Tensor::F32(a)),
                        Err(e) => Err(e),
                    },
                },
                _ => Err(Error::UnsupportedType),
            }
        }
    }

    /// The serialized tensor that stands for this tensor: see `proto_of_tensor`.
    pub fn to_pb(&self) -> (r: Result<TensorProto, Error>)
        ensures
            match r {
                Ok(p) => proto_of_tensor(self@) == Ok::<_, Error>(p@),
                Err(e) => proto_of_tensor(self@) == Err::<ProtoModel, _>(e),
            },
    {
        let shape = self.shape();
        let mut dims: Vec<i64> = Vec::new();
        let mut i: usize = 0;
        while i < shape.len()
            invariant
                0 <= i <= shape@.len(),
                shape@ == self@.shape,
                dims@.len() == i,
                forall|j: int| 0 <= j < i ==> (#[trigger] shape@[j]) <= i64::MAX,
                forall|j: int| 0 <= j < i ==> (#[trigger] dims@[j]) == shape@[j] as i64,
            decreases shape@.len() - i,
        {
            let d = shape[i];
            if d as u64 > i64::MAX as u64 {
                assert(self@.shape[i as int] > i64::MAX);
                return Err(Error::Overflow);
            }
            dims.push(d as i64);
            i += 1;
        }
        assert(dims@ =~= self@.shape.map_values(|d: usize| d as i64));
        assert(!exists|i: int| 0 <= i < self@.shape.len() && #[trigger] self@.shape[i] > i64::MAX);
        match self {
            Tensor::F32(a) => {
                let p = TensorProto {
                    dtype: ProtoType::Float,
                    dims,
                    tensor_content: Vec::new(),
                    float_val: crate::tensor::copy_of(a.as_slice()),
                    double_val: Vec::new(),
                    int_val: Vec::new(),
                };
                assert(p@.double_val =~= Seq::<int>::empty());
                assert(p@.int_val =~= Seq::<int>::empty());
                assert(p@.content =~= Seq::<u8>::empty());
                Ok(p)
            },
            Tensor::F64(a) => {
                let p = TensorProto {
                    dtype: ProtoType::Double,
                    dims,
                    tensor_content: Vec::new(),
                    float_val: Vec::new(),
                    double_val: crate::tensor::copy_of(a.as_slice()),
                    int_val: Vec::new(),
                };
                assert(p@.float_val =~= Seq::<int>::empty());
                assert(p@.int_val =~= Seq::<int>::empty());
                assert(p@.content =~= Seq::<u8>::empty());
                Ok(p)
            },
            Tensor::I32(a) => {
                let p = TensorProto {
                    dtype: ProtoType::Int32,
                    dims,
                    tensor_content: Vec::new(),
                    float_val: Vec::new(),
                    double_val: Vec::new(),
                    int_val: crate::tensor::copy_of(a.as_slice()),
                };
                assert(p@.float_val =~= Seq::<int>::empty());
                assert(p@.double_val =~= Seq::<int>::empty());
                assert(p@.content =~= Seq::<u8>::empty());
                Ok(p)
            },
            _ => Err(Error::UnsupportedType),
        }
    }
}

} // verus!
