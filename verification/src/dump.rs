//! Tensors written out for a reader.

use vstd::prelude::*;
use vstd::string::*;
use crate::arrays::{fits, holdable};
use crate::errors::Error;
use crate::path_text::{digits_of, integer_text, push_digits, push_integer};
use crate::tensor::{volume, DataType, Tensor, TensorModel};

verus! {

/// How the formatting of arrays writes an array of 32-bit integers with
/// these extents and elements for debugging.
pub uninterp spec fn i32_array_text(shape: Seq<usize>, data: Seq<i32>) -> Seq<char>;

/// How the formatting of arrays writes an array of bytes with these extents
/// and elements for debugging.
pub uninterp spec fn u8_array_text(shape: Seq<usize>, data: Seq<u8>) -> Seq<char>;

/// The text of `{:?}` for an `ndarray::ArrayViewD<i32>` of these extents
/// over these elements. Nothing is claimed of the text but that it is the
/// same for the same array.
#[verifier::external_body]
fn i32_array_debug(shape: &[usize], data: &[i32]) -> (r: String)
    requires
        holdable(shape@),
        data@.len() == volume(shape@),
    ensures
        r@ == i32_array_text(shape@, data@),
{
    format!("{:?}", ndarray::ArrayViewD::from_shape(ndarray::IxDyn(shape), data).unwrap())
}

/// The text of `{:?}` for an `ndarray::ArrayViewD<u8>` of these extents over
/// these elements. Nothing is claimed of the text but that it is the same
/// for the same array.
#[verifier::external_body]
fn u8_array_debug(shape: &[usize], data: &[u8]) -> (r: String)
    requires
        holdable(shape@),
        data@.len() == volume(shape@),
    ensures
        r@ == u8_array_text(shape@, data@),
{
    format!("{:?}", ndarray::ArrayViewD::from_shape(ndarray::IxDyn(shape), data).unwrap())
}

/// The name of a datatype.
pub open spec fn datatype_text(t: DataType) -> Seq<char> {
    match t {
        DataType::U8 => "U8"@,
        DataType::I8 => "I8"@,
        DataType::I32 => "I32"@,
        DataType::F32 => "F32"@,
        DataType::F64 => "F64"@,
        DataType::String => "String"@,
    }
}

/// The numbers of a list, with a comma and a space between them.
pub open spec fn numbers_text(items: Seq<usize>) -> Seq<char>
    decreases items.len(),
{
    if items.len() == 0 {
        Seq::empty()
    } else if items.len() == 1 {
        digits_of(items[0] as nat)
    } else {
        numbers_text(items.drop_last()) + ", "@ + digits_of(items.last() as nat)
    }
}

/// A list of numbers in square brackets.
pub open spec fn list_text(items: Seq<usize>) -> Seq<char> {
    "["@ + numbers_text(items) + "]"@
}

/// A text with a space in the place of each line break.
pub open spec fn spaced(s: Seq<char>) -> Seq<char> {
    s.map_values(
        |c: char|
            if c == '\n' {
                ' '
            } else {
                c
            },
    )
}

/// What writes a tensor out: a tensor without axes as `Scalar`, its
/// datatype and its element; a tensor of more than eight elements as its
/// extents and its datatype; and any other as its datatype and its array, on
/// one line. `UnsupportedType` where a tensor whose elements are written
/// holds neither 32-bit integers nor bytes (floating-point numbers are held
/// here as bit patterns, and writing them out is left to the caller);
/// `Shape` where its extents are beyond what an array can have.
pub open spec fn dump_text(t: TensorModel) -> Result<Seq<char>, Error> {
    if t.shape.len() == 0 {
        match t.datatype {
            DataType::I32 => Ok("Scalar I32 "@ + integer_text(t.data[0])),
            DataType::U8 => Ok("Scalar U8 "@ + integer_text(t.data[0])),
            _ => Err(Error::UnsupportedType),
        }
    } else if volume(t.shape) > 8 {
        Ok("shape:"@ + list_text(t.shape) + " "@ + datatype_text(t.datatype))
    } else {
        match t.datatype {
            DataType::I32 => if holdable(t.shape) {
                Ok(
                    spaced(
                        "I32 "@ + i32_array_text(t.shape, t.data.map_values(|x: int| x as i32)),
                    ),
                )
            } else {
                Err(Error::Shape)
            },
            DataType::U8 => if holdable(t.shape) {
                Ok(spaced("U8 "@ + u8_array_text(t.shape, t.data.map_values(|x: int| x as u8))))
            } else {
                Err(Error::Shape)
            },
            _ => Err(Error::UnsupportedType),
        }
    }
}

/// The name of a datatype.
pub fn datatype_name(t: DataType) -> (r: &'static str)
    ensures
        r@ == datatype_text(t),
{
    match t {
        DataType::U8 => "U8",
        DataType::I8 => "I8",
        DataType::I32 => "I32",
        DataType::F32 => "F32",
        DataType::F64 => "F64",
        DataType::String => "String",
    }
}

/// Appends a list of numbers in square brackets.
fn push_list(out: &mut String, items: &[usize])
    ensures
        final(out)@ == old(out)@ + list_text(items@),
{
    out.append("[");
    let ghost start = out@;
    let mut i: usize = 0;
    assert(items@.take(0) =~= Seq::<usize>::empty());
    assert(out@ =~= start + numbers_text(items@.take(0)));
    while i < items.len()
        invariant
            0 <= i <= items@.len(),
            out@ == start + numbers_text(items@.take(i as int)),
        decreases items@.len() - i,
    {
        if i > 0 {
            out.append(", ");
        }
        push_digits(out, items[i] as u64);
        proof {
            assert(items@.take(i + 1).drop_last() =~= items@.take(i as int));
            assert(items@.take(i + 1).last() == items@[i as int]);
            if i == 0 {
                assert(items@.take(1)[0] == items@[0]);
            }
            assert(out@ =~= start + numbers_text(items@.take(i + 1)));
        }
        i += 1;
    }
    assert(items@.take(items@.len() as int) =~= items@);
    out.append("]");
    assert(out@ =~= old(out)@ + list_text(items@));
}

/// A text with a space in the place of each line break.
fn on_one_line(s: &str) -> (r: String)
    ensures
        r@ == spaced(s@),
{
    proof {
        reveal_strlit(" ");
    }
    let n = s.unicode_len();
    let mut out = String::new();
    let mut i: usize = 0;
    assert(out@ =~= spaced(s@.take(0)));
    while i < n
        invariant
            0 <= i <= n,
            n == s@.len(),
            " "@ == seq![' '],
            out@ == spaced(s@.take(i as int)),
        decreases n - i,
    {
        let c = s.get_char(i);
        if c == '\n' {
            out.append(" ");
        } else {
            out.append(s.substring_char(i, i + 1));
        }
        assert(out@ =~= spaced(s@.take(i + 1)));
        i += 1;
    }
    assert(s@.take(n as int) =~= s@);
    out
}

impl Tensor {
    /// Writes the tensor out: see `dump_text`.
    pub fn partial_dump(&self, _single_line: bool) -> (r: Result<String, Error>)
        ensures
            match r {
                Ok(s) => dump_text(self@) == Ok::<_, Error>(s@),
                Err(e) => dump_text(self@) == Err::<Seq<char>, _>(e),
            },
    {
        if self.shape().len() == 0 {
            match self {
                Tensor::I32(a) => {
                    let n = a.len();
                    proof {
                        reveal_with_fuel(volume, 1);
                    }
                    let mut out = String::from_str("Scalar I32 ");
                    push_integer(&mut out, a.as_slice()[0] as isize);
                    Ok(out)
                },
                Tensor::U8(a) => {
                    let n = a.len();
                    proof {
                        reveal_with_fuel(volume, 1);
                    }
                    let mut out = String::from_str("Scalar U8 ");
                    push_integer(&mut out, a.as_slice()[0] as isize);
                    Ok(out)
                },
                _ => Err(Error::UnsupportedType),
            }
        } else {
            let count = match self {
                Tensor::F32(a) => a.len(),
                Tensor::F64(a) => a.len(),
                Tensor::I32(a) => a.len(),
                Tensor::I8(a) => a.len(),
                Tensor::U8(a) => a.len(),
                Tensor::String(a) => a.len(),
            };
            if count > 8 {
                let mut out = String::from_str("shape:");
                push_list(&mut out, self.shape());
                out.append(" ");
                out.append(datatype_name(self.datatype()));
                Ok(out)
            } else {
                match self {
                    Tensor::I32(a) => {
                        if !fits(a.shape()) {
                            return Err(Error::Shape);
                        }
                        let n = a.len();
                        let text = String::from_str("I32 ").concat(
                            i32_array_debug(a.shape(), a.as_slice()).as_str(),
                        );
                        assert(a.elements() =~= self@.data.map_values(|x: int| x as i32));
                        Ok(on_one_line(text.as_str()))
                    },
                    Tensor::U8(a) => {
                        if !fits(a.shape()) {
                            return Err(Error::Shape);
                        }
                        let n = a.len();
                        let text = String::from_str("U8 ").concat(
                            u8_array_debug(a.shape(), a.as_slice()).as_str(),
                        );
                        assert(a.elements() =~= self@.data.map_values(|x: int| x as u8));
                        Ok(on_one_line(text.as_str()))
                    },
                    _ => Err(Error::UnsupportedType),
                }
            }
        }
    }
}

} // verus!
