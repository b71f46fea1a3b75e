//! Proxies: handles on the parts of the facts of a context, each of which
//! stands for the path of its part.

use vstd::prelude::*;
use crate::expressions::{ExpModel, IntoExpression, VariableExpression};
use crate::path::Path;

verus! {

/// The path `base` with one more component.
fn extended(base: &Path, component: isize) -> (r: Path)
    ensures
        r@ == base@.push(component),
{
    let mut v = base.duplicate().0;
    v.push(component);
    Path::from(v)
}

/// A handle on an integer: the number of facts, or a rank.
#[derive(Debug)]
pub struct IntProxy {
    path: Path,
}

/// A handle on the datatype of a tensor.
#[derive(Debug)]
pub struct TypeProxy {
    path: Path,
}

/// A handle on one dimension of the shape of a tensor.
#[derive(Debug)]
pub struct DimProxy {
    path: Path,
}

/// A handle on the shape of a tensor.
#[derive(Debug)]
pub struct ShapeProxy {
    path: Path,
}

/// A handle on the value of a tensor, or on a part of it.
#[derive(Debug)]
pub struct ValueProxy {
    path: Path,
}

/// A handle on a tensor.
#[derive(Debug)]
pub struct TensorProxy {
    pub datatype: TypeProxy,
    pub rank: IntProxy,
    pub shape: ShapeProxy,
    pub value: ValueProxy,
    pub path: Path,
}

/// A handle on the inputs or on the outputs of an operator.
#[derive(Debug)]
pub struct TensorsProxy {
    pub len: IntProxy,
    pub path: Path,
}

/// A proxy that can stand in a rule.
pub trait ComparableProxy {
    /// The path of the proxy.
    spec fn path_spec(&self) -> Seq<isize>;

    /// The path of the proxy.
    fn get_path(&self) -> (r: &Path)
        ensures
            r@ == self.path_spec(),
    ;
}

impl ComparableProxy for IntProxy {
    closed spec fn path_spec(&self) -> Seq<isize> {
        self.path@
    }

    fn get_path(&self) -> (r: &Path) {
        &self.path
    }
}

impl ComparableProxy for TypeProxy {
    closed spec fn path_spec(&self) -> Seq<isize> {
        self.path@
    }

    fn get_path(&self) -> (r: &Path) {
        &self.path
    }
}

impl ComparableProxy for DimProxy {
    closed spec fn path_spec(&self) -> Seq<isize> {
        self.path@
    }

    fn get_path(&self) -> (r: &Path) {
        &self.path
    }
}

impl ComparableProxy for ShapeProxy {
    closed spec fn path_spec(&self) -> Seq<isize> {
        self.path@
    }

    fn get_path(&self) -> (r: &Path) {
        &self.path
    }
}

impl ComparableProxy for ValueProxy {
    closed spec fn path_spec(&self) -> Seq<isize> {
        self.path@
    }

    fn get_path(&self) -> (r: &Path) {
        &self.path
    }
}

impl TensorsProxy {
    /// The handle on the facts at `path`: `[0]` for the inputs, `[1]` for the outputs.
    pub fn new(path: Vec<isize>) -> (r: TensorsProxy)
        ensures
            r.path_spec() == path@,
            r.len.path_spec() == path@.push(-1isize),
    {
        let path = Path::from(path);
        TensorsProxy { len: IntProxy { path: extended(&path, -1) }, path }
    }

    /// The path of the proxy.
    pub open spec fn path_spec(&self) -> Seq<isize> {
        self.path@
    }

    /// The handle on the tensor at position `i`.
    pub fn at(&self, i: usize) -> (r: TensorProxy)
        requires
            i <= isize::MAX,
        ensures
            r.path_spec() == self.path_spec().push(i as isize),
            r.datatype.path_spec() == r.path_spec().push(0isize),
            r.rank.path_spec() == r.path_spec().push(1isize),
            r.shape.path_spec() == r.path_spec().push(2isize),
            r.value.path_spec() == r.path_spec().push(3isize),
    {
        let path = extended(&self.path, i as isize);
        TensorProxy {
            datatype: TypeProxy { path: extended(&path, 0) },
            rank: IntProxy { path: extended(&path, 1) },
            shape: ShapeProxy { path: extended(&path, 2) },
            value: ValueProxy { path: extended(&path, 3) },
            path,
        }
    }
}

impl TensorProxy {
    /// The path of the proxy.
    pub open spec fn path_spec(&self) -> Seq<isize> {
        self.path@
    }
}

impl ShapeProxy {
    /// The handle on the dimension at position `k`.
    pub fn dim(&self, k: usize) -> (r: DimProxy)
        requires
            k <= isize::MAX,
        ensures
            r.path_spec() == self.path_spec().push(k as isize),
    {
        DimProxy { path: extended(&self.path, k as isize) }
    }
}

impl ValueProxy {
    /// The handle on the part of the value at position `k` of its first axis.
    pub fn at(&self, k: usize) -> (r: ValueProxy)
        requires
            k <= isize::MAX,
        ensures
            r.path_spec() == self.path_spec().push(k as isize),
    {
        ValueProxy { path: extended(&self.path, k as isize) }
    }
}

impl<'a> IntoExpression<VariableExpression> for &'a IntProxy {
    open spec fn expr(self) -> ExpModel {
        ExpModel::Variable(self.path_spec())
    }

    fn into_expr(self) -> (e: VariableExpression) {
        VariableExpression(self.get_path().duplicate())
    }
}

impl<'a> IntoExpression<VariableExpression> for &'a TypeProxy {
    open spec fn expr(self) -> ExpModel {
        ExpModel::Variable(self.path_spec())
    }

    fn into_expr(self) -> (e: VariableExpression) {
        VariableExpression(self.get_path().duplicate())
    }
}

impl<'a> IntoExpression<VariableExpression> for &'a DimProxy {
    open spec fn expr(self) -> ExpModel {
        ExpModel::Variable(self.path_spec())
    }

    fn into_expr(self) -> (e: VariableExpression) {
        VariableExpression(self.get_path().duplicate())
    }
}

impl<'a> IntoExpression<VariableExpression> for &'a ShapeProxy {
    open spec fn expr(self) -> ExpModel {
        ExpModel::Variable(self.path_spec())
    }

    fn into_expr(self) -> (e: VariableExpression) {
        VariableExpression(self.get_path().duplicate())
    }
}

impl<'a> IntoExpression<VariableExpression> for &'a ValueProxy {
    open spec fn expr(self) -> ExpModel {
        ExpModel::Variable(self.path_spec())
    }

    fn into_expr(self) -> (e: VariableExpression) {
        VariableExpression(self.get_path().duplicate())
    }
}

} // verus!
