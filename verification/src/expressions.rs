//! Expressions: the terms that rules relate. An expression reads a fact from
//! a context and unifies a fact back into it.

use vstd::prelude::*;
use crate::arith::{divisible, exact_div, quotient};
use crate::context::{Context, ContextModel};
use crate::errors::Error;
use crate::facts::{DimFact, IntFact, ShapeFact, ShapeModel, TypeFact, ValueFact, ValueModel};
use crate::path::{get_at, read_as, set_at, wrote, Path};
use crate::tensor::DataType;

verus! {

/// A fact of any of the kinds that an expression can produce.
#[derive(Debug, PartialEq, Eq)]
pub enum Wrapped {
    Int(IntFact),
    Dim(DimFact),
    Type(TypeFact),
    Shape(ShapeFact),
    Value(ValueFact),
}

/// The mathematical value of a `Wrapped`.
pub enum WrappedModel {
    Int(IntFact),
    Dim(DimFact),
    Type(TypeFact),
    Shape(ShapeModel),
    Value(ValueModel),
}

impl View for Wrapped {
    type V = WrappedModel;

    open spec fn view(&self) -> WrappedModel {
        match *self {
            Wrapped::Int(f) => WrappedModel::Int(f),
            Wrapped::Dim(f) => WrappedModel::Dim(f),
            Wrapped::Type(f) => WrappedModel::Type(f),
            Wrapped::Shape(f) => WrappedModel::Shape(f@),
            Wrapped::Value(f) => WrappedModel::Value(f@),
        }
    }
}

impl Wrapped {
    /// A copy of the fact.
    pub fn duplicate(&self) -> (r: Wrapped)
        ensures
            r@ == self@,
    {
        match self {
            Wrapped::Int(f) => Wrapped::Int(*f),
            Wrapped::Dim(f) => Wrapped::Dim(*f),
            Wrapped::Type(f) => Wrapped::Type(*f),
            Wrapped::Shape(f) => Wrapped::Shape(f.duplicate()),
            Wrapped::Value(f) => Wrapped::Value(f.duplicate()),
        }
    }

    /// Whether two facts are of the same kind and the same.
    pub fn same(&self, other: &Wrapped) -> (r: bool)
        ensures
            r == (self@ == other@),
    {
        match (self, other) {
            (Wrapped::Int(a), Wrapped::Int(b)) => *a == *b,
            (Wrapped::Dim(a), Wrapped::Dim(b)) => *a == *b,
            (Wrapped::Type(a), Wrapped::Type(b)) => *a == *b,
            (Wrapped::Shape(a), Wrapped::Shape(b)) => a.same(b),
            (Wrapped::Value(a), Wrapped::Value(b)) => a.same(b),
            _ => false,
        }
    }
}

impl Clone for Wrapped {
    fn clone(&self) -> (r: Wrapped)
        ensures
            r@ == self@,
    {
        self.duplicate()
    }
}

/// A kind of fact that an expression can produce.
pub trait Output: Sized {
    /// The fact as a wrapped fact.
    spec fn wrapped(self) -> WrappedModel;

    /// Whether a wrapped fact is of this kind.
    spec fn holds(w: WrappedModel) -> bool;

    /// Wraps the fact.
    fn wrap(self) -> (w: Wrapped)
        ensures
            w@ == self.wrapped(),
    {
        Self::into_wrapped(self)
    }

    /// Wraps the fact.
    fn into_wrapped(source: Self) -> (w: Wrapped)
        ensures
            w@ == source.wrapped(),
    ;

    /// The fact that a wrapped fact holds, or `WrongKind` where it holds a
    /// fact of another kind.
    fn from_wrapped(wrapped: Wrapped) -> (r: Result<Self, Error>)
        ensures
            match r {
                Ok(f) => f.wrapped() == wrapped@ && Self::holds(wrapped@),
                Err(e) => e == Error::WrongKind && !Self::holds(wrapped@),
            },
    ;
}

impl Output for IntFact {
    open spec fn wrapped(self) -> WrappedModel {
        WrappedModel::Int(self)
    }

    open spec fn holds(w: WrappedModel) -> bool {
        w is Int
    }

    fn into_wrapped(source: Self) -> (w: Wrapped) {
        Wrapped::Int(source)
    }

    fn from_wrapped(wrapped: Wrapped) -> (r: Result<Self, Error>) {
        match wrapped {
            Wrapped::Int(f) => Ok(f),
            _ => Err(Error::WrongKind),
        }
    }
}

impl Output for DimFact {
    open spec fn wrapped(self) -> WrappedModel {
        WrappedModel::Dim(self)
    }

    open spec fn holds(w: WrappedModel) -> bool {
        w is Dim
    }

    fn into_wrapped(source: Self) -> (w: Wrapped) {
        Wrapped::Dim(source)
    }

    fn from_wrapped(wrapped: Wrapped) -> (r: Result<Self, Error>) {
        match wrapped {
            Wrapped::Dim(f) => Ok(f),
            _ => Err(Error::WrongKind),
        }
    }
}

impl Output for TypeFact {
    open spec fn wrapped(self) -> WrappedModel {
        WrappedModel::Type(self)
    }

    open spec fn holds(w: WrappedModel) -> bool {
        w is Type
    }

    fn into_wrapped(source: Self) -> (w: Wrapped) {
        Wrapped::Type(source)
    }

    fn from_wrapped(wrapped: Wrapped) -> (r: Result<Self, Error>) {
        match wrapped {
            Wrapped::Type(f) => Ok(f),
            _ => Err(Error::WrongKind),
        }
    }
}

impl Output for ShapeFact {
    open spec fn wrapped(self) -> WrappedModel {
        WrappedModel::Shape(self@)
    }

    open spec fn holds(w: WrappedModel) -> bool {
        w is Shape
    }

    fn into_wrapped(source: Self) -> (w: Wrapped) {
        Wrapped::Shape(source)
    }

    fn from_wrapped(wrapped: Wrapped) -> (r: Result<Self, Error>) {
        match wrapped {
            Wrapped::Shape(f) => Ok(f),
            _ => Err(Error::WrongKind),
        }
    }
}

impl Output for ValueFact {
    open spec fn wrapped(self) -> WrappedModel {
        WrappedModel::Value(self@)
    }

    open spec fn holds(w: WrappedModel) -> bool {
        w is Value
    }

    fn into_wrapped(source: Self) -> (w: Wrapped) {
        Wrapped::Value(source)
    }

    fn from_wrapped(wrapped: Wrapped) -> (r: Result<Self, Error>) {
        match wrapped {
            Wrapped::Value(f) => Ok(f),
            _ => Err(Error::WrongKind),
        }
    }
}

/// The mathematical value of an expression.
pub enum ExpModel {
    /// A fact that the expression holds.
    Constant(WrappedModel),
    /// The fact at a path of the context.
    Variable(Seq<isize>),
    /// An integer coefficient times an integer-valued expression.
    Product(int, Box<ExpModel>),
}

/// The integer that a fact holds, where it is an integer fact or a
/// dimension fact: `None` inside where it is unknown. `WrongKind` for
/// another kind of fact, `Overflow` for a dimension that is no `i64`.
pub open spec fn integer_of(w: WrappedModel) -> Result<Option<int>, Error> {
    match w {
        WrappedModel::Int(IntFact::Any) => Ok(None),
        WrappedModel::Int(IntFact::Only(v)) => Ok(Some(v as int)),
        WrappedModel::Dim(DimFact::Any) => Ok(None),
        WrappedModel::Dim(DimFact::Only(v)) => if v <= i64::MAX {
            Ok(Some(v as int))
        } else {
            Err(Error::Overflow)
        },
        _ => Err(Error::WrongKind),
    }
}

/// The integer fact that holds `v`, or `Overflow` where it is no `i64`.
pub open spec fn int_fact(v: int) -> Result<WrappedModel, Error> {
    if i64::MIN <= v <= i64::MAX {
        Ok(WrappedModel::Int(IntFact::Only(v as i64)))
    } else {
        Err(Error::Overflow)
    }
}

/// A fact as a fact of the kind of `like`. An integer fact and a dimension
/// fact turn into each other where the number allows it: a negative number
/// is no dimension (`Incompatibility`). Another change of kind is refused
/// (`WrongKind`).
pub open spec fn coerce(value: WrappedModel, like: WrappedModel) -> Result<WrappedModel, Error> {
    match (value, like) {
        (WrappedModel::Int(_), WrappedModel::Int(_)) => Ok(value),
        (WrappedModel::Dim(_), WrappedModel::Dim(_)) => Ok(value),
        (WrappedModel::Type(_), WrappedModel::Type(_)) => Ok(value),
        (WrappedModel::Shape(_), WrappedModel::Shape(_)) => Ok(value),
        (WrappedModel::Value(_), WrappedModel::Value(_)) => Ok(value),
        (WrappedModel::Int(IntFact::Any), WrappedModel::Dim(_)) => Ok(
            WrappedModel::Dim(DimFact::Any),
        ),
        (WrappedModel::Int(IntFact::Only(v)), WrappedModel::Dim(_)) => if 0 <= v <= usize::MAX {
            Ok(WrappedModel::Dim(DimFact::Only(v as usize)))
        } else {
            Err(Error::Incompatibility)
        },
        (WrappedModel::Dim(DimFact::Any), WrappedModel::Int(_)) => Ok(
            WrappedModel::Int(IntFact::Any),
        ),
        (WrappedModel::Dim(DimFact::Only(v)), WrappedModel::Int(_)) => int_fact(v as int),
        _ => Err(Error::WrongKind),
    }
}

/// What a product with the coefficient `k` reads where its factor reads `w`.
pub open spec fn scale(k: int, w: WrappedModel) -> Result<WrappedModel, Error> {
    match integer_of(w) {
        Err(e) => Err(e),
        Ok(None) => Ok(WrappedModel::Int(IntFact::Any)),
        Ok(Some(v)) => int_fact(k * v),
    }
}

/// What the factor of a product with the coefficient `k` must be for the
/// product to be `m`: nothing is asked of it where `m` is unknown, or where
/// `k` and `m` are both zero. `Incompatibility` where only `k` is zero,
/// `NotDivisible` where `m` is no multiple of `k`.
pub open spec fn unscale(k: int, m: WrappedModel) -> Result<Option<WrappedModel>, Error> {
    match integer_of(m) {
        Err(e) => Err(e),
        Ok(None) => Ok(None),
        Ok(Some(v)) => if k == 0 {
            if v == 0 {
                Ok(None)
            } else {
                Err(Error::Incompatibility)
            }
        } else if !divisible(v, k) {
            Err(Error::NotDivisible)
        } else {
            match int_fact(quotient(v, k)) {
                Ok(w) => Ok(Some(w)),
                Err(e) => Err(e),
            }
        },
    }
}

/// What an expression reads in a context.
pub open spec fn exp_get(e: ExpModel, context: ContextModel) -> Result<WrappedModel, Error>
    decreases e,
{
    match e {
        ExpModel::Constant(w) => Ok(w),
        ExpModel::Variable(path) => get_at(context, path),
        ExpModel::Product(k, inner) => match exp_get(*inner, context) {
            Err(e) => Err(e),
            Ok(w) => scale(k, w),
        },
    }
}

/// The context after `value` was unified into what an expression stands for.
/// A constant accepts its own value only (`Incompatibility` otherwise). A
/// product hands its factor the value divided by the coefficient, as a fact
/// of the kind that the factor reads.
pub open spec fn exp_set(e: ExpModel, context: ContextModel, value: WrappedModel) -> Result<
    ContextModel,
    Error,
>
    decreases e,
{
    match e {
        ExpModel::Constant(w) => if w == value {
            Ok(context)
        } else {
            Err(Error::Incompatibility)
        },
        ExpModel::Variable(path) => set_at(context, path, value),
        ExpModel::Product(k, inner) => match exp_get(*inner, context) {
            Err(e) => Err(e),
            Ok(current) => match unscale(k, value) {
                Err(e) => Err(e),
                Ok(None) => Ok(context),
                Ok(Some(q)) => match coerce(q, current) {
                    Err(e) => Err(e),
                    Ok(v) => exp_set(*inner, context, v),
                },
            },
        },
    }
}

/// The paths that an expression reads, in the order in which it names them.
pub open spec fn exp_paths(e: ExpModel) -> Seq<Seq<isize>>
    decreases e,
{
    match e {
        ExpModel::Constant(_) => Seq::empty(),
        ExpModel::Variable(path) => seq![path],
        ExpModel::Product(_, inner) => exp_paths(*inner),
    }
}

/// The integer that a fact holds: see `integer_of`.
pub fn integer(w: &Wrapped) -> (r: Result<Option<i64>, Error>)
    ensures
        r == match integer_of(w@) {
            Ok(Some(v)) => Ok::<_, Error>(Some(v as i64)),
            Ok(None) => Ok(None),
            Err(e) => Err(e),
        },
        integer_of(w@) matches Ok(Some(v)) ==> i64::MIN <= v <= i64::MAX,
{
    match w {
        Wrapped::Int(IntFact::Any) => Ok(None),
        Wrapped::Int(IntFact::Only(v)) => Ok(Some(*v)),
        Wrapped::Dim(DimFact::Any) => Ok(None),
        Wrapped::Dim(DimFact::Only(v)) => {
            if *v as u64 <= i64::MAX as u64 {
                Ok(Some(*v as i64))
            } else {
                Err(Error::Overflow)
            }
        },
        _ => Err(Error::WrongKind),
    }
}

/// The integer fact that holds `v`.
fn int_wrapped(v: i64) -> (r: Wrapped)
    ensures
        Ok::<_, Error>(r@) == int_fact(v as int),
{
    Wrapped::Int(IntFact::Only(v))
}

/// A fact as a fact of the kind of `like`: see `coerce`.
pub fn coerced(value: Wrapped, like: &Wrapped) -> (r: Result<Wrapped, Error>)
    ensures
        read_as(r, coerce(value@, like@)),
{
    match (value, like) {
        (Wrapped::Int(f), Wrapped::Int(_)) => Ok(Wrapped::Int(f)),
        (Wrapped::Dim(f), Wrapped::Dim(_)) => Ok(Wrapped::Dim(f)),
        (Wrapped::Type(f), Wrapped::Type(_)) => Ok(Wrapped::Type(f)),
        (Wrapped::Shape(f), Wrapped::Shape(_)) => Ok(Wrapped::Shape(f)),
        (Wrapped::Value(f), Wrapped::Value(_)) => Ok(Wrapped::Value(f)),
        (Wrapped::Int(IntFact::Any), Wrapped::Dim(_)) => Ok(Wrapped::Dim(DimFact::Any)),
        (Wrapped::Int(IntFact::Only(v)), Wrapped::Dim(_)) => {
            if v >= 0 && v as u64 <= usize::MAX as u64 {
                Ok(Wrapped::Dim(DimFact::Only(v as usize)))
            } else {
                Err(Error::Incompatibility)
            }
        },
        (Wrapped::Dim(DimFact::Any), Wrapped::Int(_)) => Ok(Wrapped::Int(IntFact::Any)),
        (Wrapped::Dim(DimFact::Only(v)), Wrapped::Int(_)) => {
            if v as u64 <= i64::MAX as u64 {
                Ok(Wrapped::Int(IntFact::Only(v as i64)))
            } else {
                Err(Error::Overflow)
            }
        },
        _ => Err(Error::WrongKind),
    }
}

/// What a product with the coefficient `k` reads where its factor reads `w`.
pub fn scaled(k: i64, w: &Wrapped) -> (r: Result<Wrapped, Error>)
    ensures
        read_as(r, scale(k as int, w@)),
{
    match integer(w)? {
        None => Ok(Wrapped::Int(IntFact::Any)),
        Some(v) => match k.checked_mul(v) {
            Some(p) => Ok(int_wrapped(p)),
            None => Err(Error::Overflow),
        },
    }
}

/// What the factor of a product with the coefficient `k` must be for the
/// product to be `m`: see `unscale`.
pub fn unscaled(k: i64, m: &Wrapped) -> (r: Result<Option<Wrapped>, Error>)
    ensures
        match r {
            Ok(Some(w)) => unscale(k as int, m@) == Ok::<_, Error>(Some(w@)),
            Ok(None) => unscale(k as int, m@) == Ok::<Option<WrappedModel>, Error>(None),
            Err(e) => unscale(k as int, m@) == Err::<Option<WrappedModel>, _>(e),
        },
{
    match integer(m)? {
        None => Ok(None),
        Some(v) => {
            if k == 0 {
                if v == 0 {
                    Ok(None)
                } else {
                    Err(Error::Incompatibility)
                }
            } else {
                match exact_div(v, k) {
                    Ok(q) => Ok(Some(int_wrapped(q))),
                    Err(e) => Err(e),
                }
            }
        },
    }
}

/// An expression that holds a fact.
#[derive(Debug)]
pub struct ConstantExpression(pub Wrapped);

/// An expression that stands for the fact at a path of the context.
#[derive(Debug)]
pub struct VariableExpression(pub Path);

/// An integer coefficient times an integer-valued expression.
#[derive(Debug)]
pub struct ProductExpression<E>(pub i64, pub E);

/// An expression of any of the three forms.
#[derive(Debug)]
pub enum Exp {
    Constant(ConstantExpression),
    Variable(VariableExpression),
    Product(i64, Box<Exp>),
}

/// The mathematical value of an expression.
pub open spec fn exp_model(e: Exp) -> ExpModel
    decreases e,
{
    match e {
        Exp::Constant(c) => ExpModel::Constant(c.0@),
        Exp::Variable(v) => ExpModel::Variable(v.0@),
        Exp::Product(k, inner) => ExpModel::Product(k as int, Box::new(exp_model(*inner))),
    }
}

impl View for Exp {
    type V = ExpModel;

    open spec fn view(&self) -> ExpModel {
        exp_model(*self)
    }
}

impl Exp {
    /// What the expression reads in a context.
    pub fn read(&self, context: &Context) -> (r: Result<Wrapped, Error>)
        ensures
            read_as(r, exp_get(self@, context@)),
        decreases self,
    {
        match self {
            Exp::Constant(c) => Ok(c.0.duplicate()),
            Exp::Variable(v) => context.get(&v.0),
            Exp::Product(k, inner) => {
                let w = inner.read(context)?;
                scaled(*k, &w)
            },
        }
    }

    /// Unifies `value` into what the expression stands for.
    pub fn write(&self, context: &mut Context, value: Wrapped) -> (r: Result<(), Error>)
        ensures
            wrote(r, old(context)@, final(context)@, exp_set(self@, old(context)@, value@)),
        decreases self,
    {
        match self {
            Exp::Constant(c) => if c.0.same(&value) {
                Ok(())
            } else {
                Err(Error::Incompatibility)
            },
            Exp::Variable(v) => context.set(&v.0, value),
            Exp::Product(k, inner) => {
                let current = inner.read(context)?;
                match unscaled(*k, &value)? {
                    None => Ok(()),
                    Some(q) => {
                        let v = coerced(q, &current)?;
                        inner.write(context, v)
                    },
                }
            },
        }
    }

    /// The paths that the expression reads.
    pub fn paths(&self) -> (r: Vec<&Path>)
        ensures
            r@.map_values(|p: &Path| p@) == exp_paths(self@),
        decreases self,
    {
        match self {
            Exp::Constant(_) => {
                let r: Vec<&Path> = Vec::new();
                assert(r@.map_values(|p: &Path| p@) =~= exp_paths(self@));
                r
            },
            Exp::Variable(v) => {
                let mut r: Vec<&Path> = Vec::new();
                r.push(&v.0);
                assert(r@.map_values(|p: &Path| p@) =~= exp_paths(self@));
                r
            },
            Exp::Product(_, inner) => inner.paths(),
        }
    }
}

/// An expression: it reads a fact from a context and unifies a fact back into it.
pub trait Expression: Sized {
    /// The mathematical value of the expression.
    spec fn model(&self) -> ExpModel;

    /// What the expression reads in a context.
    fn get(&self, context: &Context) -> (r: Result<Wrapped, Error>)
        ensures
            read_as(r, exp_get(self.model(), context@)),
    ;

    /// Unifies `value` into what the expression stands for. Where that fails
    /// the context is left as it was.
    fn set(&self, context: &mut Context, value: Wrapped) -> (r: Result<(), Error>)
        ensures
            wrote(
                r,
                old(context)@,
                final(context)@,
                exp_set(self.model(), old(context)@, value@),
            ),
    ;

    /// The paths that the expression reads.
    fn get_paths(&self) -> (r: Vec<&Path>)
        ensures
            r@.map_values(|p: &Path| p@) == exp_paths(self.model()),
    ;

    /// The expression as an expression of any form.
    fn boxed(self) -> (e: Exp)
        ensures
            e@ == self.model(),
    ;
}

impl Expression for Exp {
    open spec fn model(&self) -> ExpModel {
        self@
    }

    fn get(&self, context: &Context) -> (r: Result<Wrapped, Error>) {
        self.read(context)
    }

    fn set(&self, context: &mut Context, value: Wrapped) -> (r: Result<(), Error>) {
        self.write(context, value)
    }

    fn get_paths(&self) -> (r: Vec<&Path>) {
        self.paths()
    }

    fn boxed(self) -> (e: Exp) {
        self
    }
}

impl Expression for ConstantExpression {
    open spec fn model(&self) -> ExpModel {
        ExpModel::Constant(self.0@)
    }

    fn get(&self, context: &Context) -> (r: Result<Wrapped, Error>) {
        Ok(self.0.duplicate())
    }

    fn set(&self, context: &mut Context, value: Wrapped) -> (r: Result<(), Error>) {
        if self.0.same(&value) {
            Ok(())
        } else {
            Err(Error::Incompatibility)
        }
    }

    fn get_paths(&self) -> (r: Vec<&Path>) {
        let r: Vec<&Path> = Vec::new();
        assert(r@.map_values(|p: &Path| p@) =~= exp_paths(self.model()));
        r
    }

    fn boxed(self) -> (e: Exp) {
        Exp::Constant(self)
    }
}

impl Expression for VariableExpression {
    open spec fn model(&self) -> ExpModel {
        ExpModel::Variable(self.0@)
    }

    fn get(&self, context: &Context) -> (r: Result<Wrapped, Error>) {
        context.get(&self.0)
    }

    fn set(&self, context: &mut Context, value: Wrapped) -> (r: Result<(), Error>) {
        context.set(&self.0, value)
    }

    fn get_paths(&self) -> (r: Vec<&Path>) {
        let mut r: Vec<&Path> = Vec::new();
        r.push(&self.0);
        assert(r@.map_values(|p: &Path| p@) =~= exp_paths(self.model()));
        r
    }

    fn boxed(self) -> (e: Exp) {
        Exp::Variable(self)
    }
}

impl<E: Expression> Expression for ProductExpression<E> {
    open spec fn model(&self) -> ExpModel {
        ExpModel::Product(self.0 as int, Box::new(self.1.model()))
    }

    fn get(&self, context: &Context) -> (r: Result<Wrapped, Error>) {
        let w = self.1.get(context)?;
        scaled(self.0, &w)
    }

    fn set(&self, context: &mut Context, value: Wrapped) -> (r: Result<(), Error>) {
        let current = self.1.get(context)?;
        match unscaled(self.0, &value)? {
            None => Ok(()),
            Some(q) => {
                let v = coerced(q, &current)?;
                self.1.set(context, v)
            },
        }
    }

    fn get_paths(&self) -> (r: Vec<&Path>) {
        self.1.get_paths()
    }

    fn boxed(self) -> (e: Exp) {
        Exp::Product(self.0, Box::new(self.1.boxed()))
    }
}

/// A value that can be turned into an expression.
pub trait IntoExpression<T: Expression>: Sized {
    /// The mathematical value of the expression that the value turns into.
    spec fn expr(self) -> ExpModel;

    /// Turns the value into an expression.
    fn into_expr(self) -> (e: T)
        ensures
            e.model() == self.expr(),
    ;
}

impl IntoExpression<ConstantExpression> for isize {
    open spec fn expr(self) -> ExpModel {
        ExpModel::Constant(WrappedModel::Int(IntFact::Only(self as i64)))
    }

    fn into_expr(self) -> (e: ConstantExpression) {
        ConstantExpression(Wrapped::Int(IntFact::Only(self as i64)))
    }
}

impl<'a> IntoExpression<ConstantExpression> for &'a isize {
    open spec fn expr(self) -> ExpModel {
        ExpModel::Constant(WrappedModel::Int(IntFact::Only(*self as i64)))
    }

    fn into_expr(self) -> (e: ConstantExpression) {
        ConstantExpression(Wrapped::Int(IntFact::Only(*self as i64)))
    }
}

impl IntoExpression<ConstantExpression> for DataType {
    open spec fn expr(self) -> ExpModel {
        ExpModel::Constant(WrappedModel::Type(TypeFact::Only(self)))
    }

    fn into_expr(self) -> (e: ConstantExpression) {
        ConstantExpression(Wrapped::Type(TypeFact::Only(self)))
    }
}

impl<'a> IntoExpression<ConstantExpression> for &'a DataType {
    open spec fn expr(self) -> ExpModel {
        ExpModel::Constant(WrappedModel::Type(TypeFact::Only(*self)))
    }

    fn into_expr(self) -> (e: ConstantExpression) {
        ConstantExpression(Wrapped::Type(TypeFact::Only(*self)))
    }
}

impl IntoExpression<ConstantExpression> for IntFact {
    open spec fn expr(self) -> ExpModel {
        ExpModel::Constant(WrappedModel::Int(self))
    }

    fn into_expr(self) -> (e: ConstantExpression) {
        ConstantExpression(self.wrap())
    }
}

impl IntoExpression<ConstantExpression> for DimFact {
    open spec fn expr(self) -> ExpModel {
        ExpModel::Constant(WrappedModel::Dim(self))
    }

    fn into_expr(self) -> (e: ConstantExpression) {
        ConstantExpression(self.wrap())
    }
}

impl IntoExpression<ConstantExpression> for TypeFact {
    open spec fn expr(self) -> ExpModel {
        ExpModel::Constant(WrappedModel::Type(self))
    }

    fn into_expr(self) -> (e: ConstantExpression) {
        ConstantExpression(self.wrap())
    }
}

impl IntoExpression<ConstantExpression> for ShapeFact {
    open spec fn expr(self) -> ExpModel {
        ExpModel::Constant(WrappedModel::Shape(self@))
    }

    fn into_expr(self) -> (e: ConstantExpression) {
        ConstantExpression(self.wrap())
    }
}

impl IntoExpression<ConstantExpression> for ValueFact {
    open spec fn expr(self) -> ExpModel {
        ExpModel::Constant(WrappedModel::Value(self@))
    }

    fn into_expr(self) -> (e: ConstantExpression) {
        ConstantExpression(self.wrap())
    }
}

impl<E: Expression, I: IntoExpression<E>> IntoExpression<ProductExpression<E>> for (isize, I) {
    open spec fn expr(self) -> ExpModel {
        ExpModel::Product(self.0 as int, Box::new(self.1.expr()))
    }

    fn into_expr(self) -> (e: ProductExpression<E>) {
        let (k, e) = self;
        ProductExpression(k as i64, e.into_expr())
    }
}

} // verus!
