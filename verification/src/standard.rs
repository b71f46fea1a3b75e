//! The operators that this library brings, and how they are made from the
//! node definitions of a graph.

use vstd::prelude::*;
use vstd::string::*;
use std::marker::PhantomData;
use crate::errors::Error;
use crate::inference::{pack_rules, pad_rules, rule_views, Spawn, SpawnModel};
use crate::model::{find_attr, AttrValue, NodeDef, OpBuilder};
use crate::ops::{Attr, BufferModel, Op, OpBuffer};
use crate::pack::Pack;
use crate::pad::Pad;
use crate::proxies::TensorsProxy;
use crate::rules::RuleModel;
use crate::solver::Solver;
use crate::tensor::{DataType, Tensor, TensorModel, F32, F64};

verus! {

/// An operator of this library, for one of the datatypes that it is made for.
#[derive(Debug)]
pub enum StandardOp {
    PackI32(Pack<i32>),
    PackF32(Pack<F32>),
    PackF64(Pack<F64>),
    PadI32(Pad<i32>),
    PadF32(Pad<F32>),
    PadF64(Pad<F64>),
}

/// The packing operator for a datatype; `UnsupportedType` where the
/// datatype is none of 32-bit integers and 32-bit and 64-bit floating-point numbers.
pub open spec fn pack_for(datatype: DataType, n: usize, axis: usize) -> Result<StandardOp, Error> {
    match datatype {
        DataType::I32 => Ok(StandardOp::PackI32(Pack { n, axis, _phantom: PhantomData })),
        DataType::F32 => Ok(StandardOp::PackF32(Pack { n, axis, _phantom: PhantomData })),
        DataType::F64 => Ok(StandardOp::PackF64(Pack { n, axis, _phantom: PhantomData })),
        _ => Err(Error::UnsupportedType),
    }
}

/// The padding operator for a datatype; `UnsupportedType` where the
/// datatype is none of 32-bit integers and 32-bit and 64-bit floating-point numbers.
pub open spec fn pad_for(datatype: DataType) -> Result<StandardOp, Error> {
    match datatype {
        DataType::I32 => Ok(StandardOp::PadI32(Pad { _phantom: PhantomData })),
        DataType::F32 => Ok(StandardOp::PadF32(Pad { _phantom: PhantomData })),
        DataType::F64 => Ok(StandardOp::PadF64(Pad { _phantom: PhantomData })),
        _ => Err(Error::UnsupportedType),
    }
}

/// The packing operator of a node definition: it packs as many inputs as
/// the definition lists, of the datatype of its attribute `T`, along the
/// axis of its attribute `axis`. `Attribute` where one of the two is not
/// there or the axis is no index.
pub open spec fn pack_of(pb: NodeDef) -> Result<StandardOp, Error> {
    match find_attr(pb.attr@, "T"@) {
        Some(AttrValue::Type(t)) => match find_attr(pb.attr@, "axis"@) {
            Some(AttrValue::Int(a)) => if 0 <= a <= usize::MAX {
                pack_for(t, pb.input@.len() as usize, a as usize)
            } else {
                Err(Error::Attribute)
            },
            _ => Err(Error::Attribute),
        },
        _ => Err(Error::Attribute),
    }
}

/// The padding operator of a node definition, for the datatype of its
/// attribute `T`. `Attribute` where that is not there.
pub open spec fn pad_of(pb: NodeDef) -> Result<StandardOp, Error> {
    match find_attr(pb.attr@, "T"@) {
        Some(AttrValue::Type(t)) => pad_for(t),
        _ => Err(Error::Attribute),
    }
}

/// The packing operator of a node definition: see `pack_of`.
pub fn pack(pb: &NodeDef) -> (r: Result<StandardOp, Error>)
    ensures
        r == pack_of(*pb),
{
    let dtype = pb.get_attr_datatype("T")?;
    let n = pb.input.len();
    let axis = pb.get_attr_int("axis")?;
    if axis < 0 || axis as u64 > usize::MAX as u64 {
        return Err(Error::Attribute);
    }
    let axis = axis as usize;
    match dtype {
        DataType::I32 => Ok(StandardOp::PackI32(Pack::new(n, axis))),
        DataType::F32 => Ok(StandardOp::PackF32(Pack::new(n, axis))),
        DataType::F64 => Ok(StandardOp::PackF64(Pack::new(n, axis))),
        _ => Err(Error::UnsupportedType),
    }
}

/// The padding operator of a node definition: see `pad_of`.
pub fn pad(pb: &NodeDef) -> (r: Result<StandardOp, Error>)
    ensures
        r == pad_of(*pb),
{
    let dtype = pb.get_attr_datatype("T")?;
    match dtype {
        DataType::I32 => Ok(StandardOp::PadI32(Pad::new())),
        DataType::F32 => Ok(StandardOp::PadF32(Pad::new())),
        DataType::F64 => Ok(StandardOp::PadF64(Pad::new())),
        _ => Err(Error::UnsupportedType),
    }
}

impl Op for StandardOp {
    open spec fn eval_spec(&self, inputs: Seq<TensorModel>) -> Result<Seq<TensorModel>, Error> {
        match *self {
            StandardOp::PackI32(op) => op.eval_spec(inputs),
            StandardOp::PackF32(op) => op.eval_spec(inputs),
            StandardOp::PackF64(op) => op.eval_spec(inputs),
            StandardOp::PadI32(op) => op.eval_spec(inputs),
            StandardOp::PadF32(op) => op.eval_spec(inputs),
            StandardOp::PadF64(op) => op.eval_spec(inputs),
        }
    }

    fn eval(&self, inputs: Vec<Tensor>) -> (r: Result<Vec<Tensor>, Error>) {
        match self {
            StandardOp::PackI32(op) => op.eval(inputs),
            StandardOp::PackF32(op) => op.eval(inputs),
            StandardOp::PackF64(op) => op.eval(inputs),
            StandardOp::PadI32(op) => op.eval(inputs),
            StandardOp::PadF32(op) => op.eval(inputs),
            StandardOp::PadF64(op) => op.eval(inputs),
        }
    }

    open spec fn step_spec(
        &self,
        inputs: Seq<(Option<usize>, Option<TensorModel>)>,
        buffer: BufferModel,
    ) -> Result<(Option<Seq<TensorModel>>, BufferModel), Error> {
        match *self {
            StandardOp::PackI32(op) => op.step_spec(inputs, buffer),
            StandardOp::PackF32(op) => op.step_spec(inputs, buffer),
            StandardOp::PackF64(op) => op.step_spec(inputs, buffer),
            StandardOp::PadI32(op) => op.step_spec(inputs, buffer),
            StandardOp::PadF32(op) => op.step_spec(inputs, buffer),
            StandardOp::PadF64(op) => op.step_spec(inputs, buffer),
        }
    }

    fn step(&self, inputs: Vec<(Option<usize>, Option<Tensor>)>, buffer: &mut OpBuffer) -> (r:
        Result<Option<Vec<Tensor>>, Error>) {
        match self {
            StandardOp::PackI32(op) => op.step(inputs, buffer),
            StandardOp::PackF32(op) => op.step(inputs, buffer),
            StandardOp::PackF64(op) => op.step(inputs, buffer),
            StandardOp::PadI32(op) => op.step(inputs, buffer),
            StandardOp::PadF32(op) => op.step(inputs, buffer),
            StandardOp::PadF64(op) => op.step(inputs, buffer),
        }
    }

    open spec fn fresh_buffer(&self) -> BufferModel {
        match *self {
            StandardOp::PackI32(op) => op.fresh_buffer(),
            StandardOp::PackF32(op) => op.fresh_buffer(),
            StandardOp::PackF64(op) => op.fresh_buffer(),
            StandardOp::PadI32(op) => op.fresh_buffer(),
            StandardOp::PadF32(op) => op.fresh_buffer(),
            StandardOp::PadF64(op) => op.fresh_buffer(),
        }
    }

    fn new_buffer(&self) -> (r: OpBuffer) {
        match self {
            StandardOp::PackI32(op) => op.new_buffer(),
            StandardOp::PackF32(op) => op.new_buffer(),
            StandardOp::PackF64(op) => op.new_buffer(),
            StandardOp::PadI32(op) => op.new_buffer(),
            StandardOp::PadF32(op) => op.new_buffer(),
            StandardOp::PadF64(op) => op.new_buffer(),
        }
    }

    open spec fn attributes(&self) -> Seq<(Seq<char>, Attr)> {
        match *self {
            StandardOp::PackI32(op) => op.attributes(),
            StandardOp::PackF32(op) => op.attributes(),
            StandardOp::PackF64(op) => op.attributes(),
            StandardOp::PadI32(op) => op.attributes(),
            StandardOp::PadF32(op) => op.attributes(),
            StandardOp::PadF64(op) => op.attributes(),
        }
    }

    fn get_attributes(&self) -> (r: Vec<(&'static str, Attr)>) {
        match self {
            StandardOp::PackI32(op) => op.get_attributes(),
            StandardOp::PackF32(op) => op.get_attributes(),
            StandardOp::PackF64(op) => op.get_attributes(),
            StandardOp::PadI32(op) => op.get_attributes(),
            StandardOp::PadF32(op) => op.get_attributes(),
            StandardOp::PadF64(op) => op.get_attributes(),
        }
    }
}

/// The rules of an operator for the tensors at `inputs` and `outputs`.
pub open spec fn rules_of(op: StandardOp, inputs: Seq<isize>, outputs: Seq<isize>) -> Seq<
    RuleModel<SpawnModel>,
> {
    match op {
        StandardOp::PackI32(op) => pack_rules(op.n, op.axis, inputs, outputs),
        StandardOp::PackF32(op) => pack_rules(op.n, op.axis, inputs, outputs),
        StandardOp::PackF64(op) => pack_rules(op.n, op.axis, inputs, outputs),
        _ => pad_rules(inputs, outputs),
    }
}

/// Whether the numbers of an operator can stand in paths.
pub open spec fn indexable(op: StandardOp) -> bool {
    match op {
        StandardOp::PackI32(op) => op.n <= isize::MAX && op.axis <= isize::MAX,
        StandardOp::PackF32(op) => op.n <= isize::MAX && op.axis <= isize::MAX,
        StandardOp::PackF64(op) => op.n <= isize::MAX && op.axis <= isize::MAX,
        _ => true,
    }
}

impl StandardOp {
    /// Adds the rules of the operator to a solver: see `rules_of`.
    pub fn rules(&self, solver: &mut Solver<Spawn>, inputs: &TensorsProxy, outputs: &TensorsProxy)
        requires
            indexable(*self),
        ensures
            rule_views(final(solver).rules@) == rule_views(old(solver).rules@) + rules_of(
                *self,
                inputs.path_spec(),
                outputs.path_spec(),
            ),
    {
        match self {
            StandardOp::PackI32(op) => op.rules(solver, inputs, outputs),
            StandardOp::PackF32(op) => op.rules(solver, inputs, outputs),
            StandardOp::PackF64(op) => op.rules(solver, inputs, outputs),
            StandardOp::PadI32(op) => op.rules(solver, inputs, outputs),
            StandardOp::PadF32(op) => op.rules(solver, inputs, outputs),
            StandardOp::PadF64(op) => op.rules(solver, inputs, outputs),
        }
    }
}

/// The builder of the operators of this library, by the names `Pack` and `Pad`.
#[derive(Debug, Clone, Copy, PartialEq, Eq, Structural)]
pub struct Standard;

/// The operator of a node definition: by the name of its operation.
/// `UnknownOp` where this library has no operator of that name.
pub open spec fn standard_of(pb: NodeDef) -> Result<StandardOp, Error> {
    if pb.op@ == "Pack"@ {
        pack_of(pb)
    } else if pb.op@ == "Pad"@ {
        pad_of(pb)
    } else {
        Err(Error::UnknownOp)
    }
}

impl OpBuilder<StandardOp> for Standard {
    open spec fn build_spec(&self, pb: NodeDef) -> Result<StandardOp, Error> {
        standard_of(pb)
    }

    fn build(&self, pb: &NodeDef) -> (r: Result<StandardOp, Error>) {
        if pb.op == String::from_str("Pack") {
            pack(pb)
        } else if pb.op == String::from_str("Pad") {
            pad(pb)
        } else {
            Err(Error::UnknownOp)
        }
    }
}

} // verus!
