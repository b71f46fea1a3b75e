//! The working state of one run of the solver.

use vstd::prelude::*;
use crate::errors::Error;
use crate::expressions::Wrapped;
use crate::facts::{TensorFact, TensorFactModel};
use crate::path::{get_at, get_path, read_as, set_at, set_path, wrote, Path};

verus! {

/// The facts that the solver holds while it runs: one for each input and one
/// for each output of an operator.
#[derive(Debug)]
pub struct Context {
    pub inputs: Vec<TensorFact>,
    pub outputs: Vec<TensorFact>,
}

/// The mathematical value of a `Context`.
pub struct ContextModel {
    pub inputs: Seq<TensorFactModel>,
    pub outputs: Seq<TensorFactModel>,
}

/// The models of a list of tensor facts.
pub open spec fn facts_model(facts: Seq<TensorFact>) -> Seq<TensorFactModel> {
    facts.map_values(|f: TensorFact| f@)
}

impl View for Context {
    type V = ContextModel;

    open spec fn view(&self) -> ContextModel {
        ContextModel { inputs: facts_model(self.inputs@), outputs: facts_model(self.outputs@) }
    }
}

impl Context {
    /// The context that holds these facts.
    pub fn new(inputs: Vec<TensorFact>, outputs: Vec<TensorFact>) -> (r: Context)
        ensures
            r.inputs == inputs,
            r.outputs == outputs,
    {
        Context { inputs, outputs }
    }

    /// The fact at `path`.
    pub fn get(&self, path: &Path) -> (r: Result<Wrapped, Error>)
        ensures
            read_as(r, get_at(self@, path@)),
    {
        get_path(self, path.as_slice())
    }

    /// Unifies `value` into the fact at `path`. Where that fails the context
    /// is left as it was.
    pub fn set(&mut self, path: &Path, value: Wrapped) -> (r: Result<(), Error>)
        ensures
            wrote(r, old(self)@, final(self)@, set_at(old(self)@, path@, value@)),
    {
        set_path(self, path.as_slice(), value)
    }
}

} // verus!
