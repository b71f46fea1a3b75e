//! The contract between the executor and an operator.

use vstd::prelude::*;
use crate::errors::Error;
use crate::tensor::{DataType, Tensor, TensorModel};

verus! {

/// The models of a list of tensors.
pub open spec fn models(tensors: Seq<Tensor>) -> Seq<TensorModel> {
    tensors.map_values(|t: Tensor| t@)
}

/// Whether an evaluation returned what its model says.
pub open spec fn evaluated(r: Result<Vec<Tensor>, Error>, want: Result<Seq<TensorModel>, Error>) -> bool {
    match r {
        Ok(tensors) => want == Ok::<_, Error>(models(tensors@)),
        Err(e) => want == Err::<Seq<TensorModel>, _>(e),
    }
}

/// The value of an attribute of an operator.
#[derive(Debug, Clone, Copy, PartialEq, Eq, Structural)]
pub enum Attr {
    DataType(DataType),
    Usize(usize),
}

/// The attributes of a list, each with its name as a sequence of characters.
pub open spec fn attrs_model(attrs: Seq<(&'static str, Attr)>) -> Seq<(Seq<char>, Attr)> {
    attrs.map_values(|a: (&'static str, Attr)| (a.0@, a.1))
}

/// What an operator keeps between the steps of a stream: nothing, or one
/// queue of chunks for each of its inputs.
#[derive(Debug, PartialEq, Eq)]
pub enum OpBuffer {
    Empty,
    Queues(Vec<Vec<Tensor>>),
}

/// The mathematical value of an `OpBuffer`.
pub enum BufferModel {
    Empty,
    Queues(Seq<Seq<TensorModel>>),
}

impl View for OpBuffer {
    type V = BufferModel;

    open spec fn view(&self) -> BufferModel {
        match *self {
            OpBuffer::Empty => BufferModel::Empty,
            OpBuffer::Queues(q) => BufferModel::Queues(
                q@.map_values(|chunks: Vec<Tensor>| models(chunks@)),
            ),
        }
    }
}

impl OpBuffer {
    /// A buffer of `n` queues that hold nothing.
    pub fn queues(n: usize) -> (r: OpBuffer)
        ensures
            r@ == BufferModel::Queues(Seq::new(n as nat, |i: int| Seq::<TensorModel>::empty())),
    {
        let mut q: Vec<Vec<Tensor>> = Vec::new();
        let mut i: usize = 0;
        while i < n
            invariant
                0 <= i <= n,
                q@.len() == i,
                forall|j: int| 0 <= j < i ==> (#[trigger] q@[j])@.len() == 0,
            decreases n - i,
        {
            q.push(Vec::new());
            i += 1;
        }
        let r = OpBuffer::Queues(q);
        assert(r@->Queues_0 =~= Seq::new(n as nat, |i: int| Seq::<TensorModel>::empty())) by {
            assert forall|j: int| 0 <= j < n implies #[trigger] r@->Queues_0[j]
                =~= Seq::<TensorModel>::empty() by {}
        }
        r
    }

    /// The queues of the buffer; `BufferType` where it is the buffer that
    /// holds nothing.
    pub fn into_queues(self) -> (r: Result<Vec<Vec<Tensor>>, Error>)
        ensures
            match r {
                Ok(q) => self == OpBuffer::Queues(q),
                Err(e) => e == Error::BufferType && self == OpBuffer::Empty,
            },
    {
        match self {
            OpBuffer::Queues(q) => Ok(q),
            OpBuffer::Empty => Err(Error::BufferType),
        }
    }

    /// Checks that the buffer is the one that holds nothing; `BufferType`
    /// where it holds queues.
    pub fn expect_empty(&self) -> (r: Result<(), Error>)
        ensures
            match r {
                Ok(()) => self@ == BufferModel::Empty,
                Err(e) => e == Error::BufferType && self@ != BufferModel::Empty,
            },
    {
        match self {
            OpBuffer::Empty => Ok(()),
            OpBuffer::Queues(_) => Err(Error::BufferType),
        }
    }
}

/// The models of the inputs of a step: for each input the axis along which
/// it streams, if it streams, and its chunk, if there is one.
pub open spec fn chunks(inputs: Seq<(Option<usize>, Option<Tensor>)>) -> Seq<
    (Option<usize>, Option<TensorModel>),
> {
    inputs.map_values(
        |p: (Option<usize>, Option<Tensor>)|
            (
                p.0,
                match p.1 {
                    Some(t) => Some(t@),
                    None => None,
                },
            ),
    )
}

/// Whether a step returned what its model says, and left the buffer that
/// its model says.
pub open spec fn stepped(
    r: Result<Option<Vec<Tensor>>, Error>,
    buffer: BufferModel,
    want: Result<(Option<Seq<TensorModel>>, BufferModel), Error>,
) -> bool {
    match r {
        Ok(Some(tensors)) => want == Ok::<_, Error>((Some(models(tensors@)), buffer)),
        Ok(None) => want == Ok::<_, Error>((None::<Seq<TensorModel>>, buffer)),
        Err(e) => want == Err::<(Option<Seq<TensorModel>>, BufferModel), _>(e),
    }
}

/// An operator of a graph: a function from its input tensors to its output tensors.
pub trait Op {
    /// What the operator computes. An operator that does not say what it
    /// computes still computes one thing for each list of inputs.
    open spec fn eval_spec(&self, inputs: Seq<TensorModel>) -> Result<Seq<TensorModel>, Error> {
        arbitrary()
    }

    /// Evaluates the operator on its input tensors.
    fn eval(&self, inputs: Vec<Tensor>) -> (r: Result<Vec<Tensor>, Error>)
        ensures
            evaluated(r, self.eval_spec(models(inputs@))),
    ;

    /// What one step of a stream gives, and the buffer that it leaves. An
    /// operator that does not say so takes no part in streams: its steps fail.
    open spec fn step_spec(
        &self,
        inputs: Seq<(Option<usize>, Option<TensorModel>)>,
        buffer: BufferModel,
    ) -> Result<(Option<Seq<TensorModel>>, BufferModel), Error> {
        Err(Error::NoStreaming)
    }

    /// Takes one chunk for each input that streams; gives the chunk of the
    /// outputs where there is one, and `None` while the operator is waiting
    /// for more.
    fn step(&self, inputs: Vec<(Option<usize>, Option<Tensor>)>, buffer: &mut OpBuffer) -> (r:
        Result<Option<Vec<Tensor>>, Error>)
        ensures
            stepped(r, final(buffer)@, self.step_spec(chunks(inputs@), old(buffer)@)),
    ;

    /// The buffer with which the operator starts a stream: the one that
    /// holds nothing, unless the operator says otherwise.
    open spec fn fresh_buffer(&self) -> BufferModel {
        BufferModel::Empty
    }

    /// The buffer with which the operator starts a stream.
    fn new_buffer(&self) -> (r: OpBuffer)
        ensures
            r@ == self.fresh_buffer(),
    ;

    /// The attributes of the operator, by their names: none, unless the
    /// operator says otherwise.
    open spec fn attributes(&self) -> Seq<(Seq<char>, Attr)> {
        Seq::empty()
    }

    /// The attributes of the operator, by their names.
    fn get_attributes(&self) -> (r: Vec<(&'static str, Attr)>)
        ensures
            attrs_model(r@) == self.attributes(),
    ;
}

} // verus!
