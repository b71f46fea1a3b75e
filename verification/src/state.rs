//! The state of one execution: for each node, the tensors that it produced.

use vstd::prelude::*;
use crate::errors::Error;
use crate::model::{find_last, names_of, Model, Node};
use crate::ops::{models, Op};
use crate::path::wrote;
use crate::plan::{is_plan, unplannable, Plan};
use crate::tensor::{Tensor, TensorModel};

verus! {

/// What the nodes of a model produced so far: for each node, nothing yet or
/// its output tensors.
pub type Slots = Seq<Option<Seq<TensorModel>>>;

/// The model of what one node produced.
pub open spec fn slot_model(slot: Option<Vec<Tensor>>) -> Option<Seq<TensorModel>> {
    match slot {
        Some(v) => Some(models(v@)),
        None => None,
    }
}

/// The model of what the nodes produced.
pub open spec fn slots_model(outputs: Seq<Option<Vec<Tensor>>>) -> Slots {
    outputs.map_values(|s: Option<Vec<Tensor>>| slot_model(s))
}

/// The tensor that an input of `node` reads: none for a control input.
/// `DependencyMissing` where the producer has produced nothing, and
/// `InvalidOutputRef` where it has not produced the output that is read.
pub open spec fn fetch(slots: Slots, node: usize, input: (usize, Option<usize>)) -> Result<
    Option<TensorModel>,
    Error,
> {
    let (producer, output) = input;
    if producer >= slots.len() || slots[producer as int] is None {
        Err(Error::DependencyMissing { node, producer })
    } else {
        match output {
            None => Ok(None),
            Some(k) => if k < slots[producer as int].unwrap().len() {
                Ok(Some(slots[producer as int].unwrap()[k as int]))
            } else {
                Err(Error::InvalidOutputRef { node, producer })
            },
        }
    }
}

/// The tensors that the inputs of `node` read, in their order, or the error
/// of the first input that reads none.
pub open spec fn gather(slots: Slots, node: usize, inputs: Seq<(usize, Option<usize>)>) -> Result<
    Seq<TensorModel>,
    Error,
>
    decreases inputs.len(),
{
    if inputs.len() == 0 {
        Ok(Seq::empty())
    } else {
        match gather(slots, node, inputs.drop_last()) {
            Err(e) => Err(e),
            Ok(head) => match fetch(slots, node, inputs.last()) {
                Err(e) => Err(e),
                Ok(None) => Ok(head),
                Ok(Some(t)) => Ok(head.push(t)),
            },
        }
    }
}

/// The slots after the node `node` was evaluated on what its producers produced.
pub open spec fn compute<O: Op>(nodes: Seq<Node<O>>, slots: Slots, node: usize) -> Result<
    Slots,
    Error,
> {
    if node >= nodes.len() || node >= slots.len() {
        Err(Error::InvalidNode(node))
    } else {
        match gather(slots, node, nodes[node as int].inputs@) {
            Err(e) => Err(e),
            Ok(inputs) => match nodes[node as int].op.eval_spec(inputs) {
                Err(e) => Err(e),
                Ok(outputs) => Ok(slots.update(node as int, Some(outputs))),
            },
        }
    }
}

/// The slots after the nodes of `order` that had produced nothing were
/// evaluated one after the other, or the first error.
pub open spec fn run_order<O: Op>(nodes: Seq<Node<O>>, slots: Slots, order: Seq<usize>) -> Result<
    Slots,
    Error,
>
    decreases order.len(),
{
    if order.len() == 0 {
        Ok(slots)
    } else {
        match run_order(nodes, slots, order.drop_last()) {
            Err(e) => Err(e),
            Ok(before) => {
                let node = order.last();
                if node < before.len() && before[node as int] is Some {
                    Ok(before)
                } else {
                    compute(nodes, before, node)
                }
            },
        }
    }
}

/// The state of one execution of a model.
pub struct ModelState<'a, O> {
    model: &'a Model<O>,
    outputs: Vec<Option<Vec<Tensor>>>,
}

impl<'a, O> ModelState<'a, O> {
    #[verifier::type_invariant]
    spec fn well_formed(self) -> bool {
        self.outputs@.len() == self.model.nodes@.len()
    }

    /// The model that is executed.
    pub closed spec fn graph(&self) -> Model<O> {
        *self.model
    }

    /// What the nodes produced so far.
    pub closed spec fn slots(&self) -> Slots {
        slots_model(self.outputs@)
    }
}

/// A list of `n` empty slots.
fn empty_slots(n: usize) -> (r: Vec<Option<Vec<Tensor>>>)
    ensures
        r@.len() == n,
        slots_model(r@) == Seq::new(n as nat, |i: int| None::<Seq<TensorModel>>),
{
    let mut out: Vec<Option<Vec<Tensor>>> = Vec::new();
    let mut i: usize = 0;
    while i < n
        invariant
            0 <= i <= n,
            out@.len() == i,
            forall|j: int| 0 <= j < i ==> out@[j] is None,
        decreases n - i,
    {
        out.push(None);
        i += 1;
    }
    assert(slots_model(out@) =~= Seq::new(n as nat, |i: int| None::<Seq<TensorModel>>));
    out
}

impl<'a, O: Op> ModelState<'a, O> {
    /// The state of an execution of `model` in which no node has produced anything.
    pub fn new(model: &'a Model<O>) -> (r: ModelState<'a, O>)
        ensures
            r.graph() == *model,
            r.slots() == Seq::new(model.nodes@.len(), |i: int| None::<Seq<TensorModel>>),
    {
        ModelState { model, outputs: empty_slots(model.nodes.len()) }
    }

    /// The model that is executed.
    pub fn model(&self) -> (r: &Model<O>)
        ensures
            *r == self.graph(),
    {
        self.model
    }

    /// Forgets what the nodes produced.
    pub fn reset(&mut self) -> (r: Result<(), Error>)
        ensures
            r is Ok,
            final(self).graph() == old(self).graph(),
            final(self).slots() == Seq::new(
                old(self).graph().nodes@.len(),
                |i: int| None::<Seq<TensorModel>>,
            ),
    {
        self.outputs = empty_slots(self.model.nodes.len());
        Ok(())
    }
}

/// The slots after the node `id` was given `values` as what it produced.
pub open spec fn with_outputs(slots: Slots, id: usize, values: Seq<TensorModel>) -> Result<
    Slots,
    Error,
> {
    if id < slots.len() {
        Ok(slots.update(id as int, Some(values)))
    } else {
        Err(Error::InvalidNode(id))
    }
}

/// What `take` returns and leaves: the tensors of the node, and its slot empty.
pub open spec fn taken(slots: Slots, id: usize) -> Result<(Seq<TensorModel>, Slots), Error> {
    if id >= slots.len() {
        Err(Error::InvalidNode(id))
    } else {
        match slots[id as int] {
            None => Err(Error::NotComputed(id)),
            Some(values) => Ok((values, slots.update(id as int, None))),
        }
    }
}

impl<'a, O: Op> ModelState<'a, O> {
    /// Gives the node `id` its outputs. `InvalidNode` where there is no such node.
    pub fn set_outputs(&mut self, id: usize, values: Vec<Tensor>) -> (r: Result<(), Error>)
        ensures
            final(self).graph() == old(self).graph(),
            wrote(
                r,
                old(self).slots(),
                final(self).slots(),
                with_outputs(old(self).slots(), id, models(values@)),
            ),
    {
        proof {
            use_type_invariant(&*self);
        }
        if id >= self.outputs.len() {
            return Err(Error::InvalidNode(id));
        }
        let ghost before = self.outputs@;
        self.outputs[id] = Some(values);
        assert(slots_model(self.outputs@) =~= slots_model(before).update(
            id as int,
            Some(models(values@)),
        ));
        Ok(())
    }

    /// Gives the node `id` one output. `InvalidNode` where there is no such node.
    pub fn set_value(&mut self, id: usize, value: Tensor) -> (r: Result<(), Error>)
        ensures
            final(self).graph() == old(self).graph(),
            wrote(
                r,
                old(self).slots(),
                final(self).slots(),
                with_outputs(old(self).slots(), id, seq![value@]),
            ),
    {
        let mut values: Vec<Tensor> = Vec::new();
        values.push(value);
        assert(models(values@) =~= seq![value@]);
        self.set_outputs(id, values)
    }

    /// Evaluates the node `node` on what its producers produced, and keeps
    /// what it produces. Where that fails the state is left as it was.
    pub fn compute_one(&mut self, node: usize) -> (r: Result<(), Error>)
        ensures
            final(self).graph() == old(self).graph(),
            wrote(
                r,
                old(self).slots(),
                final(self).slots(),
                compute(old(self).graph().nodes@, old(self).slots(), node),
            ),
    {
        proof {
            use_type_invariant(&*self);
        }
        if node >= self.model.nodes.len() {
            return Err(Error::InvalidNode(node));
        }
        let n = &self.model.nodes[node];
        let ghost slots = slots_model(self.outputs@);
        let mut inputs: Vec<Tensor> = Vec::new();
        let mut i: usize = 0;
        assert(n.inputs@.take(0) =~= Seq::<(usize, Option<usize>)>::empty());
        assert(models(inputs@) =~= Seq::<TensorModel>::empty());
        while i < n.inputs.len()
            invariant
                0 <= i <= n.inputs@.len(),
                *self == *old(self),
                node < self.model.nodes@.len(),
                *n == self.model.nodes@[node as int],
                self.outputs@.len() == self.model.nodes@.len(),
                slots == slots_model(self.outputs@),
                gather(slots, node, n.inputs@.take(i as int)) == Ok::<_, Error>(models(inputs@)),
            decreases n.inputs@.len() - i,
        {
            let (producer, output) = n.inputs[i];
            proof {
                assert(n.inputs@.take(i + 1).drop_last() =~= n.inputs@.take(i as int));
                assert(n.inputs@.take(i + 1).last() == (producer, output));
            }
            if producer >= self.outputs.len() {
                proof {
                    lemma_gather_fails(slots, node, n.inputs@, i + 1);
                }
                return Err(Error::DependencyMissing { node, producer });
            }
            match &self.outputs[producer] {
                None => {
                    proof {
                        lemma_gather_fails(slots, node, n.inputs@, i + 1);
                    }
                    return Err(Error::DependencyMissing { node, producer });
                },
                Some(produced) => {
                    assert(slots[producer as int] == Some(models(produced@)));
                    match output {
                        None => {},
                        Some(k) => {
                            if k < produced.len() {
                                let ghost before = inputs@;
                                inputs.push(produced[k].duplicate());
                                assert(models(inputs@) =~= models(before).push(produced@[k as int]@));
                            } else {
                                proof {
                                    lemma_gather_fails(slots, node, n.inputs@, i + 1);
                                }
                                return Err(Error::InvalidOutputRef { node, producer });
                            }
                        },
                    }
                },
            }
            i += 1;
        }
        assert(n.inputs@.take(n.inputs@.len() as int) =~= n.inputs@);
        let outputs = n.op.eval(inputs)?;
        let ghost before = self.outputs@;
        self.outputs[node] = Some(outputs);
        assert(slots_model(self.outputs@) =~= slots_model(before).update(
            node as int,
            Some(models(outputs@)),
        ));
        Ok(())
    }

    /// Takes what the node `id` produced out of the state. `InvalidNode`
    /// where there is no such node, `NotComputed` where it produced nothing.
    pub fn take(&mut self, id: usize) -> (r: Result<Vec<Tensor>, Error>)
        ensures
            final(self).graph() == old(self).graph(),
            match r {
                Ok(values) => taken(old(self).slots(), id) == Ok::<_, Error>(
                    (models(values@), final(self).slots()),
                ),
                Err(e) => taken(old(self).slots(), id) == Err::<(Seq<TensorModel>, Slots), _>(e)
                    && final(self).slots() == old(self).slots(),
            },
    {
        proof {
            use_type_invariant(&*self);
        }
        if id >= self.outputs.len() {
            return Err(Error::InvalidNode(id));
        }
        let ghost before = self.outputs@;
        match self.outputs[id].take() {
            None => {
                assert(self.outputs@ =~= before);
                Err(Error::NotComputed(id))
            },
            Some(values) => {
                assert(slots_model(self.outputs@) =~= slots_model(before).update(id as int, None));
                Ok(values)
            },
        }
    }
}

/// Where a prefix of the inputs of a node reads no tensor, the whole list
/// fails with the same error.
pub proof fn lemma_gather_fails(
    slots: Slots,
    node: usize,
    inputs: Seq<(usize, Option<usize>)>,
    i: int,
)
    requires
        0 <= i <= inputs.len(),
        gather(slots, node, inputs.take(i)) is Err,
    ensures
        gather(slots, node, inputs) == gather(slots, node, inputs.take(i)),
    decreases inputs.len(),
{
    if i == inputs.len() {
        assert(inputs.take(i) =~= inputs);
    } else {
        assert(inputs.drop_last().take(i) =~= inputs.take(i));
        lemma_gather_fails(slots, node, inputs.drop_last(), i);
    }
}

/// The models of a list of tensors, each with the id of the node that it is given to.
pub open spec fn fed(inputs: Seq<(usize, Tensor)>) -> Seq<(usize, TensorModel)> {
    inputs.map_values(|p: (usize, Tensor)| (p.0, p.1@))
}

/// The slots of `n` nodes after each of `inputs` was given to its node as
/// that node's only output, or `InvalidNode` with the first id that is no node.
pub open spec fn seeded(n: nat, inputs: Seq<(usize, TensorModel)>) -> Result<Slots, Error>
    decreases inputs.len(),
{
    if inputs.len() == 0 {
        Ok(Seq::new(n, |i: int| None::<Seq<TensorModel>>))
    } else {
        match seeded(n, inputs.drop_last()) {
            Err(e) => Err(e),
            Ok(slots) => with_outputs(slots, inputs.last().0, seq![inputs.last().1]),
        }
    }
}

/// What a run returns and leaves. The inputs are given to their nodes; the
/// nodes of a plan for `output` that have nothing yet are evaluated in the
/// plan's order; what `output` produced is taken out of the state. The
/// errors, in this order: an input for no node, no plan for `output`, the
/// first failure of an evaluation. A run that fails leaves what was placed
/// and evaluated before the failure.
pub open spec fn ran<O: Op>(
    nodes: Seq<Node<O>>,
    inputs: Seq<(usize, TensorModel)>,
    output: usize,
    r: Result<Seq<TensorModel>, Error>,
    after: Slots,
) -> bool {
    match seeded(nodes.len(), inputs) {
        Err(e) => r == Err::<Seq<TensorModel>, _>(e) && exists|i: int|
            0 <= i < inputs.len() && #[trigger] seeded(nodes.len(), inputs.take(i)) == Ok::<
                _,
                Error,
            >(after),
        Ok(start) => if unplannable(nodes, output) {
            r == Err::<Seq<TensorModel>, _>(Error::UnreachablePlan(output)) && after == start
        } else {
            exists|order: Seq<usize>|
                #[trigger] is_plan(nodes, seq![output], order) && match run_order(
                    nodes,
                    start,
                    order,
                ) {
                    Err(e) => r == Err::<Seq<TensorModel>, _>(e) && exists|i: int|
                        0 <= i < order.len() && #[trigger] run_order(nodes, start, order.take(i))
                            == Ok::<_, Error>(after),
                    Ok(end) => output < end.len() && end[output as int] is Some && r == Ok::<
                        _,
                        Error,
                    >(end[output as int].unwrap()) && after == end.update(output as int, None),
                }
        },
    }
}

/// Whether a run for the node `output` on `inputs`, from a state in which no
/// node had produced anything, returned `r`: see `ran`.
pub open spec fn ran_somewhere<O: Op>(
    nodes: Seq<Node<O>>,
    inputs: Seq<(usize, TensorModel)>,
    output: usize,
    r: Result<Seq<TensorModel>, Error>,
) -> bool {
    exists|after: Slots| ran(nodes, inputs, output, r, after)
}

/// The model of what a run returned.
pub open spec fn outcome(r: Result<Vec<Tensor>, Error>) -> Result<Seq<TensorModel>, Error> {
    match r {
        Ok(v) => Ok(models(v@)),
        Err(e) => Err(e),
    }
}

/// A run leaves as many slots as it found, fills the slot of every node of
/// its order, and empties none.
pub proof fn lemma_run_order_fills<O: Op>(nodes: Seq<Node<O>>, slots: Slots, order: Seq<usize>)
    requires
        run_order(nodes, slots, order) is Ok,
    ensures
        run_order(nodes, slots, order).unwrap().len() == slots.len(),
        forall|k: int|
            0 <= k < order.len() ==> order[k] < slots.len() && run_order(
                nodes,
                slots,
                order,
            ).unwrap()[order[k] as int] is Some,
        forall|x: int|
            0 <= x < slots.len() && slots[x] is Some ==> run_order(
                nodes,
                slots,
                order,
            ).unwrap()[x] is Some,
    decreases order.len(),
{
    if order.len() > 0 {
        lemma_run_order_fills(nodes, slots, order.drop_last());
        let before = run_order(nodes, slots, order.drop_last()).unwrap();
        let end = run_order(nodes, slots, order).unwrap();
        assert forall|k: int| 0 <= k < order.len() implies order[k] < slots.len() && end[order[k] as int] is Some by {
            if k < order.len() - 1 {
                assert(order.drop_last()[k] == order[k]);
            }
        }
    }
}

impl<'a, O: Op> ModelState<'a, O> {
    /// Whether the node `id` has produced its outputs.
    pub fn is_computed(&self, id: usize) -> (r: bool)
        ensures
            r == (id < self.slots().len() && self.slots()[id as int] is Some),
    {
        id < self.outputs.len() && self.outputs[id].is_some()
    }

    /// Runs the model for the node `output` on `inputs`: see `ran`.
    pub fn run(&mut self, inputs: Vec<(usize, Tensor)>, output: usize) -> (r: Result<
        Vec<Tensor>,
        Error,
    >)
        ensures
            final(self).graph() == old(self).graph(),
            ran(old(self).graph().nodes@, fed(inputs@), output, outcome(r), final(self).slots()),
    {
        proof {
            use_type_invariant(&*self);
        }
        let _ = self.reset();
        let ghost nodes = self.model.nodes@;
        let ghost given = fed(inputs@);
        let mut i: usize = 0;
        assert(given.take(0) =~= Seq::<(usize, TensorModel)>::empty());
        while i < inputs.len()
            invariant
                0 <= i <= inputs@.len(),
                given == fed(inputs@),
                self.graph() == old(self).graph(),
                nodes == self.graph().nodes@,
                seeded(nodes.len(), given.take(i as int)) == Ok::<_, Error>(self.slots()),
            decreases inputs@.len() - i,
        {
            proof {
                assert(given.take(i + 1).drop_last() =~= given.take(i as int));
                assert(given.take(i + 1).last() == (inputs@[i as int].0, inputs@[i as int].1@));
            }
            match self.set_value(inputs[i].0, inputs[i].1.duplicate()) {
                Ok(()) => {},
                Err(e) => {
                    proof {
                        lemma_seeded_fails(nodes.len(), given, i + 1);
                    }
                    return Err(e);
                },
            }
            i += 1;
        }
        assert(given.take(inputs@.len() as int) =~= given);
        let ghost start = self.slots();
        let mut targets: Vec<usize> = Vec::new();
        targets.push(output);
        assert(targets@ =~= seq![output]);
        let plan = match Plan::for_model(self.model, targets.as_slice()) {
            Ok(plan) => plan,
            Err(e) => {
                assert(seq![output][0] == output);
                return Err(e);
            },
        };
        proof {
            assert(plan.order@.contains(seq![output][0]));
            assert(!unplannable(nodes, output));
        }
        match plan.run(self) {
            Ok(()) => {},
            Err(e) => {
                return Err(e);
            },
        }
        proof {
            lemma_run_order_fills(nodes, start, plan.order@);
            let k = choose|k: int| 0 <= k < plan.order@.len() && plan.order@[k] == output;
            assert(self.slots()[plan.order@[k] as int] is Some);
        }
        self.take(output)
    }
}

/// Where a prefix of the inputs names no node, the whole list fails with the same error.
pub proof fn lemma_seeded_fails(n: nat, inputs: Seq<(usize, TensorModel)>, i: int)
    requires
        0 <= i <= inputs.len(),
        seeded(n, inputs.take(i)) is Err,
    ensures
        seeded(n, inputs) == seeded(n, inputs.take(i)),
    decreases inputs.len(),
{
    if i == inputs.len() {
        assert(inputs.take(i) =~= inputs);
    } else {
        assert(inputs.drop_last().take(i) =~= inputs.take(i));
        lemma_seeded_fails(n, inputs.drop_last(), i);
    }
}

/// The models of a list of tensors, each with the name of the node that it is given to.
pub open spec fn fed_by_name(values: Seq<(&str, Tensor)>) -> Seq<(Seq<char>, TensorModel)> {
    values.map_values(|p: (&str, Tensor)| (p.0@, p.1@))
}

/// The tensors of a list, each with the id of the node that has its name:
/// `UnknownNode` where a name is that of no node.
pub open spec fn named(names: Seq<Seq<char>>, values: Seq<(Seq<char>, TensorModel)>) -> Result<
    Seq<(usize, TensorModel)>,
    Error,
>
    decreases values.len(),
{
    if values.len() == 0 {
        Ok(Seq::empty())
    } else {
        match named(names, values.drop_last()) {
            Err(e) => Err(e),
            Ok(head) => match find_last(names, values.last().0) {
                None => Err(Error::UnknownNode),
                Some(id) => Ok(head.push((id as usize, values.last().1))),
            },
        }
    }
}

/// Where a prefix of the names holds one that is that of no node, so does the whole list.
pub proof fn lemma_named_fails(
    names: Seq<Seq<char>>,
    values: Seq<(Seq<char>, TensorModel)>,
    i: int,
)
    requires
        0 <= i <= values.len(),
        named(names, values.take(i)) is Err,
    ensures
        named(names, values) == named(names, values.take(i)),
    decreases values.len(),
{
    if i == values.len() {
        assert(values.take(i) =~= values);
    } else {
        assert(values.drop_last().take(i) =~= values.take(i));
        lemma_named_fails(names, values.drop_last(), i);
    }
}

/// The slots after each tensor of a list was given to the node that has its
/// name, one after the other: `UnknownNode` at the first name that is that
/// of no node.
pub open spec fn with_values(
    names: Seq<Seq<char>>,
    slots: Slots,
    values: Seq<(Seq<char>, TensorModel)>,
) -> Result<Slots, Error>
    decreases values.len(),
{
    if values.len() == 0 {
        Ok(slots)
    } else {
        match with_values(names, slots, values.drop_last()) {
            Err(e) => Err(e),
            Ok(before) => match find_last(names, values.last().0) {
                None => Err(Error::UnknownNode),
                Some(id) => with_outputs(before, id as usize, seq![values.last().1]),
            },
        }
    }
}

/// Where giving a prefix of the tensors fails, giving all of them fails with the same error.
pub proof fn lemma_with_values_fails(
    names: Seq<Seq<char>>,
    slots: Slots,
    values: Seq<(Seq<char>, TensorModel)>,
    i: int,
)
    requires
        0 <= i <= values.len(),
        with_values(names, slots, values.take(i)) is Err,
    ensures
        with_values(names, slots, values) == with_values(names, slots, values.take(i)),
    decreases values.len(),
{
    if i == values.len() {
        assert(values.take(i) =~= values);
    } else {
        assert(values.drop_last().take(i) =~= values.take(i));
        lemma_with_values_fails(names, slots, values.drop_last(), i);
    }
}

impl<'a, O: Op> ModelState<'a, O> {
    /// Gives each tensor of a list to the node that has its name, as the one
    /// output of that node: see `with_values`. It stops at the first name
    /// that is that of no node; the tensors before it stay where they were put.
    pub fn set_values(&mut self, values: Vec<(&str, Tensor)>) -> (r: Result<(), Error>)
        ensures
            final(self).graph() == old(self).graph(),
            match r {
                Ok(()) => with_values(
                    names_of(old(self).graph().nodes@),
                    old(self).slots(),
                    fed_by_name(values@),
                ) == Ok::<_, Error>(final(self).slots()),
                Err(e) => with_values(
                    names_of(old(self).graph().nodes@),
                    old(self).slots(),
                    fed_by_name(values@),
                ) == Err::<Slots, _>(e) && exists|i: int|
                    0 <= i < values@.len() && #[trigger] with_values(
                        names_of(old(self).graph().nodes@),
                        old(self).slots(),
                        fed_by_name(values@).take(i),
                    ) == Ok::<_, Error>(final(self).slots()),
            },
    {
        let ghost names = names_of(self.graph().nodes@);
        let ghost start = self.slots();
        let ghost given = fed_by_name(values@);
        let mut i: usize = 0;
        assert(given.take(0) =~= Seq::<(Seq<char>, TensorModel)>::empty());
        while i < values.len()
            invariant
                0 <= i <= values@.len(),
                given == fed_by_name(values@),
                self.graph() == old(self).graph(),
                names == names_of(self.graph().nodes@),
                start == old(self).slots(),
                with_values(names, start, given.take(i as int)) == Ok::<_, Error>(self.slots()),
            decreases values@.len() - i,
        {
            proof {
                assert(given.take(i + 1).drop_last() =~= given.take(i as int));
                assert(given.take(i + 1).last() == (values@[i as int].0@, values@[i as int].1@));
            }
            let id = match self.model().node_id_by_name(values[i].0) {
                Ok(id) => id,
                Err(e) => {
                    proof {
                        lemma_with_values_fails(names, start, given, i + 1);
                    }
                    return Err(e);
                },
            };
            match self.set_value(id, values[i].1.duplicate()) {
                Ok(()) => {},
                Err(e) => {
                    proof {
                        lemma_with_values_fails(names, start, given, i + 1);
                    }
                    return Err(e);
                },
            }
            i += 1;
        }
        assert(given.take(values@.len() as int) =~= given);
        Ok(())
    }

    /// Takes what the node with this name produced out of the state.
    /// `UnknownNode` where no node has the name, `NotComputed` where the
    /// node produced nothing.
    pub fn take_by_name(&mut self, name: &str) -> (r: Result<Vec<Tensor>, Error>)
        ensures
            final(self).graph() == old(self).graph(),
            match find_last(names_of(old(self).graph().nodes@), name@) {
                None => r == Err::<Vec<Tensor>, _>(Error::UnknownNode) && final(self).slots() == old(
                    self,
                ).slots(),
                Some(id) => match r {
                    Ok(values) => taken(old(self).slots(), id as usize) == Ok::<_, Error>(
                        (models(values@), final(self).slots()),
                    ),
                    Err(e) => taken(old(self).slots(), id as usize) == Err::<
                        (Seq<TensorModel>, Slots),
                        _,
                    >(e) && final(self).slots() == old(self).slots(),
                },
            },
    {
        let id = match self.model().node_id_by_name(name) {
            Ok(id) => id,
            Err(e) => {
                return Err(e);
            },
        };
        self.take(id)
    }
}

} // verus!
