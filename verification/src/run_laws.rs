//! Laws of evaluation: what a run computes for a node does not depend on
//! the order in which the plan has put the nodes.

use vstd::prelude::*;
use crate::errors::Error;
use crate::model::Node;
use crate::ops::Op;
use crate::plan::{
    appears_before, is_plan, lemma_needed_is_held, needs, unplannable, valid_order, wanted,
};
use crate::state::{
    compute, fetch, gather, lemma_run_order_fills, ran, run_order, seeded, Slots,
};
use crate::tensor::TensorModel;

verus! {

/// Whether every filled slot holds what the run started with or, where it
/// started with nothing, what the operator of its node gives for the
/// outputs of the node's producers.
pub open spec fn settled<O: Op>(nodes: Seq<Node<O>>, start: Slots, slots: Slots) -> bool {
    &&& slots.len() == start.len()
    &&& forall|x: int|
        0 <= x < slots.len() && (#[trigger] slots[x]) is Some ==> if start[x] is Some {
            slots[x] == start[x]
        } else {
            x < nodes.len() && match gather(slots, x as usize, nodes[x].inputs@) {
                Ok(inputs) => nodes[x].op.eval_spec(inputs) == Ok::<_, Error>(slots[x].unwrap()),
                Err(_) => false,
            }
        }
}

/// Where the inputs of a node read their tensors, every producer among
/// them has produced something.
pub proof fn lemma_gather_reads(
    slots: Slots,
    node: usize,
    inputs: Seq<(usize, Option<usize>)>,
    i: int,
)
    requires
        gather(slots, node, inputs) is Ok,
        0 <= i < inputs.len(),
    ensures
        inputs[i].0 < slots.len(),
        slots[inputs[i].0 as int] is Some,
    decreases inputs.len(),
{
    if i < inputs.len() - 1 {
        lemma_gather_reads(slots, node, inputs.drop_last(), i);
    }
}

/// The inputs of a node read the same tensors from two lists of slots that
/// agree on the node's producers.
pub proof fn lemma_gather_agrees(
    a: Slots,
    b: Slots,
    node: usize,
    inputs: Seq<(usize, Option<usize>)>,
)
    requires
        a.len() == b.len(),
        forall|i: int|
            0 <= i < inputs.len() && (#[trigger] inputs[i]).0 < a.len() ==> a[inputs[i].0 as int]
                == b[inputs[i].0 as int],
    ensures
        gather(a, node, inputs) == gather(b, node, inputs),
    decreases inputs.len(),
{
    if inputs.len() > 0 {
        assert forall|i: int|
            0 <= i < inputs.drop_last().len() && (#[trigger] inputs.drop_last()[i]).0
                < a.len() implies a[inputs.drop_last()[i].0 as int] == b[inputs.drop_last()[i].0 as int] by {
            assert(inputs.drop_last()[i] == inputs[i]);
        }
        lemma_gather_agrees(a, b, node, inputs.drop_last());
        let last = inputs[inputs.len() - 1];
        assert(last == inputs.last());
        assert(fetch(a, node, last) == fetch(b, node, last));
    }
}

/// The slots that a run leaves are settled.
pub proof fn lemma_run_settles<O: Op>(nodes: Seq<Node<O>>, start: Slots, order: Seq<usize>)
    requires
        run_order(nodes, start, order) is Ok,
    ensures
        settled(nodes, start, run_order(nodes, start, order).unwrap()),
    decreases order.len(),
{
    if order.len() > 0 {
        lemma_run_settles(nodes, start, order.drop_last());
        let before = run_order(nodes, start, order.drop_last()).unwrap();
        let end = run_order(nodes, start, order).unwrap();
        let node = order.last();
        if !(node < before.len() && before[node as int] is Some) {
            assert(end == compute(nodes, before, node).unwrap());
            assert forall|x: int| 0 <= x < end.len() && (#[trigger] end[x]) is Some implies if start[x] is Some {
                end[x] == start[x]
            } else {
                x < nodes.len() && match gather(end, x as usize, nodes[x].inputs@) {
                    Ok(inputs) => nodes[x].op.eval_spec(inputs) == Ok::<_, Error>(end[x].unwrap()),
                    Err(_) => false,
                }
            } by {
                if x != node {
                    assert(before[x] is Some);
                }
                if start[x] is None {
                    let inputs = nodes[x].inputs@;
                    assert(gather(before, x as usize, inputs) is Ok);
                    assert forall|i: int|
                        0 <= i < inputs.len() && (#[trigger] inputs[i]).0 < before.len() implies before[inputs[i].0 as int]
                        == end[inputs[i].0 as int] by {
                        lemma_gather_reads(before, x as usize, inputs, i);
                    }
                    lemma_gather_agrees(before, end, x as usize, inputs);
                } else if x == node {
                    lemma_run_order_fills(nodes, start, order.drop_last());
                }
            }
        }
    }
}

/// Whether every filled slot of `a` holds in `b` what it holds in `a`.
pub open spec fn within(a: Slots, b: Slots) -> bool {
    &&& a.len() == b.len()
    &&& forall|x: int| 0 <= x < a.len() && (#[trigger] a[x]) is Some ==> b[x] == a[x]
}

/// A valid order without its last node is a valid order.
pub proof fn lemma_valid_prefix<O>(nodes: Seq<Node<O>>, order: Seq<usize>)
    requires
        valid_order(nodes, order),
        order.len() > 0,
    ensures
        valid_order(nodes, order.drop_last()),
{
    let prefix = order.drop_last();
    assert forall|k: int, i: int|
        0 <= k < prefix.len() && 0 <= i < nodes[prefix[k] as int].inputs@.len()
        implies #[trigger] appears_before(prefix, k, nodes[prefix[k] as int].inputs@[i].0) by {
        let p = nodes[order[k] as int].inputs@[i].0;
        assert(appears_before(order, k, p));
        let j = choose|j: int| 0 <= j < k && order[j] == p;
        assert(prefix[j] == p);
    }
}

/// A run in a valid order, from slots out of which another run has filled
/// every node of the order, succeeds, and fills each slot with what the
/// other run filled it with.
pub proof fn lemma_run_follows<O: Op>(
    nodes: Seq<Node<O>>,
    start: Slots,
    end: Slots,
    order: Seq<usize>,
)
    requires
        settled(nodes, start, end),
        within(start, end),
        valid_order(nodes, order),
        forall|k: int|
            0 <= k < order.len() ==> (#[trigger] order[k]) < end.len() && end[order[k] as int]
                is Some,
    ensures
        run_order(nodes, start, order) is Ok,
        within(run_order(nodes, start, order).unwrap(), end),
    decreases order.len(),
{
    if order.len() > 0 {
        let prefix = order.drop_last();
        lemma_valid_prefix(nodes, order);
        assert forall|k: int| 0 <= k < prefix.len() implies (#[trigger] prefix[k]) < end.len()
            && end[prefix[k] as int] is Some by {
            assert(prefix[k] == order[k]);
        }
        lemma_run_follows(nodes, start, end, prefix);
        lemma_run_order_fills(nodes, start, prefix);
        let before = run_order(nodes, start, prefix).unwrap();
        let k = order.len() - 1;
        let x = order[k];
        assert(x == order.last());
        if !(x < before.len() && before[x as int] is Some) {
            let inputs = nodes[x as int].inputs@;
            assert(end[x as int] is Some);
            assert(start[x as int] is None);
            assert forall|i: int|
                0 <= i < inputs.len() && (#[trigger] inputs[i]).0 < before.len() implies before[inputs[i].0 as int]
                == end[inputs[i].0 as int] by {
                let p = inputs[i].0;
                assert(appears_before(order, k, nodes[order[k] as int].inputs@[i].0));
                let j = choose|j: int| 0 <= j < k && order[j] == p;
                assert(prefix[j] == p);
            }
            lemma_gather_agrees(before, end, x, inputs);
        }
    }
}

/// Two runs of a graph on the same inputs for the same node give the same
/// outputs and leave the same state, whatever the order in which each
/// evaluated the nodes: where one gives outputs, so does the other, and they
/// are the same. Where the inputs cannot be placed or the node cannot be
/// planned for, both fail with the same error. (Where an operator fails, the
/// error is that of the first operator that failed in the order of the run.)
pub proof fn lemma_runs_agree<O: Op>(
    nodes: Seq<Node<O>>,
    inputs: Seq<(usize, TensorModel)>,
    output: usize,
    first: Result<Seq<TensorModel>, Error>,
    first_after: Slots,
    second: Result<Seq<TensorModel>, Error>,
    second_after: Slots,
)
    requires
        ran(nodes, inputs, output, first, first_after),
        ran(nodes, inputs, output, second, second_after),
    ensures
        first is Ok || second is Ok ==> first == second && first_after == second_after,
        seeded(nodes.len(), inputs) is Err || unplannable(nodes, output) ==> first == second,
{
    if seeded(nodes.len(), inputs) is Ok && !unplannable(nodes, output) {
        let start = seeded(nodes.len(), inputs).unwrap();
        let a = choose|order: Seq<usize>|
            #[trigger] is_plan(nodes, seq![output], order) && match run_order(nodes, start, order) {
                Err(e) => first == Err::<Seq<TensorModel>, _>(e) && exists|i: int|
                    0 <= i < order.len() && #[trigger] run_order(nodes, start, order.take(i))
                        == Ok::<_, Error>(first_after),
                Ok(end) => output < end.len() && end[output as int] is Some && first == Ok::<
                    _,
                    Error,
                >(end[output as int].unwrap()) && first_after == end.update(output as int, None),
            };
        let b = choose|order: Seq<usize>|
            #[trigger] is_plan(nodes, seq![output], order) && match run_order(nodes, start, order) {
                Err(e) => second == Err::<Seq<TensorModel>, _>(e) && exists|i: int|
                    0 <= i < order.len() && #[trigger] run_order(nodes, start, order.take(i))
                        == Ok::<_, Error>(second_after),
                Ok(end) => output < end.len() && end[output as int] is Some && second == Ok::<
                    _,
                    Error,
                >(end[output as int].unwrap()) && second_after == end.update(output as int, None),
            };
        if first is Ok {
            lemma_plans_agree(nodes, start, seq![output], a, b);
        } else if second is Ok {
            lemma_plans_agree(nodes, start, seq![output], b, a);
        }
    }
}

/// Where a run in the order of one plan for some targets succeeds, so does
/// a run in the order of any other plan for them, from the same slots, and
/// it fills each slot with what the first run filled it with.
pub proof fn lemma_plan_follows<O: Op>(
    nodes: Seq<Node<O>>,
    start: Slots,
    targets: Seq<usize>,
    a: Seq<usize>,
    b: Seq<usize>,
)
    requires
        is_plan(nodes, targets, a),
        is_plan(nodes, targets, b),
        run_order(nodes, start, a) is Ok,
    ensures
        run_order(nodes, start, b) is Ok,
        within(run_order(nodes, start, b).unwrap(), run_order(nodes, start, a).unwrap()),
{
    let end = run_order(nodes, start, a).unwrap();
    lemma_run_settles(nodes, start, a);
    lemma_run_order_fills(nodes, start, a);
    assert(within(start, end));
    assert forall|k: int| 0 <= k < b.len() implies (#[trigger] b[k]) < end.len() && end[b[k] as int]
        is Some by {
        assert(wanted(nodes, targets, b[k]));
        let d = choose|d: nat| needs(nodes, targets, b[k], d);
        lemma_needed_is_held(nodes, targets, a, b[k], d);
        let j = choose|j: int| 0 <= j < a.len() && a[j] == b[k];
        assert(end[a[j] as int] is Some);
    }
    lemma_run_follows(nodes, start, end, b);
}

/// Where a run in the order of one plan for some targets succeeds, so does
/// a run in the order of any other plan for them, from the same slots, and
/// both leave the same slots: the order of a plan makes no difference.
pub proof fn lemma_plans_agree<O: Op>(
    nodes: Seq<Node<O>>,
    start: Slots,
    targets: Seq<usize>,
    a: Seq<usize>,
    b: Seq<usize>,
)
    requires
        is_plan(nodes, targets, a),
        is_plan(nodes, targets, b),
        run_order(nodes, start, a) is Ok,
    ensures
        run_order(nodes, start, b) == run_order(nodes, start, a),
{
    lemma_plan_follows(nodes, start, targets, a, b);
    lemma_plan_follows(nodes, start, targets, b, a);
    assert(run_order(nodes, start, b).unwrap() =~= run_order(nodes, start, a).unwrap());
}

} // verus!
