//! Evaluation plans: an order in which the nodes that a target needs can be
//! evaluated, each after the nodes that produce its inputs.

use vstd::prelude::*;
use crate::bits::{
    contains, difference_with, duplicate, elements, insert, lemma_bounded_len, members,
    with_capacity, IdSet,
};
use crate::errors::Error;
use crate::model::{Model, Node};
use crate::ops::Op;
use crate::state::{run_order, ModelState};

verus! {

/// An order of evaluation.
#[derive(Debug)]
pub struct Plan {
    pub order: Vec<usize>,
}

/// Whether `p` stands in `order` before position `k`.
pub open spec fn appears_before(order: Seq<usize>, k: int, p: usize) -> bool {
    exists|j: int| 0 <= j < k && order[j] == p
}

/// Whether every entry of `order` is a node, stands there once, and stands
/// after each node that produces one of its inputs.
pub open spec fn valid_order<O>(nodes: Seq<Node<O>>, order: Seq<usize>) -> bool {
    &&& forall|k: int| 0 <= k < order.len() ==> (#[trigger] order[k]) < nodes.len()
    &&& forall|j: int, k: int| 0 <= j < k < order.len() ==> order[j] != order[k]
    &&& forall|k: int, i: int|
        0 <= k < order.len() && 0 <= i < nodes[order[k] as int].inputs@.len()
            ==> #[trigger] appears_before(order, k, nodes[order[k] as int].inputs@[i].0)
}

/// Whether a target needs the node `x` at `d` removes: a target needs
/// itself, and whatever needs a node needs the nodes that produce its inputs.
pub open spec fn needs<O>(nodes: Seq<Node<O>>, targets: Seq<usize>, x: usize, d: nat) -> bool
    decreases d,
{
    if d == 0 {
        targets.contains(x)
    } else {
        exists|y: usize, i: int|
            needs(nodes, targets, y, (d - 1) as nat) && y < nodes.len() && 0 <= i
                < nodes[y as int].inputs@.len() && (#[trigger] nodes[y as int].inputs@[i]).0 == x
    }
}

/// Whether a target needs the node `x`.
pub open spec fn wanted<O>(nodes: Seq<Node<O>>, targets: Seq<usize>, x: usize) -> bool {
    exists|d: nat| needs(nodes, targets, x, d)
}

/// Whether `order` is a plan for `targets`: a valid order that holds every
/// target, and no node that no target needs.
pub open spec fn is_plan<O>(nodes: Seq<Node<O>>, targets: Seq<usize>, order: Seq<usize>) -> bool {
    &&& valid_order(nodes, order)
    &&& forall|t: int| 0 <= t < targets.len() ==> order.contains(#[trigger] targets[t])
    &&& forall|k: int| 0 <= k < order.len() ==> wanted(nodes, targets, #[trigger] order[k])
}

/// A valid order that holds every target holds every node that a target needs.
pub proof fn lemma_needed_is_held<O>(
    nodes: Seq<Node<O>>,
    targets: Seq<usize>,
    order: Seq<usize>,
    x: usize,
    d: nat,
)
    requires
        valid_order(nodes, order),
        forall|t: int| 0 <= t < targets.len() ==> order.contains(#[trigger] targets[t]),
        needs(nodes, targets, x, d),
    ensures
        order.contains(x),
    decreases d,
{
    if d > 0 {
        let (y, i) = choose|y: usize, i: int|
            needs(nodes, targets, y, (d - 1) as nat) && y < nodes.len() && 0 <= i
                < nodes[y as int].inputs@.len() && (#[trigger] nodes[y as int].inputs@[i]).0 == x;
        lemma_needed_is_held(nodes, targets, order, y, (d - 1) as nat);
        let k = choose|k: int| 0 <= k < order.len() && order[k] == y;
        assert(appears_before(order, k, nodes[order[k] as int].inputs@[i].0));
    }
}

/// Whether no valid order holds the node `t`: it is no node, or its
/// ancestors hold a cycle or name a node that is not there.
pub open spec fn unplannable<O>(nodes: Seq<Node<O>>, t: usize) -> bool {
    forall|order: Seq<usize>| !(valid_order(nodes, order) && #[trigger] order.contains(t))
}

/// Whether the node `x` has an input that `stuck` holds or that is no node.
pub open spec fn blocked<O>(nodes: Seq<Node<O>>, stuck: Set<usize>, x: usize) -> bool {
    exists|i: int|
        0 <= i < nodes[x as int].inputs@.len() && {
            let p = #[trigger] nodes[x as int].inputs@[i].0;
            p >= nodes.len() || stuck.contains(p)
        }
}

/// No valid order holds a node of a set in which every node waits for
/// another node of the set, or for a node that is not there.
pub proof fn lemma_stuck<O>(nodes: Seq<Node<O>>, stuck: Set<usize>, order: Seq<usize>, k: int)
    requires
        valid_order(nodes, order),
        forall|x: usize| stuck.contains(x) ==> x < nodes.len() && blocked(nodes, stuck, x),
        0 <= k < order.len(),
    ensures
        !stuck.contains(order[k]),
    decreases k,
{
    let x = order[k];
    if stuck.contains(x) {
        let i = choose|i: int|
            0 <= i < nodes[x as int].inputs@.len() && {
                let p = #[trigger] nodes[x as int].inputs@[i].0;
                p >= nodes.len() || stuck.contains(p)
            };
        let p = nodes[x as int].inputs@[i].0;
        assert(appears_before(order, k, p));
        let j = choose|j: int| 0 <= j < k && order[j] == p;
        lemma_stuck(nodes, stuck, order, j);
    }
}

/// What planning returns: a plan for the targets where every target can be
/// reached, and otherwise the first target that no valid order holds.
pub open spec fn planned<O>(nodes: Seq<Node<O>>, targets: Seq<usize>, r: Result<Plan, Error>) -> bool {
    match r {
        Ok(plan) => is_plan(nodes, targets, plan.order@),
        Err(e) => exists|k: int|
            0 <= k < targets.len() && e == Error::UnreachablePlan(#[trigger] targets[k])
                && unplannable(nodes, targets[k]) && forall|j: int|
                0 <= j < k ==> !unplannable(nodes, #[trigger] targets[j]),
    }
}

/// The nodes that are needed and not yet scheduled.
pub open spec fn waiting(needed: IdSet, done: IdSet) -> Set<usize> {
    members(needed).difference(members(done))
}

/// What holds of the sets of the planner at every step.
pub open spec fn planning<O>(
    nodes: Seq<Node<O>>,
    targets: Seq<usize>,
    order: Seq<usize>,
    needed: IdSet,
    done: IdSet,
) -> bool {
    &&& members(needed).finite()
    &&& members(done).finite()
    &&& forall|x: usize| members(needed).contains(x) ==> x < nodes.len()
    &&& forall|x: usize| members(done).contains(x) <==> order.contains(x)
    &&& forall|x: usize| members(done).contains(x) ==> members(needed).contains(x)
    &&& forall|x: usize| members(needed).contains(x) ==> wanted(nodes, targets, x)
    &&& forall|t: int|
        0 <= t < targets.len() && targets[t] < nodes.len() ==> members(needed).contains(
            #[trigger] targets[t],
        )
    &&& valid_order(nodes, order)
}

impl Plan {
    /// A plan for the targets: see `planned`.
    pub fn for_model<O: Op>(model: &Model<O>, targets: &[usize]) -> (r: Result<Plan, Error>)
        ensures
            planned(model.nodes@, targets@, r),
    {
        Self::for_nodes(&model.nodes, targets)
    }

    /// Evaluates, in the order of the plan, the nodes that have produced
    /// nothing yet, and stops at the first that fails: the state then holds
    /// what the nodes before it produced.
    pub fn run<O: Op>(&self, state: &mut ModelState<O>) -> (r: Result<(), Error>)
        ensures
            final(state).graph() == old(state).graph(),
            match r {
                Ok(()) => run_order(old(state).graph().nodes@, old(state).slots(), self.order@)
                    == Ok::<_, Error>(final(state).slots()),
                Err(e) => run_order(old(state).graph().nodes@, old(state).slots(), self.order@)
                    == Err::<crate::state::Slots, _>(e) && exists|i: int|
                    0 <= i < self.order@.len() && #[trigger] run_order(
                        old(state).graph().nodes@,
                        old(state).slots(),
                        self.order@.take(i),
                    ) == Ok::<_, Error>(final(state).slots()),
            },
    {
        let ghost nodes = state.graph().nodes@;
        let ghost start = state.slots();
        let mut i: usize = 0;
        assert(self.order@.take(0) =~= Seq::<usize>::empty());
        while i < self.order.len()
            invariant
                0 <= i <= self.order@.len(),
                state.graph() == old(state).graph(),
                nodes == state.graph().nodes@,
                start == old(state).slots(),
                run_order(nodes, start, self.order@.take(i as int)) == Ok::<_, Error>(
                    state.slots(),
                ),
            decreases self.order@.len() - i,
        {
            let n = self.order[i];
            proof {
                assert(self.order@.take(i + 1).drop_last() =~= self.order@.take(i as int));
                assert(self.order@.take(i + 1).last() == n);
            }
            if !state.is_computed(n) {
                match state.compute_one(n) {
                    Ok(()) => {},
                    Err(e) => {
                        proof {
                            lemma_run_order_fails(nodes, start, self.order@, i + 1);
                        }
                        return Err(e);
                    },
                }
            }
            i += 1;
        }
        assert(self.order@.take(self.order@.len() as int) =~= self.order@);
        Ok(())
    }

    /// Schedules, pass after pass, every needed node whose producers are
    /// scheduled, and marks the producers of the others as needed, until a
    /// pass schedules no node and marks none.
    fn for_nodes<O>(nodes: &Vec<Node<O>>, targets: &[usize]) -> (r: Result<Plan, Error>)
        ensures
            planned(nodes@, targets@, r),
    {
        let n = nodes.len();
        let mut order: Vec<usize> = Vec::new();
        let mut done = with_capacity(n);
        let mut needed = with_capacity(n);
        let mut t: usize = 0;
        while t < targets.len()
            invariant
                n == nodes@.len(),
                0 <= t <= targets@.len(),
                order@.len() == 0,
                members(done) == Set::<usize>::empty(),
                members(needed).finite(),
                forall|x: usize| members(needed).contains(x) ==> x < n,
                forall|x: usize| members(needed).contains(x) ==> wanted(nodes@, targets@, x),
                forall|j: int|
                    0 <= j < t && targets@[j] < n ==> members(needed).contains(
                        #[trigger] targets@[j],
                    ),
            decreases targets@.len() - t,
        {
            if targets[t] < n {
                insert(&mut needed, targets[t]);
                assert(needs(nodes@, targets@, targets@[t as int], 0));
            }
            t += 1;
        }
        loop
            invariant
                n == nodes@.len(),
                planning(nodes@, targets@, order@, needed, done),
            ensures
                n == nodes@.len(),
                planning(nodes@, targets@, order@, needed, done),
                forall|x: usize|
                    waiting(needed, done).contains(x) ==> blocked(
                        nodes@,
                        waiting(needed, done),
                        x,
                    ),
            decreases 2 * n - members(needed).len() - members(done).len(),
        {
            let mut progress = false;
            let mut missing = duplicate(&needed);
            difference_with(&mut missing, &done);
            let ids = elements(&missing);
            let ghost needed0 = needed;
            let ghost done0 = done;
            let ghost start = members(needed).len() + members(done).len();
            proof {
                assert forall|j: int| 0 <= j < ids@.len() implies !members(done).contains(
                    #[trigger] ids@[j],
                ) by {
                    assert(ids@.contains(ids@[j]));
                }
            }
            let mut k: usize = 0;
            while k < ids.len()
                invariant
                    n == nodes@.len(),
                    planning(nodes@, targets@, order@, needed, done),
                    0 <= k <= ids@.len(),
                    forall|i: int, j: int| 0 <= i < j < ids@.len() ==> ids@[i] < ids@[j],
                    forall|x: usize| ids@.contains(x) <==> waiting(needed0, done0).contains(x),
                    forall|j: int|
                        k <= j < ids@.len() ==> !members(done).contains(#[trigger] ids@[j]),
                    members(needed0).finite(),
                    members(done0).finite(),
                    forall|x: usize| members(needed0).contains(x) ==> x < n,
                    forall|x: usize|
                        members(needed0).contains(x) ==> members(needed).contains(x),
                    start == members(needed0).len() + members(done0).len(),
                    !progress ==> members(needed) == members(needed0) && members(done)
                        == members(done0),
                    !progress ==> forall|j: int|
                        0 <= j < k ==> blocked(
                            nodes@,
                            waiting(needed0, done0),
                            #[trigger] ids@[j],
                        ),
                    members(needed).len() + members(done).len() >= members(needed0).len()
                        + members(done0).len(),
                    progress ==> members(needed).len() + members(done).len() > members(
                        needed0,
                    ).len() + members(done0).len(),
                decreases ids@.len() - k,
            {
                let node_id = ids[k];
                assert(ids@.contains(node_id));
                assert(members(needed0).contains(node_id));
                let node = &nodes[node_id];
                let mut computable = true;
                let mut i: usize = 0;
                let ghost done1 = done;
                while i < node.inputs.len()
                    invariant
                        n == nodes@.len(),
                        node_id < n,
                        members(needed).contains(node_id),
                        forall|x: usize|
                            members(needed0).contains(x) ==> members(needed).contains(x),
                        *node == nodes@[node_id as int],
                        planning(nodes@, targets@, order@, needed, done),
                        0 <= i <= node.inputs@.len(),
                        members(done) == members(done1),
                        members(needed0).finite(),
                        !progress ==> members(needed) == members(needed0) && members(done)
                            == members(done0),
                        0 <= k < ids@.len(),
                        !progress ==> forall|j: int|
                            0 <= j < k ==> blocked(
                                nodes@,
                                waiting(needed0, done0),
                                #[trigger] ids@[j],
                            ),
                        computable ==> forall|a: int|
                            0 <= a < i ==> members(done).contains(
                                (#[trigger] node.inputs@[a]).0,
                            ),
                        !computable && !progress ==> blocked(
                            nodes@,
                            waiting(needed0, done0),
                            node_id,
                        ),
                        members(needed).len() + members(done).len() >= members(needed0).len()
                            + members(done0).len(),
                        progress ==> members(needed).len() + members(done).len() > members(
                            needed0,
                        ).len() + members(done0).len(),
                    decreases node.inputs@.len() - i,
                {
                    let p = node.inputs[i].0;
                    if p >= n {
                        computable = false;
                        assert(nodes@[node_id as int].inputs@[i as int].0 == p);
                    } else if !contains(&done, p) {
                        computable = false;
                        proof {
                            let d = choose|d: nat| needs(nodes@, targets@, node_id, d);
                            assert(nodes@[node_id as int].inputs@[i as int].0 == p);
                            assert(needs(nodes@, targets@, p, d + 1));
                        }
                        if insert(&mut needed, p) {
                            progress = true;
                        } else {
                            assert(nodes@[node_id as int].inputs@[i as int].0 == p);
                        }
                    }
                    i += 1;
                }
                if computable {
                    progress = true;
                    let ghost before = order@;
                    order.push(node_id);
                    insert(&mut done, node_id);
                    proof {
                        assert(!members(done1).contains(node_id));
                        assert forall|x: usize| members(done).contains(x) <==> order@.contains(
                            x,
                        ) by {
                            if order@.contains(x) {
                                let j = choose|j: int| 0 <= j < order@.len() && order@[j] == x;
                                if j < before.len() {
                                    assert(before[j] == x);
                                    assert(before.contains(x));
                                }
                            }
                            if members(done).contains(x) {
                                if x == node_id {
                                    assert(order@[before.len() as int] == x);
                                } else {
                                    assert(before.contains(x));
                                    let j = choose|j: int| 0 <= j < before.len() && before[j] == x;
                                    assert(order@[j] == x);
                                }
                            }
                        }
                        assert forall|a: int, b: int|
                            0 <= a < b < order@.len() implies order@[a] != order@[b] by {
                            if b == before.len() {
                                assert(before[a] == order@[a]);
                                assert(before.contains(order@[a]));
                            } else {
                                assert(before[a] != before[b]);
                            }
                        }
                        assert forall|a: int, b: int|
                            0 <= a < order@.len() && 0 <= b < nodes@[order@[a] as int].inputs@.len()
                            implies #[trigger] appears_before(
                            order@,
                            a,
                            nodes@[order@[a] as int].inputs@[b].0,
                        ) by {
                            let p = nodes@[order@[a] as int].inputs@[b].0;
                            if a == before.len() {
                                assert(members(done1).contains(node.inputs@[b].0));
                                assert(before.contains(p));
                                let j = choose|j: int| 0 <= j < before.len() && before[j] == p;
                                assert(order@[j] == p);
                            } else {
                                assert(before[a] == order@[a]);
                                assert(appears_before(before, a, p));
                                let j = choose|j: int| 0 <= j < a && before[j] == p;
                                assert(order@[j] == p);
                            }
                        }
                        assert forall|a: int| 0 <= a < order@.len() implies (
                        #[trigger] order@[a]) < n by {
                            if a < before.len() {
                                assert(before[a] == order@[a]);
                            }
                        }
                    }
                }
                k += 1;
            }
            if !progress {
                proof {
                    assert forall|x: usize| waiting(needed, done).contains(x) implies blocked(
                        nodes@,
                        waiting(needed, done),
                        x,
                    ) by {
                        assert(ids@.contains(x));
                        let j = choose|j: int| 0 <= j < ids@.len() && ids@[j] == x;
                        assert(blocked(nodes@, waiting(needed0, done0), ids@[j]));
                    }
                }
                break ;
            }
            proof {
                lemma_bounded_len(members(needed), n as nat);
                assert forall|x: usize| members(done).contains(x) implies x < n by {
                    assert(order@.contains(x));
                }
                lemma_bounded_len(members(done), n as nat);
            }
        }
        let mut t: usize = 0;
        while t < targets.len()
            invariant
                n == nodes@.len(),
                planning(nodes@, targets@, order@, needed, done),
                0 <= t <= targets@.len(),
                forall|x: usize|
                    waiting(needed, done).contains(x) ==> blocked(
                        nodes@,
                        waiting(needed, done),
                        x,
                    ),
                forall|j: int| 0 <= j < t ==> order@.contains(#[trigger] targets@[j]),
            decreases targets@.len() - t,
        {
            let target = targets[t];
            if target >= n || !contains(&done, target) {
                proof {
                    let stuck = waiting(needed, done);
                    assert forall|o: Seq<usize>|
                        !(valid_order(nodes@, o) && #[trigger] o.contains(target)) by {
                        if valid_order(nodes@, o) && o.contains(target) {
                            let k = choose|k: int| 0 <= k < o.len() && o[k] == target;
                            if target < n {
                                assert(stuck.contains(target));
                                lemma_stuck(nodes@, stuck, o, k);
                            }
                        }
                    }
                    assert forall|j: int| 0 <= j < t implies !unplannable(
                        nodes@,
                        #[trigger] targets@[j],
                    ) by {
                        assert(valid_order(nodes@, order@) && order@.contains(targets@[j]));
                    }
                }
                return Err(Error::UnreachablePlan(target));
            }
            t += 1;
        }
        proof {
            assert forall|k: int| 0 <= k < order@.len() implies wanted(
                nodes@,
                targets@,
                #[trigger] order@[k],
            ) by {
                assert(order@.contains(order@[k]));
            }
        }
        Ok(Plan { order })
    }
}

/// Where a run fails on a prefix of an order, it fails on the whole order with the same error.
pub proof fn lemma_run_order_fails<O: Op>(
    nodes: Seq<Node<O>>,
    slots: crate::state::Slots,
    order: Seq<usize>,
    i: int,
)
    requires
        0 <= i <= order.len(),
        run_order(nodes, slots, order.take(i)) is Err,
    ensures
        run_order(nodes, slots, order) == run_order(nodes, slots, order.take(i)),
    decreases order.len(),
{
    if i == order.len() {
        assert(order.take(i) =~= order);
    } else {
        assert(order.drop_last().take(i) =~= order.take(i));
        lemma_run_order_fails(nodes, slots, order.drop_last(), i);
    }
}

} // verus!
