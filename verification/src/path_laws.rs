//! Laws of reading and writing at a path: writing back what was read
//! changes nothing, and a write only ever makes facts more specific.

use vstd::prelude::*;
use crate::context::{Context, ContextModel};
use crate::errors::Error;
use crate::expressions::WrappedModel;
use crate::fact_laws::{
    lemma_shape_unify_associative, lemma_shape_unify_commutative, lemma_shape_unify_idempotent,
    lemma_shape_unify_unknown, unknown_shape,
};
use crate::facts::{
    meet_dim_at, meet_shape, meet_type, meet_value, settle, shape_of_extents, shapes_agree,
    DimFact, ShapeModel, TensorFactModel,
};
use crate::path::{
    get_at, get_fact_at, get_facts_at, set_at, set_fact_at, set_facts_at, shape_with_dim,
    unknown_dims,
};

verus! {

/// A shape fact unified with itself is itself.
pub proof fn lemma_shape_unify_self(s: ShapeModel)
    ensures
        meet_shape(s, s) == Some(s),
{
    lemma_shape_unify_unknown(s);
    lemma_shape_unify_commutative(s, unknown_shape());
    lemma_shape_unify_idempotent(unknown_shape(), s);
}

/// Whether a path names a dimension that the shape of its tensor fact does not list.
pub open spec fn beyond_dims(fact: TensorFactModel, path: Seq<isize>) -> bool {
    path.len() == 2 && path[0] == 2 && path[1] >= fact.shape.dims.len()
}

/// Whether a path names the value of a tensor fact whose datatype or shape
/// does not yet say what its value says.
pub open spec fn unsettled_value(fact: TensorFactModel, path: Seq<isize>) -> bool {
    path == seq![3isize] && settle(fact) != Some(fact)
}

/// The tensor fact that a path leads into, where it leads into one.
pub open spec fn fact_on(context: ContextModel, path: Seq<isize>) -> Option<TensorFactModel> {
    if path.len() >= 2 && (path[0] == 0 || path[0] == 1) {
        let facts = if path[0] == 0 {
            context.inputs
        } else {
            context.outputs
        };
        if 0 <= path[1] < facts.len() {
            Some(facts[path[1] as int])
        } else {
            None
        }
    } else {
        None
    }
}

/// Writing back into a tensor fact what was read from it leaves it as it is.
pub proof fn lemma_fact_reread(fact: TensorFactModel, path: Seq<isize>)
    requires
        get_fact_at(fact, path) is Ok,
        fact.shape.dims.len() <= usize::MAX,
        !beyond_dims(fact, path),
        !unsettled_value(fact, path),
    ensures
        set_fact_at(fact, path, get_fact_at(fact, path).unwrap()) == Ok::<_, Error>(fact),
{
    if path.len() == 1 {
        assert(path =~= seq![path[0]]);
    }
    if path == seq![0isize] {
    } else if path == seq![1isize] {
        if !fact.shape.open {
            let n = fact.shape.dims.len();
            let u = unknown_dims(n, false);
            assert(shapes_agree(fact.shape, u));
            assert(meet_shape(fact.shape, u).unwrap().dims =~= fact.shape.dims);
        }
    } else if path == seq![2isize] {
        assert(path.skip(1) =~= Seq::<isize>::empty());
        lemma_shape_unify_self(fact.shape);
    } else if path[0] == 2 {
        assert(path.skip(1).len() == path.len() - 1);
        assert(path.skip(1)[0] == path[1]);
        let k = path[1] as nat;
        let d = fact.shape.dims[k as int];
        let w = shape_with_dim(k, d);
        assert(0 <= path[1] < fact.shape.dims.len());
        assert(w.dims.len() == k + 1);
        assert forall|i: int|
            0 <= i < fact.shape.dims.len() implies (#[trigger] meet_dim_at(fact.shape.dims, w.dims, i))
            == Some(fact.shape.dims[i]) by {
            if i < k {
                assert(w.dims[i] == DimFact::Any);
            } else if i == k {
                assert(w.dims[i] == d);
            }
        }
        assert(shapes_agree(fact.shape, w));
        assert(meet_shape(fact.shape, w).unwrap().dims =~= fact.shape.dims);
    } else if path == seq![3isize] {
        assert(path.skip(1) =~= Seq::<isize>::empty());
    } else if path[0] == 3 {
    }
}

/// Writing back at a path what was read there leaves the context as it is.
/// This holds of every path but two kinds: one that names a dimension which
/// an open shape does not list (the write lists it), and one that names the
/// value of a tensor fact on which that value was not yet imposed (the write
/// imposes it).
pub proof fn lemma_reread(context: Context, path: Seq<isize>)
    requires
        get_at(context@, path) is Ok,
        fact_on(context@, path) matches Some(fact) ==> !beyond_dims(fact, path.skip(2))
            && !unsettled_value(fact, path.skip(2)),
    ensures
        set_at(context@, path, get_at(context@, path).unwrap()) == Ok::<_, Error>(context@),
{
    let facts = if path[0] == 0 {
        context@.inputs
    } else {
        context@.outputs
    };
    let rest = path.skip(1);
    assert(get_facts_at(facts, rest) is Ok);
    if rest == seq![-1isize] {
    } else {
        assert(rest[0] == path[1]);
        let i = rest[0] as int;
        let fact = facts[i];
        assert(rest.skip(1) =~= path.skip(2));
        assert(fact_on(context@, path) == Some(fact));
        if path[0] == 0 {
            assert(fact == context.inputs@[i]@);
            let n: usize = context.inputs@[i].shape.dims.len();
            assert(fact.shape.dims.len() == n);
        } else {
            assert(fact == context.outputs@[i]@);
            let n: usize = context.outputs@[i].shape.dims.len();
            assert(fact.shape.dims.len() == n);
        }
        lemma_fact_reread(fact, rest.skip(1));
        assert(facts.update(i, fact) =~= facts);
    }
}

/// Whether the tensor fact `a` says at least what `b` says: each component
/// of `a` unifies with that of `b`, and the unification is the component of `a`.
pub open spec fn refines(a: TensorFactModel, b: TensorFactModel) -> bool {
    &&& meet_type(a.datatype, b.datatype) == Some(a.datatype)
    &&& meet_shape(a.shape, b.shape) == Some(a.shape)
    &&& meet_value(a.value, b.value) == Some(a.value)
}

/// Whether two lists hold as many facts, each of `a` refining that of `b`.
pub open spec fn facts_refine(a: Seq<TensorFactModel>, b: Seq<TensorFactModel>) -> bool {
    &&& a.len() == b.len()
    &&& forall|i: int| 0 <= i < a.len() ==> refines(#[trigger] a[i], b[i])
}

/// Whether the context `after` holds as many facts as `before`, and each
/// of them says at least what it said in `before`.
pub open spec fn refined(after: ContextModel, before: ContextModel) -> bool {
    &&& facts_refine(after.inputs, before.inputs)
    &&& facts_refine(after.outputs, before.outputs)
}

/// The unification of two shape facts says at least what each of them says.
pub proof fn lemma_meet_shape_refines(x: ShapeModel, y: ShapeModel)
    requires
        meet_shape(x, y) is Some,
    ensures
        meet_shape(meet_shape(x, y).unwrap(), x) == meet_shape(x, y),
        meet_shape(meet_shape(x, y).unwrap(), y) == meet_shape(x, y),
{
    lemma_shape_unify_idempotent(x, y);
    lemma_shape_unify_commutative(x, y);
    lemma_shape_unify_idempotent(y, x);
}

/// Every tensor fact refines itself.
pub proof fn lemma_refines_reflexive(a: TensorFactModel)
    ensures
        refines(a, a),
{
    lemma_shape_unify_self(a.shape);
}

/// A tensor fact refines what a fact that it refines refines.
pub proof fn lemma_refines_transitive(a: TensorFactModel, b: TensorFactModel, c: TensorFactModel)
    requires
        refines(a, b),
        refines(b, c),
    ensures
        refines(a, c),
{
    lemma_shape_unify_associative(a.shape, b.shape, c.shape);
}

/// Every list of facts refines itself.
pub proof fn lemma_facts_refine_reflexive(a: Seq<TensorFactModel>)
    ensures
        facts_refine(a, a),
{
    assert forall|i: int| 0 <= i < a.len() implies refines(#[trigger] a[i], a[i]) by {
        lemma_refines_reflexive(a[i]);
    }
}

/// Every context is refined by itself.
pub proof fn lemma_refined_reflexive(a: ContextModel)
    ensures
        refined(a, a),
{
    lemma_facts_refine_reflexive(a.inputs);
    lemma_facts_refine_reflexive(a.outputs);
}

/// Refinement of contexts is transitive.
pub proof fn lemma_refined_transitive(a: ContextModel, b: ContextModel, c: ContextModel)
    requires
        refined(a, b),
        refined(b, c),
    ensures
        refined(a, c),
{
    assert forall|i: int| 0 <= i < a.inputs.len() implies refines(
        #[trigger] a.inputs[i],
        c.inputs[i],
    ) by {
        assert(refines(b.inputs[i], c.inputs[i]));
        lemma_refines_transitive(a.inputs[i], b.inputs[i], c.inputs[i]);
    }
    assert forall|i: int| 0 <= i < a.outputs.len() implies refines(
        #[trigger] a.outputs[i],
        c.outputs[i],
    ) by {
        assert(refines(b.outputs[i], c.outputs[i]));
        lemma_refines_transitive(a.outputs[i], b.outputs[i], c.outputs[i]);
    }
}

/// A write into a tensor fact leaves a fact that refines it.
pub proof fn lemma_set_fact_refines(fact: TensorFactModel, path: Seq<isize>, value: WrappedModel)
    requires
        set_fact_at(fact, path, value) is Ok,
    ensures
        refines(set_fact_at(fact, path, value).unwrap(), fact),
{
    let after = set_fact_at(fact, path, value).unwrap();
    lemma_refines_reflexive(fact);
    if after.shape != fact.shape {
        if path == seq![1isize] {
            let k = value->Int_0->Only_0;
            lemma_meet_shape_refines(fact.shape, unknown_dims(k as nat, false));
        } else if path == seq![2isize] {
            lemma_meet_shape_refines(value->Shape_0, fact.shape);
        } else if path[0] == 2 && path.len() == 2 {
            lemma_meet_shape_refines(fact.shape, shape_with_dim(path[1] as nat, value->Dim_0));
        } else if path == seq![3isize] {
            let t = meet_value(fact.value, value->Value_0).unwrap()->Only_0;
            lemma_meet_shape_refines(fact.shape, shape_of_extents(t.shape));
        }
    }
}

/// A write into a list of facts leaves a list that refines it.
pub proof fn lemma_set_facts_refine(
    facts: Seq<TensorFactModel>,
    path: Seq<isize>,
    value: WrappedModel,
)
    requires
        set_facts_at(facts, path, value) is Ok,
    ensures
        facts_refine(set_facts_at(facts, path, value).unwrap(), facts),
{
    let after = set_facts_at(facts, path, value).unwrap();
    lemma_facts_refine_reflexive(facts);
    if path != seq![-1isize] {
        let i = path[0] as int;
        lemma_set_fact_refines(facts[i], path.skip(1), value);
        assert forall|j: int| 0 <= j < after.len() implies refines(#[trigger] after[j], facts[j]) by {
            if j != i {
                lemma_refines_reflexive(facts[j]);
            }
        }
    }
}

/// A write into a context leaves a context that refines it.
pub proof fn lemma_set_refines(context: ContextModel, path: Seq<isize>, value: WrappedModel)
    requires
        set_at(context, path, value) is Ok,
    ensures
        refined(set_at(context, path, value).unwrap(), context),
{
    lemma_refined_reflexive(context);
    if path[0] == 0 {
        lemma_set_facts_refine(context.inputs, path.skip(1), value);
    } else {
        lemma_set_facts_refine(context.outputs, path.skip(1), value);
    }
}

} // verus!
