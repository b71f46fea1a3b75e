//! The algebra of unification: for every kind of fact, unification is
//! commutative, associative and idempotent, and the unknown fact is its unit.

use vstd::prelude::*;
use crate::facts::{
    meet_dim, meet_dim_at, meet_int, meet_shape, meet_tensor, meet_type, meet_value, settle,
    shape_of_extents, shapes_agree, unknown_tensor, DimFact, IntFact, ShapeModel, TensorFactModel,
    TypeFact, ValueModel,
};

verus! {

/// `f` after `r`, where `r` succeeded.
pub open spec fn and_then<M>(r: Option<M>, f: spec_fn(M) -> Option<M>) -> Option<M> {
    match r {
        Some(x) => f(x),
        None => None,
    }
}

/// Unifying type facts does not depend on their order or grouping, a fact
/// unified with the unknown fact is itself, and unifying a result once more
/// with one of its arguments changes nothing.
pub proof fn lemma_type_unify(x: TypeFact, y: TypeFact, z: TypeFact)
    ensures
        meet_type(x, y) == meet_type(y, x),
        and_then(meet_type(x, y), |xy: TypeFact| meet_type(xy, z)) == and_then(
            meet_type(y, z),
            |yz: TypeFact| meet_type(x, yz),
        ),
        meet_type(x, TypeFact::Any) == Some(x),
        and_then(meet_type(x, y), |xy: TypeFact| meet_type(xy, y)) == meet_type(x, y),
{
}

/// Unifying integer facts does not depend on their order or grouping, a fact
/// unified with the unknown fact is itself, and unifying a result once more
/// with one of its arguments changes nothing.
pub proof fn lemma_int_unify(x: IntFact, y: IntFact, z: IntFact)
    ensures
        meet_int(x, y) == meet_int(y, x),
        and_then(meet_int(x, y), |xy: IntFact| meet_int(xy, z)) == and_then(
            meet_int(y, z),
            |yz: IntFact| meet_int(x, yz),
        ),
        meet_int(x, IntFact::Any) == Some(x),
        and_then(meet_int(x, y), |xy: IntFact| meet_int(xy, y)) == meet_int(x, y),
{
}

/// Unifying dimension facts does not depend on their order or grouping, a
/// fact unified with the unknown fact is itself, and unifying a result once
/// more with one of its arguments changes nothing.
pub proof fn lemma_dim_unify(x: DimFact, y: DimFact, z: DimFact)
    ensures
        meet_dim(x, y) == meet_dim(y, x),
        and_then(meet_dim(x, y), |xy: DimFact| meet_dim(xy, z)) == and_then(
            meet_dim(y, z),
            |yz: DimFact| meet_dim(x, yz),
        ),
        meet_dim(x, DimFact::Any) == Some(x),
        and_then(meet_dim(x, y), |xy: DimFact| meet_dim(xy, y)) == meet_dim(x, y),
{
}

/// Unifying value facts does not depend on their order or grouping, a fact
/// unified with the unknown fact is itself, and unifying a result once more
/// with one of its arguments changes nothing.
pub proof fn lemma_value_unify(x: ValueModel, y: ValueModel, z: ValueModel)
    ensures
        meet_value(x, y) == meet_value(y, x),
        and_then(meet_value(x, y), |xy: ValueModel| meet_value(xy, z)) == and_then(
            meet_value(y, z),
            |yz: ValueModel| meet_value(x, yz),
        ),
        meet_value(x, ValueModel::Any) == Some(x),
        and_then(meet_value(x, y), |xy: ValueModel| meet_value(xy, y)) == meet_value(x, y),
{
}

/// The shape fact of which nothing is known.
pub open spec fn unknown_shape() -> ShapeModel {
    ShapeModel { open: true, dims: Seq::<DimFact>::empty() }
}

/// Unifying shape facts does not depend on their order.
pub proof fn lemma_shape_unify_commutative(x: ShapeModel, y: ShapeModel)
    ensures
        meet_shape(x, y) == meet_shape(y, x),
{
    assert forall|i: int| 0 <= i && (i < x.dims.len() || i < y.dims.len()) implies meet_dim_at(
        x.dims,
        y.dims,
        i,
    ) == meet_dim_at(y.dims, x.dims, i) by {
        if i < x.dims.len() && i < y.dims.len() {
            lemma_dim_unify(x.dims[i], y.dims[i], DimFact::Any);
        }
    }
    if shapes_agree(x, y) {
        assert(shapes_agree(y, x));
        assert(meet_shape(x, y).unwrap().dims =~= meet_shape(y, x).unwrap().dims);
    } else {
        if shapes_agree(y, x) {
            assert forall|i: int|
                0 <= i < x.dims.len() && 0 <= i < y.dims.len() implies (#[trigger] meet_dim_at(
                x.dims,
                y.dims,
                i,
            )) is Some by {
                assert(meet_dim_at(y.dims, x.dims, i) is Some);
            }
        }
    }
}

/// A shape fact unified with the unknown shape is itself.
pub proof fn lemma_shape_unify_unknown(x: ShapeModel)
    ensures
        meet_shape(x, unknown_shape()) == Some(x),
{
    assert(shapes_agree(x, unknown_shape()));
    assert(meet_shape(x, unknown_shape()).unwrap().dims =~= x.dims);
}

/// Unifying the result of a unification of shape facts once more with one of
/// its arguments changes nothing.
pub proof fn lemma_shape_unify_idempotent(x: ShapeModel, y: ShapeModel)
    ensures
        and_then(meet_shape(x, y), |xy: ShapeModel| meet_shape(xy, y)) == meet_shape(x, y),
{
    if shapes_agree(x, y) {
        let xy = meet_shape(x, y).unwrap();
        assert forall|i: int| 0 <= i < xy.dims.len() && 0 <= i < y.dims.len() implies (
        #[trigger] meet_dim_at(xy.dims, y.dims, i)) == Some(xy.dims[i]) by {
            assert(xy.dims[i] == meet_dim_at(x.dims, y.dims, i).unwrap());
            if i < x.dims.len() {
                assert(meet_dim_at(x.dims, y.dims, i) is Some);
                lemma_dim_unify(x.dims[i], y.dims[i], DimFact::Any);
            }
        }
        assert(shapes_agree(xy, y));
        assert(meet_shape(xy, y).unwrap().dims =~= xy.dims);
    }
}

/// Unifying shape facts does not depend on how they are grouped.
pub proof fn lemma_shape_unify_associative(x: ShapeModel, y: ShapeModel, z: ShapeModel)
    ensures
        and_then(meet_shape(x, y), |xy: ShapeModel| meet_shape(xy, z)) == and_then(
            meet_shape(y, z),
            |yz: ShapeModel| meet_shape(x, yz),
        ),
{
    let left = and_then(meet_shape(x, y), |xy: ShapeModel| meet_shape(xy, z));
    let right = and_then(meet_shape(y, z), |yz: ShapeModel| meet_shape(x, yz));
    assert forall|i: int|
        0 <= i < x.dims.len() && 0 <= i < y.dims.len() && 0 <= i < z.dims.len() implies and_then(
        meet_dim(x.dims[i], y.dims[i]),
        |d: DimFact| meet_dim(d, z.dims[i]),
    ) == and_then(meet_dim(y.dims[i], z.dims[i]), |d: DimFact| meet_dim(x.dims[i], d)) by {
        lemma_dim_unify(x.dims[i], y.dims[i], z.dims[i]);
    }
    if left is Some {
        let xy = meet_shape(x, y).unwrap();
        assert(shapes_agree(x, y));
        assert(shapes_agree(xy, z));
        assert forall|i: int| 0 <= i < y.dims.len() && 0 <= i < z.dims.len() implies (
        #[trigger] meet_dim_at(y.dims, z.dims, i)) is Some by {
            assert(meet_dim_at(xy.dims, z.dims, i) is Some);
            if i < x.dims.len() {
                assert(meet_dim_at(x.dims, y.dims, i) is Some);
            }
        }
        assert(shapes_agree(y, z));
        let yz = meet_shape(y, z).unwrap();
        assert forall|i: int| 0 <= i < x.dims.len() && 0 <= i < yz.dims.len() implies (
        #[trigger] meet_dim_at(x.dims, yz.dims, i)) is Some by {
            if i < y.dims.len() {
                assert(meet_dim_at(x.dims, y.dims, i) is Some);
            }
            if i < z.dims.len() {
                assert(meet_dim_at(xy.dims, z.dims, i) is Some);
            }
            if i < y.dims.len() && i < z.dims.len() {
                assert(meet_dim_at(y.dims, z.dims, i) is Some);
            }
        }
        assert(shapes_agree(x, yz));
        assert forall|i: int| 0 <= i < left.unwrap().dims.len() implies left.unwrap().dims[i]
            == right.unwrap().dims[i] by {
            if i < x.dims.len() && i < y.dims.len() {
                assert(meet_dim_at(x.dims, y.dims, i) is Some);
            }
            if i < xy.dims.len() && i < z.dims.len() {
                assert(meet_dim_at(xy.dims, z.dims, i) is Some);
            }
            if i < y.dims.len() && i < z.dims.len() {
                assert(meet_dim_at(y.dims, z.dims, i) is Some);
            }
        }
        assert(left.unwrap().dims =~= right.unwrap().dims);
    } else if right is Some {
        let yz = meet_shape(y, z).unwrap();
        assert(shapes_agree(y, z));
        assert(shapes_agree(x, yz));
        assert forall|i: int| 0 <= i < x.dims.len() && 0 <= i < y.dims.len() implies (
        #[trigger] meet_dim_at(x.dims, y.dims, i)) is Some by {
            assert(meet_dim_at(x.dims, yz.dims, i) is Some);
            if i < z.dims.len() {
                assert(meet_dim_at(y.dims, z.dims, i) is Some);
            }
        }
        assert(shapes_agree(x, y));
        let xy = meet_shape(x, y).unwrap();
        assert forall|i: int| 0 <= i < xy.dims.len() && 0 <= i < z.dims.len() implies (
        #[trigger] meet_dim_at(xy.dims, z.dims, i)) is Some by {
            if i < x.dims.len() {
                assert(meet_dim_at(x.dims, yz.dims, i) is Some);
            }
            if i < y.dims.len() {
                assert(meet_dim_at(y.dims, z.dims, i) is Some);
            }
            if i < x.dims.len() && i < y.dims.len() {
                assert(meet_dim_at(x.dims, y.dims, i) is Some);
            }
        }
        assert(shapes_agree(xy, z));
        assert(false);
    }
}

/// The unification of two shape facts, where both are there.
pub open spec fn meet_shape_opt(a: Option<ShapeModel>, b: Option<ShapeModel>) -> Option<
    ShapeModel,
> {
    match (a, b) {
        (Some(x), Some(y)) => meet_shape(x, y),
        _ => None,
    }
}

/// The unification of two type facts, where both are there.
pub open spec fn meet_type_opt(a: Option<TypeFact>, b: Option<TypeFact>) -> Option<TypeFact> {
    match (a, b) {
        (Some(x), Some(y)) => meet_type(x, y),
        _ => None,
    }
}

/// The laws of unification for shape facts that may be missing.
pub proof fn lemma_shape_opt_unify(a: Option<ShapeModel>, b: Option<ShapeModel>, c: Option<ShapeModel>)
    ensures
        meet_shape_opt(a, b) == meet_shape_opt(b, a),
        meet_shape_opt(meet_shape_opt(a, b), c) == meet_shape_opt(a, meet_shape_opt(b, c)),
        meet_shape_opt(meet_shape_opt(a, b), b) == meet_shape_opt(a, b),
{
    if a is Some && b is Some {
        lemma_shape_unify_commutative(a.unwrap(), b.unwrap());
        lemma_shape_unify_idempotent(a.unwrap(), b.unwrap());
        if c is Some {
            lemma_shape_unify_associative(a.unwrap(), b.unwrap(), c.unwrap());
        }
    }
}

/// The shape that a value fact imposes, where it is known.
pub open spec fn shape_of_value(v: ValueModel) -> Option<ShapeModel> {
    match v {
        ValueModel::Any => Some(unknown_shape()),
        ValueModel::Only(t) => Some(shape_of_extents(t.shape)),
    }
}

/// The datatype that a value fact imposes, where it is known.
pub open spec fn type_of_value(v: ValueModel) -> TypeFact {
    match v {
        ValueModel::Any => TypeFact::Any,
        ValueModel::Only(t) => TypeFact::Only(t.datatype),
    }
}

/// The unification of two tensor facts, component by component: the
/// datatypes and the shapes are unified with each other and with what the
/// unified value imposes.
pub proof fn lemma_tensor_unify_components(x: TensorFactModel, y: TensorFactModel)
    ensures
        meet_tensor(x, y) == match (
            meet_value(x.value, y.value),
            meet_type(x.datatype, y.datatype),
            meet_shape(x.shape, y.shape),
        ) {
            (Some(value), Some(d), Some(s)) => match (
                meet_type(d, type_of_value(value)),
                meet_shape_opt(Some(s), shape_of_value(value)),
            ) {
                (Some(datatype), Some(shape)) => Some(TensorFactModel { datatype, shape, value }),
                _ => None,
            },
            _ => None,
        },
{
    if meet_shape(x.shape, y.shape) is Some {
        lemma_shape_unify_unknown(meet_shape(x.shape, y.shape).unwrap());
    }
}

/// Unifying tensor facts does not depend on their order.
pub proof fn lemma_tensor_unify_commutative(x: TensorFactModel, y: TensorFactModel)
    ensures
        meet_tensor(x, y) == meet_tensor(y, x),
{
    lemma_shape_unify_commutative(x.shape, y.shape);
}

/// A tensor fact whose datatype and shape agree with its value, where that
/// is known, is itself when unified with the unknown fact.
pub proof fn lemma_tensor_unify_unknown(x: TensorFactModel)
    requires
        settle(x) == Some(x),
    ensures
        meet_tensor(x, unknown_tensor()) == Some(x),
{
    lemma_shape_unify_unknown(x.shape);
}

/// Unifying the result of a unification of tensor facts once more with one
/// of its arguments changes nothing.
pub proof fn lemma_tensor_unify_idempotent(x: TensorFactModel, y: TensorFactModel)
    ensures
        and_then(meet_tensor(x, y), |xy: TensorFactModel| meet_tensor(xy, y)) == meet_tensor(x, y),
{
    lemma_tensor_unify_components(x, y);
    if meet_tensor(x, y) is Some {
        let xy = meet_tensor(x, y).unwrap();
        lemma_tensor_unify_components(xy, y);
        let v = shape_of_value(xy.value);
        let s = meet_shape(x.shape, y.shape);
        lemma_shape_opt_unify(Some(x.shape), Some(y.shape), v);
        lemma_shape_opt_unify(s, v, Some(y.shape));
        lemma_shape_opt_unify(s, Some(y.shape), v);
        lemma_shape_opt_unify(Some(x.shape), Some(y.shape), Some(y.shape));
        lemma_shape_opt_unify(meet_shape_opt(s, v), v, v);
        lemma_shape_opt_unify(meet_shape_opt(s, v), Some(y.shape), v);
        lemma_shape_opt_unify(v, Some(y.shape), Some(y.shape));
    }
}

/// A shape fact unified with itself is itself, and the shape that a value
/// imposes absorbs the shape that a less specific value imposes.
pub proof fn lemma_shape_of_value_absorbs(v: ValueModel, w: ValueModel, u: ValueModel)
    requires
        meet_value(v, u) == Some(w),
    ensures
        meet_shape_opt(shape_of_value(v), shape_of_value(w)) == shape_of_value(w),
        meet_type(type_of_value(v), type_of_value(w)) == Some(type_of_value(w)),
{
    let s = shape_of_value(w).unwrap();
    lemma_shape_unify_unknown(s);
    lemma_shape_unify_commutative(s, unknown_shape());
    lemma_shape_unify_idempotent(unknown_shape(), s);
}

/// Two ways of grouping a chain of unifications of shape facts give the same result.
pub proof fn lemma_shape_chain(
    x: Option<ShapeModel>,
    y: Option<ShapeModel>,
    z: Option<ShapeModel>,
    v1: Option<ShapeModel>,
    v2: Option<ShapeModel>,
    w: Option<ShapeModel>,
)
    requires
        meet_shape_opt(v1, w) == w,
        meet_shape_opt(v2, w) == w,
    ensures
        meet_shape_opt(meet_shape_opt(meet_shape_opt(meet_shape_opt(x, y), v1), z), w)
            == meet_shape_opt(meet_shape_opt(x, meet_shape_opt(meet_shape_opt(y, z), v2)), w),
{
    let a = meet_shape_opt(x, y);
    let b = meet_shape_opt(y, z);
    lemma_shape_opt_unify(a, v1, z);
    lemma_shape_opt_unify(v1, z, w);
    lemma_shape_opt_unify(a, z, v1);
    lemma_shape_opt_unify(meet_shape_opt(a, z), v1, w);
    lemma_shape_opt_unify(x, b, v2);
    lemma_shape_opt_unify(meet_shape_opt(x, b), v2, w);
    lemma_shape_opt_unify(x, y, z);
}

/// Two ways of grouping a chain of unifications of type facts give the same result.
pub proof fn lemma_type_chain(
    x: Option<TypeFact>,
    y: Option<TypeFact>,
    z: Option<TypeFact>,
    v1: Option<TypeFact>,
    v2: Option<TypeFact>,
    w: Option<TypeFact>,
)
    requires
        meet_type_opt(v1, w) == w,
        meet_type_opt(v2, w) == w,
    ensures
        meet_type_opt(meet_type_opt(meet_type_opt(meet_type_opt(x, y), v1), z), w)
            == meet_type_opt(meet_type_opt(x, meet_type_opt(meet_type_opt(y, z), v2)), w),
{
}

/// Unifying tensor facts does not depend on how they are grouped.
pub proof fn lemma_tensor_unify_associative(
    x: TensorFactModel,
    y: TensorFactModel,
    z: TensorFactModel,
)
    ensures
        and_then(meet_tensor(x, y), |xy: TensorFactModel| meet_tensor(xy, z)) == and_then(
            meet_tensor(y, z),
            |yz: TensorFactModel| meet_tensor(x, yz),
        ),
{
    let left = and_then(meet_tensor(x, y), |xy: TensorFactModel| meet_tensor(xy, z));
    let right = and_then(meet_tensor(y, z), |yz: TensorFactModel| meet_tensor(x, yz));
    lemma_tensor_unify_components(x, y);
    lemma_tensor_unify_components(y, z);
    lemma_value_unify(x.value, y.value, z.value);
    let v1 = meet_value(x.value, y.value);
    let v2 = meet_value(y.value, z.value);
    let w = and_then(v1, |v: ValueModel| meet_value(v, z.value));
    if w is Some {
        let (sx, sy, sz) = (Some(x.shape), Some(y.shape), Some(z.shape));
        let (dx, dy, dz) = (Some(x.datatype), Some(y.datatype), Some(z.datatype));
        let (s1, s2, sw) = (
            shape_of_value(v1.unwrap()),
            shape_of_value(v2.unwrap()),
            shape_of_value(w.unwrap()),
        );
        let (d1, d2, dw) = (
            Some(type_of_value(v1.unwrap())),
            Some(type_of_value(v2.unwrap())),
            Some(type_of_value(w.unwrap())),
        );
        lemma_shape_of_value_absorbs(v1.unwrap(), w.unwrap(), z.value);
        lemma_value_unify(v2.unwrap(), x.value, z.value);
        lemma_shape_of_value_absorbs(v2.unwrap(), w.unwrap(), x.value);
        lemma_shape_chain(sx, sy, sz, s1, s2, sw);
        lemma_type_chain(dx, dy, dz, d1, d2, dw);
        let sl = meet_shape_opt(meet_shape_opt(meet_shape_opt(meet_shape_opt(sx, sy), s1), sz), sw);
        let dl = meet_type_opt(meet_type_opt(meet_type_opt(meet_type_opt(dx, dy), d1), dz), dw);
        let sr = meet_shape_opt(meet_shape_opt(sx, meet_shape_opt(meet_shape_opt(sy, sz), s2)), sw);
        let dr = meet_type_opt(meet_type_opt(dx, meet_type_opt(meet_type_opt(dy, dz), d2)), dw);
        let want = match (dl, sl) {
            (Some(datatype), Some(shape)) => Some(
                TensorFactModel { datatype, shape, value: w.unwrap() },
            ),
            _ => None,
        };
        assert(left == want) by {
            if meet_tensor(x, y) is Some {
                lemma_tensor_unify_components(meet_tensor(x, y).unwrap(), z);
            }
        }
        assert(right == want) by {
            if meet_tensor(y, z) is Some {
                lemma_tensor_unify_components(x, meet_tensor(y, z).unwrap());
            }
        }
    } else {
        assert(left is None) by {
            if meet_tensor(x, y) is Some {
                lemma_tensor_unify_components(meet_tensor(x, y).unwrap(), z);
            }
        }
        assert(right is None) by {
            if meet_tensor(y, z) is Some {
                lemma_tensor_unify_components(x, meet_tensor(y, z).unwrap());
            }
        }
    }
}

} // verus!
