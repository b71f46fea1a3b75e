use tfdeploy::facts::{DimFact, IntFact, ShapeFact, TensorFact, TypeFact, ValueFact};
use tfdeploy::tensor::DataType;
use tfdeploy::{Error, Tensor};

#[test]
fn type_facts_unify() {
    let any = TypeFact::Any;
    let int = TypeFact::Only(DataType::I32);
    assert_eq!(any.unify(&int), Ok(int));
    assert_eq!(int.unify(&TypeFact::Only(DataType::U8)), Err(Error::Incompatibility));
}

#[test]
fn shape_facts_unify() {
    let open = ShapeFact::open(vec![DimFact::Any, DimFact::Only(2)]);
    let closed = ShapeFact::closed(vec![DimFact::Any, DimFact::Only(2), DimFact::Any]);
    assert_eq!(open.unify(&closed), Ok(closed.clone()));
    let short = ShapeFact::closed(vec![DimFact::Any]);
    assert_eq!(short.unify(&closed), Err(Error::Incompatibility));
}

fn shapes() -> Vec<ShapeFact> {
    vec![
        ShapeFact::new(),
        ShapeFact::open(vec![DimFact::Any]),
        ShapeFact::open(vec![DimFact::Only(1)]),
        ShapeFact::open(vec![DimFact::Any, DimFact::Only(2)]),
        ShapeFact::closed(vec![]),
        ShapeFact::closed(vec![DimFact::Only(1)]),
        ShapeFact::closed(vec![DimFact::Only(1), DimFact::Any]),
        ShapeFact::closed(vec![DimFact::Only(1), DimFact::Only(2)]),
        ShapeFact::closed(vec![DimFact::Only(3), DimFact::Only(2), DimFact::Any]),
    ]
}

fn and_then(
    a: Result<ShapeFact, Error>,
    b: &ShapeFact,
) -> Result<ShapeFact, Error> {
    a.and_then(|x| x.unify(b))
}

#[test]
fn shape_unification_is_a_meet() {
    let all = shapes();
    for x in &all {
        assert_eq!(x.unify(&ShapeFact::new()), Ok(x.clone()));
        assert_eq!(x.unify(x), Ok(x.clone()));
        for y in &all {
            let xy = x.unify(y);
            assert_eq!(xy, y.unify(x));
            assert_eq!(and_then(xy.clone(), y), xy);
            for z in &all {
                let left = and_then(x.unify(y), z);
                let right = y.unify(z).and_then(|yz| x.unify(&yz));
                assert_eq!(left, right);
            }
        }
    }
}

#[test]
fn shape_unification_keeps_the_longer_side_of_an_open_shape() {
    let open = ShapeFact::open(vec![DimFact::Only(1)]);
    let longer = ShapeFact::open(vec![DimFact::Any, DimFact::Only(2), DimFact::Only(3)]);
    assert_eq!(
        open.unify(&longer),
        Ok(ShapeFact::open(vec![
            DimFact::Only(1),
            DimFact::Only(2),
            DimFact::Only(3)
        ]))
    );
    let closed = ShapeFact::closed(vec![DimFact::Only(1)]);
    assert_eq!(closed.unify(&longer), Err(Error::Incompatibility));
    assert_eq!(
        ShapeFact::closed(vec![DimFact::Only(2)]).unify(&open),
        Err(Error::Incompatibility)
    );
    assert_eq!(ShapeFact::from(&[1, 2]).concretize(), Some(vec![1, 2]));
    assert_eq!(open.concretize(), None);
    assert_eq!(ShapeFact::closed(vec![DimFact::Any]).concretize(), None);
    assert_eq!(ShapeFact::unknown_dims(2, true), ShapeFact::open(vec![DimFact::Any, DimFact::Any]));
    assert!(open.same(&open.duplicate()));
    assert!(!open.same(&closed));
}

#[test]
fn scalar_facts_unify() {
    assert_eq!(IntFact::Any.unify(&IntFact::Any), Ok(IntFact::Any));
    assert_eq!(IntFact::Only(3).unify(&IntFact::Any), Ok(IntFact::Only(3)));
    assert_eq!(IntFact::Any.unify(&IntFact::Only(3)), Ok(IntFact::Only(3)));
    assert_eq!(IntFact::Only(3).unify(&IntFact::Only(3)), Ok(IntFact::Only(3)));
    assert_eq!(IntFact::Only(3).unify(&IntFact::Only(4)), Err(Error::Incompatibility));
    assert_eq!(DimFact::Only(3).unify(&DimFact::Only(4)), Err(Error::Incompatibility));
    assert_eq!(DimFact::from(3).unify(&DimFact::Any), Ok(DimFact::Only(3)));
    assert_eq!(IntFact::from(-3).concretize(), Some(-3));
    assert_eq!(IntFact::Any.concretize(), None);
    assert_eq!(DimFact::Only(5).concretize(), Some(5));
    assert_eq!(TypeFact::from(DataType::F64).concretize(), Some(DataType::F64));
    assert_eq!(TypeFact::Any.concretize(), None);
}

#[test]
fn tensor_facts_unify_by_their_parts() {
    let t = Tensor::i32s(&[2], &[1, 2]).unwrap();
    let other = Tensor::i32s(&[2], &[1, 3]).unwrap();
    let typed = TensorFact {
        datatype: TypeFact::Only(DataType::I32),
        shape: ShapeFact::new(),
        value: ValueFact::Any,
    };
    let valued = TensorFact {
        datatype: TypeFact::Any,
        shape: ShapeFact::open(vec![DimFact::Any]),
        value: ValueFact::Only(t.clone()),
    };
    let settled = TensorFact {
        datatype: TypeFact::Only(DataType::I32),
        shape: ShapeFact::from(&[2]),
        value: ValueFact::Only(t.clone()),
    };
    assert_eq!(typed.unify(&valued), Ok(settled.clone()));
    assert_eq!(valued.unify(&typed), Ok(settled.clone()));
    assert_eq!(settled.unify(&TensorFact::new()), Ok(settled.clone()));
    assert_eq!(settled.unify(&settled), Ok(settled.clone()));
    assert_eq!(typed.unify(&TensorFact::new()), Ok(typed.clone()));
    let clash = TensorFact {
        datatype: TypeFact::Only(DataType::U8),
        shape: ShapeFact::new(),
        value: ValueFact::Any,
    };
    assert_eq!(valued.unify(&clash), Err(Error::Incompatibility));
    let longer = TensorFact {
        datatype: TypeFact::Any,
        shape: ShapeFact::open(vec![DimFact::Any, DimFact::Any]),
        value: ValueFact::Any,
    };
    assert_eq!(valued.unify(&longer), Err(Error::Incompatibility));
    assert_eq!(
        ValueFact::Only(t.clone()).unify(&ValueFact::Only(other)),
        Err(Error::Incompatibility)
    );
    assert_eq!(ValueFact::from(t.clone()).concretize(), Some(&t));
    assert!(settled.same(&settled.duplicate()));
}
