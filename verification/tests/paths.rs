use tfdeploy::context::Context;
use tfdeploy::expressions::Wrapped;
use tfdeploy::facts::{DimFact, IntFact, ShapeFact, TensorFact, TypeFact, ValueFact};
use tfdeploy::path::{get_path, set_path, Path};
use tfdeploy::tensor::{DataType, F32};
use tfdeploy::{Error, Tensor};

fn matrix() -> Tensor {
    Tensor::i32s(&[2, 2], &[1, 2, 3, 4]).unwrap()
}

fn context() -> Context {
    Context::new(
        vec![
            TensorFact {
                datatype: TypeFact::Only(DataType::F32),
                shape: ShapeFact::closed(vec![DimFact::Only(2), DimFact::Any]),
                value: ValueFact::Any,
            },
            TensorFact {
                datatype: TypeFact::Only(DataType::I32),
                shape: ShapeFact::from(&[2, 2]),
                value: ValueFact::Only(matrix()),
            },
        ],
        vec![TensorFact::new()],
    )
}

#[test]
fn facts_are_read_at_paths() {
    let c = context();
    assert_eq!(get_path(&c, &[0, -1]), Ok(Wrapped::Int(IntFact::Only(2))));
    assert_eq!(get_path(&c, &[1, -1]), Ok(Wrapped::Int(IntFact::Only(1))));
    assert_eq!(
        get_path(&c, &[0, 0, 0]),
        Ok(Wrapped::Type(TypeFact::Only(DataType::F32)))
    );
    assert_eq!(get_path(&c, &[1, 0, 0]), Ok(Wrapped::Type(TypeFact::Any)));
    assert_eq!(get_path(&c, &[0, 0, 1]), Ok(Wrapped::Int(IntFact::Only(2))));
    assert_eq!(get_path(&c, &[1, 0, 1]), Ok(Wrapped::Int(IntFact::Any)));
    assert_eq!(
        get_path(&c, &[0, 0, 2]),
        Ok(Wrapped::Shape(ShapeFact::closed(vec![
            DimFact::Only(2),
            DimFact::Any
        ])))
    );
    assert_eq!(get_path(&c, &[0, 0, 2, 0]), Ok(Wrapped::Dim(DimFact::Only(2))));
    assert_eq!(get_path(&c, &[0, 0, 2, 1]), Ok(Wrapped::Dim(DimFact::Any)));
    assert_eq!(get_path(&c, &[1, 0, 2, 5]), Ok(Wrapped::Dim(DimFact::Any)));
    assert_eq!(get_path(&c, &[0, 0, 3]), Ok(Wrapped::Value(ValueFact::Any)));
    assert_eq!(get_path(&c, &[0, 0, 3, -1]), Ok(Wrapped::Value(ValueFact::Any)));
    assert_eq!(get_path(&c, &[0, 0, 3, 0]), Ok(Wrapped::Int(IntFact::Any)));
    assert_eq!(
        get_path(&c, &[0, 1, 3]),
        Ok(Wrapped::Value(ValueFact::Only(matrix())))
    );
    assert_eq!(get_path(&c, &[0, 1, 3, 1, 0]), Ok(Wrapped::Int(IntFact::Only(3))));
    assert_eq!(get_path(&c, &[0, 1, 3, 0, 1]), Ok(Wrapped::Int(IntFact::Only(2))));
    assert_eq!(c.get(&Path::from(vec![0, 1, 3, 1, 1])), Ok(Wrapped::Int(IntFact::Only(4))));
}

#[test]
fn paths_that_lead_nowhere_are_rejected() {
    let c = context();
    assert_eq!(get_path(&c, &[]), Err(Error::InvalidPath));
    assert_eq!(get_path(&c, &[0]), Err(Error::InvalidPath));
    assert_eq!(get_path(&c, &[2, 0, 0]), Err(Error::InvalidPath));
    assert_eq!(get_path(&c, &[0, -2]), Err(Error::InvalidPath));
    assert_eq!(get_path(&c, &[0, 0]), Err(Error::InvalidPath));
    assert_eq!(get_path(&c, &[0, 0, 4]), Err(Error::InvalidPath));
    assert_eq!(get_path(&c, &[0, 0, 2, -1]), Err(Error::InvalidPath));
    assert_eq!(get_path(&c, &[0, 0, 2, 0, 0]), Err(Error::InvalidPath));
    assert_eq!(get_path(&c, &[0, 1, 3, 0, -1]), Err(Error::InvalidPath));
    assert_eq!(get_path(&c, &[0, 2, 0]), Err(Error::OutOfBounds));
    assert_eq!(get_path(&c, &[1, 1, 0]), Err(Error::OutOfBounds));
    assert_eq!(get_path(&c, &[0, 0, 2, 2]), Err(Error::OutOfBounds));
    assert_eq!(get_path(&c, &[0, 1, 3, 2, 0]), Err(Error::OutOfBounds));
    assert_eq!(get_path(&c, &[0, 1, 3, 0]), Err(Error::OutOfBounds));
    let floats = Context::new(
        vec![TensorFact {
            datatype: TypeFact::Any,
            shape: ShapeFact::new(),
            value: ValueFact::Only(Tensor::f32s(&[1], &[F32(0)]).unwrap()),
        }],
        vec![],
    );
    assert_eq!(get_path(&floats, &[0, 0, 3, 0]), Err(Error::UnsupportedType));
}

#[test]
fn writes_unify_with_what_is_there() {
    let mut c = context();
    set_path(&mut c, &[1, 0, 1], Wrapped::Int(IntFact::Only(3))).unwrap();
    assert_eq!(
        c.outputs[0].shape,
        ShapeFact::closed(vec![DimFact::Any, DimFact::Any, DimFact::Any])
    );
    set_path(&mut c, &[1, 0, 2, 1], Wrapped::Dim(DimFact::Only(7))).unwrap();
    assert_eq!(
        c.outputs[0].shape,
        ShapeFact::closed(vec![DimFact::Any, DimFact::Only(7), DimFact::Any])
    );
    set_path(&mut c, &[1, 0, 0], Wrapped::Type(TypeFact::Only(DataType::U8))).unwrap();
    assert_eq!(c.outputs[0].datatype, TypeFact::Only(DataType::U8));
    set_path(
        &mut c,
        &[1, 0, 2],
        Wrapped::Shape(ShapeFact::open(vec![DimFact::Only(1)])),
    )
    .unwrap();
    assert_eq!(
        c.outputs[0].shape,
        ShapeFact::closed(vec![DimFact::Only(1), DimFact::Only(7), DimFact::Any])
    );
    set_path(&mut c, &[0, -1], Wrapped::Int(IntFact::Only(2))).unwrap();
    set_path(&mut c, &[0, -1], Wrapped::Int(IntFact::Any)).unwrap();
    set_path(&mut c, &[0, 1, 3, 0, 0], Wrapped::Int(IntFact::Only(99))).unwrap();
    assert_eq!(c.inputs[1].value, ValueFact::Only(matrix()));
}

#[test]
fn a_value_decides_datatype_and_shape() {
    let mut c = Context::new(vec![TensorFact::new()], vec![]);
    c.set(
        &Path::from(vec![0, 0, 3]),
        Wrapped::Value(ValueFact::Only(matrix())),
    )
    .unwrap();
    assert_eq!(
        c.inputs[0],
        TensorFact {
            datatype: TypeFact::Only(DataType::I32),
            shape: ShapeFact::from(&[2, 2]),
            value: ValueFact::Only(matrix()),
        }
    );
}

#[test]
fn writes_that_contradict_are_rejected_and_change_nothing() {
    let mut c = context();
    let cases: Vec<(Vec<isize>, Wrapped, Error)> = vec![
        (vec![0, -1], Wrapped::Int(IntFact::Only(3)), Error::Incompatibility),
        (vec![0, -1], Wrapped::Dim(DimFact::Only(2)), Error::WrongKind),
        (vec![0, 0, 0], Wrapped::Type(TypeFact::Only(DataType::U8)), Error::Incompatibility),
        (vec![0, 0, 0], Wrapped::Int(IntFact::Only(1)), Error::WrongKind),
        (vec![0, 0, 1], Wrapped::Int(IntFact::Only(3)), Error::Incompatibility),
        (vec![0, 0, 1], Wrapped::Int(IntFact::Only(-1)), Error::Incompatibility),
        (vec![0, 0, 1], Wrapped::Type(TypeFact::Any), Error::WrongKind),
        (vec![0, 0, 2], Wrapped::Shape(ShapeFact::from(&[3, 1])), Error::Incompatibility),
        (vec![0, 0, 2], Wrapped::Int(IntFact::Any), Error::WrongKind),
        (vec![0, 0, 2, 0], Wrapped::Dim(DimFact::Only(3)), Error::Incompatibility),
        (vec![0, 0, 2, 2], Wrapped::Dim(DimFact::Only(3)), Error::Incompatibility),
        (vec![0, 0, 2, 0], Wrapped::Int(IntFact::Only(2)), Error::WrongKind),
        (vec![0, 0, 2, -1], Wrapped::Dim(DimFact::Any), Error::InvalidPath),
        (vec![0, 0, 3], Wrapped::Value(ValueFact::Only(matrix())), Error::Incompatibility),
        (vec![0, 0, 3], Wrapped::Int(IntFact::Any), Error::WrongKind),
        (vec![0, 0, 7], Wrapped::Int(IntFact::Any), Error::InvalidPath),
        (vec![0, 4, 0], Wrapped::Type(TypeFact::Any), Error::OutOfBounds),
        (vec![3, 0, 0], Wrapped::Type(TypeFact::Any), Error::InvalidPath),
        (vec![], Wrapped::Type(TypeFact::Any), Error::InvalidPath),
    ];
    for (path, value, error) in cases {
        assert_eq!(set_path(&mut c, &path, value), Err(error), "at {:?}", path);
        assert_eq!(c.inputs, context().inputs);
        assert_eq!(c.outputs, context().outputs);
    }
}

#[test]
fn writing_back_what_was_read_changes_nothing() {
    let paths: Vec<Vec<isize>> = vec![
        vec![0, -1],
        vec![1, -1],
        vec![0, 0, 0],
        vec![0, 0, 1],
        vec![0, 0, 2],
        vec![0, 0, 2, 0],
        vec![0, 0, 2, 1],
        vec![0, 0, 3],
        vec![0, 0, 3, 0],
        vec![0, 1, 0],
        vec![0, 1, 1],
        vec![0, 1, 2],
        vec![0, 1, 2, 1],
        vec![0, 1, 3],
        vec![0, 1, 3, 1, 1],
        vec![1, 0, 0],
        vec![1, 0, 1],
        vec![1, 0, 2],
        vec![1, 0, 3],
    ];
    for path in paths {
        let mut c = context();
        let read = get_path(&c, &path).unwrap();
        set_path(&mut c, &path, read).unwrap();
        assert_eq!(c.inputs, context().inputs, "at {:?}", path);
        assert_eq!(c.outputs, context().outputs, "at {:?}", path);
    }
}

#[test]
fn writing_an_unlisted_dimension_lists_it() {
    let mut c = context();
    let read = get_path(&c, &[1, 0, 2, 1]).unwrap();
    assert_eq!(read, Wrapped::Dim(DimFact::Any));
    set_path(&mut c, &[1, 0, 2, 1], read).unwrap();
    assert_eq!(
        c.outputs[0].shape,
        ShapeFact::open(vec![DimFact::Any, DimFact::Any])
    );
}
