use tfdeploy::facts::{DimFact, ShapeFact, TensorFact, TypeFact, ValueFact};
use tfdeploy::inference::Spawn;
use tfdeploy::model::{AttrValue, NodeDef, OpBuilder};
use tfdeploy::ops::{Attr, Op, OpBuffer};
use tfdeploy::pack::Pack;
use tfdeploy::pad::Pad;
use tfdeploy::proxies::TensorsProxy;
use tfdeploy::solver::Solver;
use tfdeploy::standard::{pack, pad, Standard, StandardOp};
use tfdeploy::tensor::{Array, DataType, F32, F64};
use tfdeploy::{Error, Tensor};

#[test]
fn pack_0() {
    let inputs = vec![
        Tensor::i32s(&[2], &[1, 4]).unwrap(),
        Tensor::i32s(&[2], &[2, 5]).unwrap(),
        Tensor::i32s(&[2], &[3, 6]).unwrap(),
    ];
    assert_eq!(
        Pack::<i32>::new(3, 0).eval(inputs.clone()).unwrap().remove(0),
        Tensor::i32s(&[3, 2], &[1, 4, 2, 5, 3, 6]).unwrap()
    );
    assert_eq!(
        Pack::<i32>::new(3, 1).eval(inputs.clone()).unwrap().remove(0),
        Tensor::i32s(&[2, 3], &[1, 2, 3, 4, 5, 6]).unwrap()
    );
}

#[test]
fn pack_1() {
    let pack = Pack::<i32>::new(3, 0);
    let input = Tensor::i32s(&[0], &[]).unwrap();
    let exp: Tensor = Tensor::i32s(&[1, 0], &[]).unwrap();
    let found = pack.eval(vec![input]).unwrap();

    assert!(
        exp.same(&found[0]),
        "expected: {:?} found: {:?}",
        exp,
        found[0]
    )
}

#[test]
fn pad_0() {
    let inputs = vec![
        Tensor::i32s(&[2, 3], &[1, 2, 3, 4, 5, 6]).unwrap(),
        Tensor::i32s(&[2, 2], &[1, 1, 2, 2]).unwrap(),
    ];

    let expected = Tensor::i32s(
        &[4, 7],
        &[
            0, 0, 0, 0, 0, 0, 0, //
            0, 0, 1, 2, 3, 0, 0, //
            0, 0, 4, 5, 6, 0, 0, //
            0, 0, 0, 0, 0, 0, 0,
        ],
    )
    .unwrap();

    assert_eq!(Pad::<i32>::new().eval(inputs).unwrap(), vec![expected]);
}

#[test]
fn pack_along_inner_axis_of_matrices() {
    let inputs = vec![
        Tensor::i32s(&[2, 2], &[1, 2, 3, 4]).unwrap(),
        Tensor::i32s(&[2, 2], &[5, 6, 7, 8]).unwrap(),
    ];
    assert_eq!(
        Pack::<i32>::new(2, 1).eval(inputs.clone()).unwrap().remove(0),
        Tensor::i32s(&[2, 2, 2], &[1, 2, 5, 6, 3, 4, 7, 8]).unwrap()
    );
    assert_eq!(
        Pack::<i32>::new(2, 2).eval(inputs).unwrap().remove(0),
        Tensor::i32s(&[2, 2, 2], &[1, 5, 2, 6, 3, 7, 4, 8]).unwrap()
    );
}

#[test]
fn pack_rejects_what_it_cannot_stack() {
    assert_eq!(Pack::<i32>::new(0, 0).eval(vec![]), Err(Error::Arity));
    let a = Tensor::i32s(&[2], &[1, 4]).unwrap();
    let b = Tensor::i32s(&[3], &[1, 4, 5]).unwrap();
    assert_eq!(
        Pack::<i32>::new(2, 0).eval(vec![a.clone(), b]),
        Err(Error::Shape)
    );
    assert_eq!(
        Pack::<i32>::new(1, 2).eval(vec![a.clone()]),
        Err(Error::Shape)
    );
    let c = Tensor::u8s(&[2], &[1, 4]).unwrap();
    assert_eq!(
        Pack::<i32>::new(2, 0).eval(vec![a, c]),
        Err(Error::UnsupportedType)
    );
}

#[test]
fn pack_keeps_float_bits() {
    let a = Tensor::f32s(&[1], &[F32(1.5f32.to_bits())]).unwrap();
    let b = Tensor::f32s(&[1], &[F32((-0.0f32).to_bits())]).unwrap();
    assert_eq!(
        Pack::<F32>::new(2, 0).eval(vec![a, b]).unwrap().remove(0),
        Tensor::f32s(&[2, 1], &[F32(1.5f32.to_bits()), F32((-0.0f32).to_bits())]).unwrap()
    );
}

#[test]
fn pad_rejects_bad_paddings() {
    let input = Tensor::i32s(&[2, 3], &[1, 2, 3, 4, 5, 6]).unwrap();
    assert_eq!(
        Pad::<i32>::new().eval(vec![input.clone()]),
        Err(Error::Arity)
    );
    let short = Tensor::i32s(&[1, 2], &[1, 1]).unwrap();
    assert_eq!(
        Pad::<i32>::new().eval(vec![input.clone(), short]),
        Err(Error::Shape)
    );
    let negative = Tensor::i32s(&[2, 2], &[1, 1, -1, 2]).unwrap();
    assert_eq!(
        Pad::<i32>::new().eval(vec![input.clone(), negative]),
        Err(Error::Shape)
    );
    let bytes = Tensor::u8s(&[2, 2], &[1, 1, 1, 2]).unwrap();
    assert_eq!(
        Pad::<i32>::new().eval(vec![input.clone(), bytes]),
        Err(Error::UnsupportedType)
    );
    let paddings = Tensor::i32s(&[2, 2], &[0, 0, 0, 0]).unwrap();
    assert_eq!(
        Pad::<u8>::new().eval(vec![input, paddings]),
        Err(Error::UnsupportedType)
    );
}

#[test]
fn pad_along_a_stream_keeps_the_extent_of_that_axis() {
    let input = Array::from_shape_vec(vec![2, 3], vec![1, 2, 3, 4, 5, 6]).unwrap();
    let paddings = Array::from_shape_vec(vec![2, 2], vec![1, 1, 2, 0]).unwrap();
    let padded = Pad::<i32>::compute(&input, &paddings, Some(0)).unwrap();
    assert_eq!(padded.shape(), &[2, 5]);
    assert_eq!(padded.as_slice(), &[0, 0, 0, 0, 0, 0, 0, 1, 2, 3]);
    let padded = Pad::<i32>::compute(&input, &paddings, None).unwrap();
    assert_eq!(padded.shape(), &[4, 5]);
    assert_eq!(
        padded.as_slice(),
        &[0, 0, 0, 0, 0, 0, 0, 1, 2, 3, 0, 0, 4, 5, 6, 0, 0, 0, 0, 0]
    );
}

#[test]
fn pad_of_scalar_is_the_scalar() {
    let inputs = vec![
        Tensor::i32s(&[], &[7]).unwrap(),
        Tensor::i32s(&[0, 2], &[]).unwrap(),
    ];
    assert_eq!(
        Pad::<i32>::new().eval(inputs).unwrap(),
        vec![Tensor::i32s(&[], &[7]).unwrap()]
    );
}

#[test]
fn operators_list_their_attributes() {
    assert_eq!(
        Pack::<i32>::new(3, 1).get_attributes(),
        vec![
            ("T", Attr::DataType(DataType::I32)),
            ("n", Attr::Usize(3)),
            ("axis", Attr::Usize(1)),
        ]
    );
    assert_eq!(
        Pad::<F64>::new().get_attributes(),
        vec![("T", Attr::DataType(DataType::F64))]
    );
}

#[test]
fn pad_steps_along_a_stream() {
    let op = Pad::<i32>::new();
    let mut buffer = op.new_buffer();
    assert_eq!(buffer, OpBuffer::Empty);
    let chunk = Tensor::i32s(&[1, 3], &[1, 2, 3]).unwrap();
    let paddings = Tensor::i32s(&[2, 2], &[5, 5, 1, 2]).unwrap();
    let out = op
        .step(
            vec![(Some(0), Some(chunk.clone())), (None, Some(paddings.clone()))],
            &mut buffer,
        )
        .unwrap();
    assert_eq!(
        out,
        Some(vec![Tensor::i32s(&[1, 6], &[0, 0, 0, 0, 0, 0]).unwrap()])
    );
    let paddings_inner = Tensor::i32s(&[2, 2], &[0, 0, 1, 2]).unwrap();
    let out = op
        .step(
            vec![(Some(0), Some(chunk.clone())), (None, Some(paddings_inner))],
            &mut buffer,
        )
        .unwrap();
    assert_eq!(
        out,
        Some(vec![Tensor::i32s(&[1, 6], &[0, 1, 2, 3, 0, 0]).unwrap()])
    );
    assert_eq!(
        op.step(vec![(Some(0), None), (None, Some(paddings.clone()))], &mut buffer),
        Ok(None)
    );
    assert_eq!(
        op.step(
            vec![(None, Some(chunk.clone())), (None, Some(paddings.clone()))],
            &mut buffer
        ),
        Ok(None)
    );
    assert_eq!(
        op.step(vec![(Some(0), Some(chunk))], &mut buffer),
        Err(Error::Arity)
    );
    assert_eq!(buffer, OpBuffer::Empty);
}

#[test]
fn pack_takes_no_part_in_streams() {
    let op = Pack::<i32>::new(1, 0);
    let mut buffer = op.new_buffer();
    assert_eq!(op.step(vec![], &mut buffer), Err(Error::NoStreaming));
}

#[test]
fn buffers_are_checked_for_their_kind() {
    let queues = OpBuffer::queues(2);
    assert_eq!(queues, OpBuffer::Queues(vec![vec![], vec![]]));
    assert_eq!(queues.expect_empty(), Err(Error::BufferType));
    assert_eq!(queues.into_queues(), Ok(vec![vec![], vec![]]));
    assert_eq!(OpBuffer::Empty.expect_empty(), Ok(()));
    assert_eq!(OpBuffer::Empty.into_queues(), Err(Error::BufferType));
}

fn definition(op: &str, inputs: usize, attr: Vec<(&str, AttrValue)>) -> NodeDef {
    NodeDef {
        name: "node".to_string(),
        op: op.to_string(),
        input: (0..inputs).map(|i| format!("in{}", i)).collect(),
        attr: attr.into_iter().map(|(k, v)| (k.to_string(), v)).collect(),
    }
}

#[test]
fn operators_are_built_from_definitions() {
    let def = definition(
        "Pack",
        3,
        vec![("T", AttrValue::Type(DataType::I32)), ("axis", AttrValue::Int(1))],
    );
    let op = pack(&def).unwrap();
    match &op {
        StandardOp::PackI32(p) => {
            assert_eq!(p.n, 3);
            assert_eq!(p.axis, 1);
        }
        _ => panic!("a pack of 32-bit integers was expected"),
    }
    let inputs = vec![
        Tensor::i32s(&[2], &[1, 4]).unwrap(),
        Tensor::i32s(&[2], &[2, 5]).unwrap(),
        Tensor::i32s(&[2], &[3, 6]).unwrap(),
    ];
    assert_eq!(
        op.eval(inputs).unwrap(),
        vec![Tensor::i32s(&[2, 3], &[1, 2, 3, 4, 5, 6]).unwrap()]
    );
    assert_eq!(op.get_attributes().len(), 3);
    assert!(matches!(Standard.build(&def), Ok(StandardOp::PackI32(_))));

    let def = definition("Pad", 2, vec![("T", AttrValue::Type(DataType::F32))]);
    assert!(matches!(pad(&def), Ok(StandardOp::PadF32(_))));
    assert!(matches!(Standard.build(&def), Ok(StandardOp::PadF32(_))));
    let def = definition("Pad", 2, vec![("T", AttrValue::Type(DataType::F64))]);
    assert!(matches!(pad(&def), Ok(StandardOp::PadF64(_))));
}

#[test]
fn definitions_without_what_is_needed_build_nothing() {
    let def = definition("Pack", 3, vec![("axis", AttrValue::Int(1))]);
    assert_eq!(pack(&def).err(), Some(Error::Attribute));
    let def = definition("Pack", 3, vec![("T", AttrValue::Type(DataType::I32))]);
    assert_eq!(pack(&def).err(), Some(Error::Attribute));
    let def = definition(
        "Pack",
        3,
        vec![("T", AttrValue::Int(3)), ("axis", AttrValue::Int(1))],
    );
    assert_eq!(pack(&def).err(), Some(Error::Attribute));
    let def = definition(
        "Pack",
        3,
        vec![("T", AttrValue::Type(DataType::I32)), ("axis", AttrValue::Int(-1))],
    );
    assert_eq!(pack(&def).err(), Some(Error::Attribute));
    let def = definition(
        "Pack",
        3,
        vec![("T", AttrValue::Type(DataType::U8)), ("axis", AttrValue::Int(0))],
    );
    assert_eq!(pack(&def).err(), Some(Error::UnsupportedType));
    let def = definition("Pad", 2, vec![("T", AttrValue::Type(DataType::String))]);
    assert_eq!(pad(&def).err(), Some(Error::UnsupportedType));
    let def = definition("Pad", 2, vec![]);
    assert_eq!(pad(&def).err(), Some(Error::Attribute));
    let def = definition("Conv2D", 2, vec![]);
    assert_eq!(Standard.build(&def).err(), Some(Error::UnknownOp));
    assert_eq!(def.get_attr("T"), None);
    assert_eq!(def.get_attr_int("T"), Err(Error::Attribute));
    assert_eq!(def.get_attr_datatype("T"), Err(Error::Attribute));
}

fn known_shape(dims: &[usize]) -> TensorFact {
    TensorFact {
        datatype: TypeFact::Any,
        shape: ShapeFact::from(dims),
        value: ValueFact::Any,
    }
}

#[test]
fn pack_rules_give_the_shape_of_the_output() {
    let inputs = TensorsProxy::new(vec![0]);
    let outputs = TensorsProxy::new(vec![1]);
    let mut solver = Solver::<Spawn>::new();
    Pack::<i32>::new(3, 1).rules(&mut solver, &inputs, &outputs);
    let facts = (
        vec![known_shape(&[2]), TensorFact::new(), TensorFact::new()],
        vec![TensorFact::new()],
    );
    let (inputs, outputs) = solver.infer(facts).unwrap();
    assert_eq!(
        outputs,
        vec![TensorFact {
            datatype: TypeFact::Any,
            shape: ShapeFact::closed(vec![DimFact::Only(2), DimFact::Only(3)]),
            value: ValueFact::Any,
        }]
    );
    assert_eq!(
        inputs,
        vec![known_shape(&[2]), known_shape(&[2]), known_shape(&[2])]
    );
}

#[test]
fn pack_rules_reject_another_number_of_inputs() {
    let inputs = TensorsProxy::new(vec![0]);
    let outputs = TensorsProxy::new(vec![1]);
    let mut solver = Solver::<Spawn>::new();
    Pack::<i32>::new(3, 0).rules(&mut solver, &inputs, &outputs);
    let facts = (vec![TensorFact::new()], vec![TensorFact::new()]);
    assert_eq!(solver.infer(facts), Err(Error::Incompatibility));
}

#[test]
fn pad_rules_give_the_shape_of_the_output() {
    let inputs = TensorsProxy::new(vec![0]);
    let outputs = TensorsProxy::new(vec![1]);
    let mut solver = Solver::<Spawn>::new();
    Pad::<i32>::new().rules(&mut solver, &inputs, &outputs);
    let paddings = Tensor::i32s(&[2, 2], &[1, 1, 2, 2]).unwrap();
    let facts = (
        vec![
            TensorFact {
                datatype: TypeFact::Only(DataType::I32),
                shape: ShapeFact::from(&[2, 3]),
                value: ValueFact::Any,
            },
            TensorFact {
                datatype: TypeFact::Any,
                shape: ShapeFact::new(),
                value: ValueFact::Only(paddings.clone()),
            },
        ],
        vec![TensorFact::new()],
    );
    let (inputs, outputs) = solver.infer(facts).unwrap();
    assert_eq!(
        outputs,
        vec![TensorFact {
            datatype: TypeFact::Only(DataType::I32),
            shape: ShapeFact::from(&[4, 7]),
            value: ValueFact::Any,
        }]
    );
    assert_eq!(inputs[1].datatype, TypeFact::Only(DataType::I32));
    assert_eq!(inputs[1].shape, ShapeFact::from(&[2, 2]));
}
