use tfdeploy::proto::{ProtoType, TensorProto};
use tfdeploy::tensor::{DataType, F32, F64};
use tfdeploy::{Error, Tensor};

fn proto(dtype: ProtoType, dims: &[i64]) -> TensorProto {
    TensorProto {
        dtype,
        dims: dims.to_vec(),
        tensor_content: vec![],
        float_val: vec![],
        double_val: vec![],
        int_val: vec![],
    }
}

#[test]
fn datatypes_round_trip() {
    for t in [
        DataType::U8,
        DataType::I8,
        DataType::I32,
        DataType::F32,
        DataType::F64,
        DataType::String,
    ] {
        assert_eq!(DataType::from_pb(&t.to_pb()), Ok(t));
    }
    assert_eq!(DataType::F32.to_pb(), ProtoType::Float);
    assert_eq!(DataType::from_pb(&ProtoType::Double), Ok(DataType::F64));
    assert_eq!(
        DataType::from_pb(&ProtoType::Other(19)),
        Err(Error::UnsupportedType)
    );
}

#[test]
fn typed_values_round_trip() {
    let mut p = proto(ProtoType::Int32, &[2, 3]);
    p.int_val = vec![1, -2, 3, -4, 5, i32::MIN];
    let t = Tensor::from_pb(&p).unwrap();
    assert_eq!(t, Tensor::i32s(&[2, 3], &[1, -2, 3, -4, 5, i32::MIN]).unwrap());
    assert_eq!(t.to_pb().unwrap(), p);

    let mut p = proto(ProtoType::Float, &[3]);
    p.float_val = [1.0f32, 2.5, -0.0].iter().map(|v| F32(v.to_bits())).collect();
    let t = Tensor::from_pb(&p).unwrap();
    assert_eq!(t.datatype(), DataType::F32);
    assert_eq!(t.shape(), &[3]);
    assert_eq!(t.to_pb().unwrap(), p);
}

#[test]
fn tensors_round_trip() {
    let t = Tensor::i32s(&[2, 2], &[7, 8, 9, 10]).unwrap();
    assert_eq!(Tensor::from_pb(&t.to_pb().unwrap()), Ok(t));
    let t = Tensor::f32s(&[1], &[F32(f32::NAN.to_bits())]).unwrap();
    assert_eq!(Tensor::from_pb(&t.to_pb().unwrap()), Ok(t));
    let t = Tensor::f64s(&[1], &[F64(2.5f64.to_bits())]).unwrap();
    let p = t.to_pb().unwrap();
    assert_eq!(p.dtype, ProtoType::Double);
    assert_eq!(p.double_val, vec![F64(2.5f64.to_bits())]);
    assert_eq!(p.dims, vec![1]);
    assert_eq!(Tensor::from_pb(&p), Err(Error::UnsupportedType));
    let t = Tensor::u8s(&[1], &[3]).unwrap();
    assert_eq!(t.to_pb(), Err(Error::UnsupportedType));
}

#[test]
fn bytes_are_read_lowest_first() {
    let mut p = proto(ProtoType::Int32, &[3]);
    p.tensor_content = vec![1, 0, 0, 0, 0xff, 0xff, 0xff, 0xff, 0, 1, 0, 0x80];
    assert_eq!(
        Tensor::from_pb(&p),
        Ok(Tensor::i32s(&[3], &[1, -1, i32::MIN + 256]).unwrap())
    );
    let mut p = proto(ProtoType::Float, &[2]);
    p.tensor_content = 1.5f32
        .to_le_bytes()
        .iter()
        .chain((-2.0f32).to_le_bytes().iter())
        .cloned()
        .collect();
    p.tensor_content.push(9);
    assert_eq!(
        Tensor::from_pb(&p),
        Ok(Tensor::f32s(&[2], &[F32(1.5f32.to_bits()), F32((-2.0f32).to_bits())]).unwrap())
    );
    let again = Tensor::from_pb(&p).unwrap().to_pb().unwrap();
    assert_eq!(again.dtype, p.dtype);
    assert_eq!(again.dims, p.dims);
}

#[test]
fn serialized_tensors_that_do_not_fit_are_rejected() {
    let mut p = proto(ProtoType::Int32, &[2, 2]);
    p.int_val = vec![1, 2, 3];
    assert_eq!(Tensor::from_pb(&p), Err(Error::Shape));
    let mut p = proto(ProtoType::Int32, &[-1]);
    p.int_val = vec![1];
    assert_eq!(Tensor::from_pb(&p), Err(Error::Shape));
    let mut p = proto(ProtoType::Uint8, &[1]);
    p.int_val = vec![1];
    assert_eq!(Tensor::from_pb(&p), Err(Error::UnsupportedType));
    p.tensor_content = vec![1];
    assert_eq!(Tensor::from_pb(&p), Err(Error::UnsupportedType));
    assert_eq!(
        Tensor::from_content(vec![2], &[1u8, 2, 3]).err(),
        Some(Error::Shape)
    );
    let a = Tensor::from_content(vec![3], &[1u8, 2, 3]).unwrap();
    assert_eq!(a.as_slice(), &[1, 2, 3]);
}
