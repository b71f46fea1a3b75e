use tfdeploy::compare::{compare_outputs, Mismatch};
use tfdeploy::path_text::{
    debug_path, debug_tensorfact_path, debug_tensorfacts_path, debug_value_path, push_integer,
};
use tfdeploy::tensor::F32;
use tfdeploy::{Error, Tensor};

fn text_of(n: isize) -> String {
    let mut out = String::new();
    push_integer(&mut out, n);
    out
}

#[test]
fn integers_are_written_in_decimal() {
    assert_eq!(text_of(0), "0");
    assert_eq!(text_of(7), "7");
    assert_eq!(text_of(-1), "-1");
    assert_eq!(text_of(1234567890), "1234567890");
    assert_eq!(text_of(isize::MAX), isize::MAX.to_string());
    assert_eq!(text_of(isize::MIN), isize::MIN.to_string());
}

#[test]
fn paths_are_written_out() {
    assert_eq!(debug_path(&[0, -1]), "inputs.len");
    assert_eq!(debug_path(&[1, 0, 0]), "outputs[0].datatype");
    assert_eq!(debug_path(&[0, 2, 1]), "inputs[2].rank");
    assert_eq!(debug_path(&[0, 2, 2]), "inputs[2].shape");
    assert_eq!(debug_path(&[0, 0, 2, 1]), "inputs[0].shape[1]");
    assert_eq!(debug_path(&[1, 12, 3, 4, 5]), "outputs[12][4][5]");
    assert_eq!(debug_path(&[1, 12, 3]), "outputs[12]");
    assert_eq!(debug_path(&[1, 0]), "outputs[0]");
    assert_eq!(debug_path(&[7, 0, 9]), "buggy_path[0].invalid");
    assert_eq!(debug_path(&[0, 0, 2, 1, 1]), "inputs[0].invalid");
    let mut out = String::from("x");
    debug_tensorfacts_path(&[-1], &mut out);
    debug_tensorfact_path(&[], &mut out);
    debug_tensorfact_path(&[2, 3], &mut out);
    debug_value_path(&[1, -2], &mut out);
    assert_eq!(out, "x.len.shape[3][1][-2]");
}

#[test]
fn tensors_are_written_out() {
    let scalar = Tensor::i32s(&[], &[-5]).unwrap();
    assert_eq!(scalar.partial_dump(true).unwrap(), "Scalar I32 -5");
    let scalar = Tensor::u8s(&[], &[200]).unwrap();
    assert_eq!(scalar.partial_dump(true).unwrap(), "Scalar U8 200");
    let large = Tensor::i32s(&[3, 4], &[0; 12]).unwrap();
    assert_eq!(large.partial_dump(true).unwrap(), "shape:[3, 4] I32");
    let large = Tensor::f32s(&[9], &[F32(0); 9]).unwrap();
    assert_eq!(large.partial_dump(false).unwrap(), "shape:[9] F32");
    let small = Tensor::i32s(&[2, 2], &[1, 2, 3, 4]).unwrap();
    let array = ndarray::ArrayD::from_shape_vec(ndarray::IxDyn(&[2, 2]), vec![1, 2, 3, 4]).unwrap();
    let expected = format!("I32 {:?}", array).replace("\n", " ");
    assert_eq!(small.partial_dump(true).unwrap(), expected);
    assert!(expected.starts_with("I32 [[1, 2],  [3, 4]], shape=[2, 2]"));
    let small = Tensor::u8s(&[3], &[1, 2, 3]).unwrap();
    let array = ndarray::ArrayD::from_shape_vec(ndarray::IxDyn(&[3]), vec![1u8, 2, 3]).unwrap();
    assert_eq!(small.partial_dump(true).unwrap(), format!("U8 {:?}", array));
    let bytes = Tensor::i8s(&[3], &[1, 2, 3]).unwrap();
    assert_eq!(bytes.partial_dump(true), Err(Error::UnsupportedType));
    let floats = Tensor::f32s(&[], &[F32(0)]).unwrap();
    assert_eq!(floats.partial_dump(true), Err(Error::UnsupportedType));
}

#[test]
fn outputs_are_compared_in_their_order() {
    let a = Tensor::i32s(&[2], &[1, 2]).unwrap();
    let b = Tensor::i32s(&[1, 2], &[1, 2]).unwrap();
    let s = Tensor::i32s(&[], &[1]).unwrap();
    assert_eq!(
        compare_outputs(&[a.clone(), a.clone()], &[a.clone(), a.clone()], &[true, true]),
        Ok(())
    );
    assert_eq!(
        compare_outputs(&[a.clone()], &[a.clone(), a.clone()], &[true]),
        Err(Mismatch::Count { reference: 1, found: 2 })
    );
    assert_eq!(
        compare_outputs(&[a.clone(), a.clone()], &[a.clone(), b.clone()], &[false, true]),
        Err(Mismatch::Data(0))
    );
    assert_eq!(
        compare_outputs(&[a.clone(), a.clone()], &[a.clone(), b.clone()], &[true, true]),
        Err(Mismatch::Shape(1))
    );
    assert_eq!(
        compare_outputs(&[s.clone()], &[a.clone()], &[true]),
        Ok(())
    );
    assert_eq!(
        compare_outputs(&[a.clone()], &[a.clone()], &[]),
        Err(Mismatch::Data(0))
    );
}
