use tfdeploy::arrays::fits;
use tfdeploy::tensor::{checked_volume, copy_of, same_extents, Array, DataType, Datum, F32, F64};
use tfdeploy::{Error, Tensor};

#[test]
fn arrays_are_indexed_in_row_major_order() {
    let a = Array::from_shape_vec(vec![2, 3], vec![1, 2, 3, 4, 5, 6]).unwrap();
    assert_eq!(a.shape(), &[2, 3]);
    assert_eq!(a.ndim(), 2);
    assert_eq!(a.len(), 6);
    assert_eq!(a.get(&[0, 0]), Some(1));
    assert_eq!(a.get(&[0, 2]), Some(3));
    assert_eq!(a.get(&[1, 0]), Some(4));
    assert_eq!(a.get(&[1, 2]), Some(6));
    assert_eq!(a.get(&[2, 0]), None);
    assert_eq!(a.get(&[0, 3]), None);
    assert_eq!(a.get(&[0]), None);
    assert_eq!(a.get(&[0, 0, 0]), None);
    let scalar = Array::from_shape_vec(vec![], vec![9]).unwrap();
    assert_eq!(scalar.get(&[]), Some(9));
    assert_eq!(scalar.len(), 1);
    let cube = Array::from_shape_vec(vec![2, 2, 2], vec![0, 1, 2, 3, 4, 5, 6, 7]).unwrap();
    assert_eq!(cube.get(&[1, 0, 1]), Some(5));
    assert_eq!(cube.get(&[1, 1, 0]), Some(6));
    assert!(a.same_extents(&a.duplicate()));
    assert!(!a.same_extents(&Array::from_shape_vec(vec![3, 2], vec![0; 6]).unwrap()));
    assert_eq!(a.clone(), a);
}

#[test]
fn extents_must_hold_the_elements() {
    assert_eq!(
        Array::from_shape_vec(vec![2, 2], vec![1, 2, 3]).err(),
        Some(Error::Shape)
    );
    assert_eq!(
        Array::from_shape_vec(vec![usize::MAX, 2], vec![1, 2]).err(),
        Some(Error::Shape)
    );
    assert!(Array::<i32>::from_shape_vec(vec![0, 5], vec![]).is_ok());
    assert_eq!(Tensor::i32s(&[2], &[1]).err(), Some(Error::Shape));
    assert_eq!(checked_volume(&[]), Some(1));
    assert_eq!(checked_volume(&[2, 3, 4]), Some(24));
    assert_eq!(checked_volume(&[2, 0, 4]), Some(0));
    assert_eq!(checked_volume(&[usize::MAX, 2]), None);
    assert_eq!(checked_volume(&[usize::MAX, 2, 0]), Some(0));
    assert!(fits(&[2, 3]));
    assert!(fits(&[]));
    assert!(fits(&[0, 7]));
    assert!(!fits(&[usize::MAX, 0]));
    assert!(!fits(&[usize::MAX / 2 + 1]));
    assert!(fits(&[usize::MAX / 2]));
    assert!(same_extents(&[1, 2], &[1, 2]));
    assert!(!same_extents(&[1, 2], &[1]));
    assert!(!same_extents(&[1, 2], &[1, 3]));
    assert_eq!(copy_of(&[1u8, 2]), vec![1, 2]);
}

#[test]
fn tensors_know_their_datatype_and_shape() {
    let t = Tensor::f32s(&[2], &[F32(1), F32(2)]).unwrap();
    assert_eq!(t.datatype(), DataType::F32);
    assert_eq!(t.shape(), &[2]);
    assert!(t.as_f32s().is_some());
    assert!(t.as_f64s().is_none());
    assert!(t.as_i32s().is_none());
    assert!(t.same(&t.duplicate()));
    assert!(!t.same(&Tensor::f32s(&[2], &[F32(1), F32(3)]).unwrap()));
    assert!(!t.same(&Tensor::f32s(&[1, 2], &[F32(1), F32(2)]).unwrap()));
    let u = Tensor::u8s(&[2], &[1, 2]).unwrap();
    assert_eq!(u.datatype(), DataType::U8);
    assert!(u.as_u8s().is_some());
    assert!(!u.same(&Tensor::i8s(&[2], &[1, 2]).unwrap()));
    assert_eq!(Tensor::i8s(&[1], &[-1]).unwrap().datatype(), DataType::I8);
    assert_eq!(Tensor::f64s(&[1], &[F64(7)]).unwrap().datatype(), DataType::F64);
    assert!(Tensor::i8s(&[1], &[-1]).unwrap().as_i8s().is_some());
    assert_eq!(t.clone(), t);
}

#[test]
fn elements_go_into_tensors_of_their_datatype() {
    assert_eq!(<i32 as Datum>::datatype(), DataType::I32);
    assert_eq!(<F32 as Datum>::datatype(), DataType::F32);
    assert_eq!(<u8 as Datum>::zero(), 0);
    assert_eq!(<F64 as Datum>::zero(), F64(0));
    assert!(3i8.same(3));
    assert!(!F32(1).same(F32(2)));
    let a = Array::from_shape_vec(vec![1], vec![5i32]).unwrap();
    let t = <i32 as Datum>::array_into_tensor(a.clone());
    assert_eq!(t, Tensor::i32s(&[1], &[5]).unwrap());
    assert_eq!(<i32 as Datum>::tensor_to_view(&t), Ok(&a));
    assert_eq!(<u8 as Datum>::tensor_to_view(&t), Err(Error::UnsupportedType));
}
