use mun_memory::abi::{Guid, TypeId};
use mun_memory::type_lut::{TypeHandle, TypeLut};

fn fake_type_id() -> TypeId {
    TypeId::from(Guid([0; 16]))
}

fn fake_type_lut(type_ids: &[TypeId], type_ptrs: &[TypeHandle]) -> TypeLut {
    TypeLut::new(type_ids.to_vec(), type_ptrs.to_vec()).unwrap()
}

fn null() -> TypeHandle {
    TypeHandle(0)
}

#[test]
fn test_type_lut_iter_mut_none() {
    let type_ids = &[];
    let type_ptrs = &mut [];
    let mut type_lut = fake_type_lut(type_ids, type_ptrs);

    let iter = type_ids.iter().zip(type_ptrs.iter_mut());
    assert_eq!(type_lut.iter_mut().into_iter().count(), iter.count());
}

#[test]
fn test_type_lut_iter_mut_some() {
    let type_ids = &[fake_type_id()];
    let type_ptrs = &mut [null()];
    let mut type_lut = fake_type_lut(type_ids, type_ptrs);

    let iter = type_ids.iter().zip(type_ptrs.iter_mut());
    assert_eq!(type_lut.iter_mut().into_iter().count(), iter.len());

    for (lhs, rhs) in type_lut.iter_mut().into_iter().zip(iter) {
        assert_eq!(lhs.0, rhs.0);
        assert_eq!(lhs.1, rhs.1);
    }
}

#[test]
fn test_type_lut_ptrs_mut_none() {
    let type_ids = &[];
    let type_ptrs = &mut [];
    let mut type_lut = fake_type_lut(type_ids, type_ptrs);

    assert_eq!(type_lut.type_handles_mut().len(), 0);
}

#[test]
fn test_type_lut_ptrs_mut_some() {
    let type_ids = &[fake_type_id()];
    let type_ptrs = &mut [null()];
    let mut type_lut = fake_type_lut(type_ids, type_ptrs);

    let result = type_lut.type_handles_mut();
    assert_eq!(result.len(), type_ptrs.len());
    for (lhs, rhs) in result.iter().zip(type_ptrs.iter()) {
        assert_eq!(lhs, rhs);
    }
}

#[test]
fn test_type_lut_type_ids_none() {
    let type_ids = &[];
    let type_ptrs = &mut [];
    let type_lut = fake_type_lut(type_ids, type_ptrs);

    assert_eq!(type_lut.type_ids().len(), 0);
}

#[test]
fn test_type_lut_type_ids_some() {
    let type_ids = &[fake_type_id()];
    let type_ptrs = &mut [null()];
    let type_lut = fake_type_lut(type_ids, type_ptrs);

    let result = type_lut.type_ids();
    assert_eq!(result.len(), type_ids.len());
    for (lhs, rhs) in result.iter().zip(type_ids.iter()) {
        assert_eq!(lhs, rhs);
    }
}

#[test]
fn test_type_lut_get_ptr_unchecked() {
    let type_ids = &[fake_type_id()];
    let type_ptrs = &mut [null()];

    let type_lut = fake_type_lut(type_ids, type_ptrs);
    assert_eq!(type_lut.get_type_handle_unchecked(0), type_ptrs[0]);
}

#[test]
fn test_type_lut_get_ptr_none() {
    let prototype = &[fake_type_id()];
    let type_ptrs = &mut [null()];

    let type_lut = fake_type_lut(prototype, type_ptrs);
    assert_eq!(type_lut.get_type_handle(1), None);
}

#[test]
fn test_type_lut_get_ptr_some() {
    let type_ids = &[fake_type_id()];
    let type_ptrs = &mut [null()];

    let type_lut = fake_type_lut(type_ids, type_ptrs);
    assert_eq!(type_lut.get_type_handle(0), Some(type_ptrs[0]));
}

#[test]
fn test_type_lut_get_ptr_unchecked_mut() {
    let type_ids = &[fake_type_id()];
    let type_ptrs = &mut [null()];

    let mut type_lut = fake_type_lut(type_ids, type_ptrs);
    assert_eq!(
        type_lut.get_type_handle_unchecked_mut(0),
        &mut type_ptrs[0]
    );
}

#[test]
fn test_type_lut_get_ptr_mut_none() {
    let type_ids = &[fake_type_id()];
    let type_ptrs = &mut [null()];

    let mut type_lut = fake_type_lut(type_ids, type_ptrs);
    assert_eq!(type_lut.get_type_handle_mut(1), None);
}

#[test]
fn test_type_lut_get_ptr_mut_some() {
    let type_ids = &[fake_type_id()];
    let type_ptrs = &mut [null()];

    let mut type_lut = fake_type_lut(type_ids, type_ptrs);
    assert_eq!(type_lut.get_type_handle_mut(0), Some(&mut type_ptrs[0]));
}

#[test]
fn type_lut_pairs_ids_with_handles() {
    let a = TypeId::from(Guid::from_str("a"));
    let b = TypeId::from(Guid::from_str("b"));
    let mut type_lut = TypeLut::new(vec![a, b], vec![TypeHandle(16), TypeHandle(32)]).unwrap();
    assert_eq!(type_lut.num_entries(), 2);
    assert_eq!(
        type_lut.iter(),
        vec![(&a, &TypeHandle(16)), (&b, &TypeHandle(32))]
    );
    assert_eq!(type_lut.get_type_handle(1), Some(TypeHandle(32)));
    assert_eq!(type_lut.get_type_handle(2), None);
    *type_lut.get_type_handle_mut(1).unwrap() = TypeHandle(64);
    *type_lut.get_type_handle_unchecked_mut(0) = TypeHandle(8);
    assert_eq!(
        type_lut.iter(),
        vec![(&a, &TypeHandle(8)), (&b, &TypeHandle(64))]
    );
    for (id, handle) in type_lut.iter_mut() {
        if *id == b {
            *handle = TypeHandle(128);
        }
    }
    assert_eq!(type_lut.get_type_handle(0), Some(TypeHandle(8)));
    assert_eq!(type_lut.get_type_handle(1), Some(TypeHandle(128)));
    type_lut.type_handles_mut()[0] = TypeHandle(0);
    assert_eq!(type_lut.get_type_handle_unchecked(0), TypeHandle(0));
    assert_eq!(type_lut.type_ids(), &[a, b]);
}

#[test]
fn type_lut_needs_a_handle_for_each_id() {
    let a = TypeId::from(Guid::from_str("a"));
    assert!(TypeLut::new(vec![a], vec![]).is_none());
    assert!(TypeLut::new(vec![], vec![TypeHandle(1)]).is_none());
    let empty = TypeLut::new(vec![], vec![]).unwrap();
    assert_eq!(empty.num_entries(), 0);
    assert!(empty.iter().is_empty());
}
