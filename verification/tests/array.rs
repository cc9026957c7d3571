use tvm_ffi::any::{AnyCell, AnyValue, ObjectRef};
use tvm_ffi::array::Array;
use tvm_ffi::error::{ArrayOp, Error};
use tvm_ffi::type_index;

fn refs(handles: &[u64]) -> Vec<ObjectRef> {
    handles.iter().map(|h| ObjectRef::new(*h)).collect()
}

fn handles(a: &Array<ObjectRef>) -> Vec<u64> {
    let mut out = Vec::new();
    let mut it = a.iter();
    while let Some(r) = it.next() {
        out.push(r.get_handle());
    }
    out
}

#[test]
fn new_holds_items_with_no_spare_slot() {
    let a = Array::new(refs(&[10, 20, 30]));
    assert_eq!(a.len(), 3);
    assert!(!a.is_empty());
    assert_eq!(a.capacity(), 3);
    assert_eq!(handles(&a), vec![10, 20, 30]);
}

#[test]
fn new_empty() {
    let a: Array<ObjectRef> = Array::new(Vec::new());
    assert_eq!(a.len(), 0);
    assert!(a.is_empty());
    assert_eq!(a.capacity(), 0);
    assert!(a.iter().next().is_none());
}

#[test]
fn get_reads_each_index() {
    let a = Array::new(refs(&[7, 8]));
    assert_eq!(a.get(0).unwrap().get_handle(), 7);
    assert_eq!(a.get(1).unwrap().get_handle(), 8);
}

#[test]
fn get_out_of_bound_is_index_error() {
    let a = Array::new(refs(&[7, 8]));
    let e = a.get(2).err().unwrap();
    assert_eq!(e, Error::IndexOutOfBound { op: ArrayOp::Get });
    assert!(e.is_index_error());
}

#[test]
fn push_grows_from_zero_to_four_then_doubles() {
    let mut a: Array<ObjectRef> = Array::new(Vec::new());
    a.push(ObjectRef::new(1));
    assert_eq!(a.capacity(), 4);
    for h in 2..=4 {
        a.push(ObjectRef::new(h));
    }
    assert_eq!(a.capacity(), 4);
    a.push(ObjectRef::new(5));
    assert_eq!(a.capacity(), 8);
    assert_eq!(handles(&a), vec![1, 2, 3, 4, 5]);
}

#[test]
fn push_on_full_array_doubles_capacity() {
    let mut a = Array::new(refs(&[1, 2, 3]));
    a.push(ObjectRef::new(4));
    assert_eq!(a.capacity(), 6);
    assert_eq!(a.len(), 4);
    assert_eq!(a.get(3).unwrap().get_handle(), 4);
}

#[test]
fn insert_shifts_items_right() {
    let mut a = Array::new(refs(&[1, 2, 3]));
    a.push(ObjectRef::new(4));
    assert_eq!(a.capacity(), 6);
    assert!(a.insert(1, ObjectRef::new(9)).is_ok());
    assert_eq!(handles(&a), vec![1, 9, 2, 3, 4]);
    assert_eq!(a.capacity(), 6);
    assert!(a.insert(0, ObjectRef::new(8)).is_ok());
    assert!(a.insert(6, ObjectRef::new(7)).is_ok());
    assert_eq!(handles(&a), vec![8, 1, 9, 2, 3, 4, 7]);
    assert_eq!(a.capacity(), 12);
}

#[test]
fn insert_past_end_is_index_error() {
    let mut a = Array::new(refs(&[1, 2]));
    let r = a.insert(3, ObjectRef::new(5));
    assert_eq!(r, Err(Error::IndexOutOfBound { op: ArrayOp::Insert }));
    assert_eq!(handles(&a), vec![1, 2]);
    assert_eq!(a.capacity(), 2);
}

#[test]
fn insert_into_empty_array_allocates_four() {
    let mut a: Array<ObjectRef> = Array::new(Vec::new());
    assert!(a.insert(0, ObjectRef::new(3)).is_ok());
    assert_eq!(a.capacity(), 4);
    assert_eq!(handles(&a), vec![3]);
}

#[test]
fn pop_returns_last_and_keeps_capacity() {
    let mut a = Array::new(refs(&[1, 2, 3]));
    assert_eq!(a.pop().unwrap().get_handle(), 3);
    assert_eq!(a.len(), 2);
    assert_eq!(a.capacity(), 3);
    assert_eq!(a.pop().unwrap().get_handle(), 2);
    assert_eq!(a.pop().unwrap().get_handle(), 1);
    assert!(a.pop().is_none());
    assert!(a.is_empty());
}

#[test]
fn remove_shifts_items_left() {
    let mut a = Array::new(refs(&[1, 2, 3, 4]));
    assert_eq!(a.remove(1).unwrap().get_handle(), 2);
    assert_eq!(handles(&a), vec![1, 3, 4]);
    assert_eq!(a.remove(2).unwrap().get_handle(), 4);
    assert_eq!(handles(&a), vec![1, 3]);
    assert_eq!(a.capacity(), 4);
}

#[test]
fn remove_past_end_is_index_error() {
    let mut a = Array::new(refs(&[1]));
    let e = a.remove(1).err().unwrap();
    assert_eq!(e, Error::IndexOutOfBound { op: ArrayOp::Remove });
    assert_eq!(handles(&a), vec![1]);
}

#[test]
fn clear_empties_and_keeps_capacity() {
    let mut a = Array::new(refs(&[1, 2, 3]));
    a.clear();
    assert!(a.is_empty());
    assert_eq!(a.capacity(), 3);
    a.push(ObjectRef::new(5));
    assert_eq!(a.capacity(), 3);
    assert_eq!(handles(&a), vec![5]);
}

#[test]
fn extend_appends_in_order() {
    let mut a = Array::new(refs(&[1]));
    a.extend(refs(&[2, 3, 4]));
    assert_eq!(handles(&a), vec![1, 2, 3, 4]);
    assert_eq!(a.capacity(), 4);
    a.extend(refs(&[5]));
    assert_eq!(a.capacity(), 8);
}

#[test]
fn iterator_walks_every_item_then_stops() {
    let a = Array::new(refs(&[4, 5]));
    let mut it = a.iter();
    assert_eq!(it.next().unwrap().get_handle(), 4);
    assert_eq!(it.next().unwrap().get_handle(), 5);
    assert!(it.next().is_none());
    assert!(it.next().is_none());
}

#[test]
fn mutating_a_clone_leaves_the_original() {
    let a = Array::new(refs(&[1, 2]));
    let mut b = a.clone();
    b.push(ObjectRef::new(3));
    b.remove(0).unwrap();
    assert_eq!(handles(&a), vec![1, 2]);
    assert_eq!(a.capacity(), 2);
    assert_eq!(handles(&b), vec![2, 3]);
    let mut c = a.clone();
    c.clear();
    assert_eq!(handles(&a), vec![1, 2]);
    assert!(c.is_empty());
}

#[test]
fn pop_and_insert_on_a_shared_array_copy_first() {
    let a = Array::new(refs(&[1, 2, 3]));
    let mut b = a.clone();
    assert_eq!(b.pop().unwrap().get_handle(), 3);
    assert_eq!(b.capacity(), 3);
    assert!(b.insert(0, ObjectRef::new(0)).is_ok());
    assert_eq!(handles(&b), vec![0, 1, 2]);
    assert_eq!(handles(&a), vec![1, 2, 3]);
}

#[test]
fn type_str_is_array() {
    assert_eq!(Array::<ObjectRef>::type_str(), "Array");
}

#[test]
fn any_view_round_trip_shares_the_object() {
    let a = Array::new(refs(&[1, 2]));
    let mut data = AnyValue::none();
    Array::copy_to_any_view(&a, &mut data);
    assert!(matches!(data, AnyValue::ArrayView(_)));
    assert_eq!(data.type_index(), type_index::ARRAY);
    assert!(Array::<ObjectRef>::check_any_strict(&data));
    let b = Array::<ObjectRef>::copy_from_any_view_after_check(&data);
    assert_eq!(handles(&b), vec![1, 2]);
    let c = Array::<ObjectRef>::try_cast_from_any_view(&data).ok().unwrap();
    assert_eq!(handles(&c), vec![1, 2]);
    assert_eq!(c.capacity(), 2);
}

#[test]
fn move_from_any_leaves_the_value_as_it_was() {
    let mut a = Array::new(refs(&[6]));
    a.push(ObjectRef::new(7));
    let mut data = AnyValue::none();
    Array::move_to_any(a, &mut data);
    let b = Array::<ObjectRef>::move_from_any_after_check(&mut data);
    assert_eq!(handles(&b), vec![6, 7]);
    assert_eq!(b.capacity(), 2);
    assert_eq!(data.type_index(), type_index::ARRAY);
    assert!(Array::<ObjectRef>::check_any_strict(&data));
}

#[test]
fn cast_of_a_plain_value_fails() {
    let data = AnyValue::Cell(AnyCell { type_index: 1, handle: 5 });
    assert!(!Array::<ObjectRef>::check_any_strict(&data));
    assert!(Array::<ObjectRef>::try_cast_from_any_view(&data).is_err());
}

#[test]
fn data_round_trip_keeps_items_and_capacity() {
    let mut a = Array::new(refs(&[1, 2, 3]));
    a.pop();
    assert_eq!(a.data().size(), 2);
    assert_eq!(a.data().capacity(), 3);
    assert_eq!(a.data().extra_items_count(), 2);
    let obj = a.into_data();
    let b: Array<ObjectRef> = Array::from_data(obj);
    assert_eq!(handles(&b), vec![1, 2]);
    assert_eq!(b.capacity(), 3);
}

#[test]
fn cell_helpers() {
    assert_eq!(AnyCell::none(), AnyCell { type_index: 0, handle: 0 });
    assert!(AnyCell { type_index: 64, handle: 1 }.is_object());
    assert!(AnyCell { type_index: 71, handle: 1 }.is_object());
    assert!(!AnyCell { type_index: 63, handle: 1 }.is_object());
    assert_eq!(AnyValue::Cell(AnyCell { type_index: 3, handle: 0 }).type_index(), 3);
}

#[test]
fn law_push_then_pop_on_values() {
    let mut a = Array::new(refs(&[1, 2]));
    a.push(ObjectRef::new(9));
    assert_eq!(a.get(2).unwrap().get_handle(), 9);
    assert_eq!(a.pop().unwrap().get_handle(), 9);
    assert_eq!(handles(&a), vec![1, 2]);
}

#[test]
fn law_insert_then_remove_on_values() {
    let mut a = Array::new(refs(&[1, 2, 3]));
    assert!(a.insert(1, ObjectRef::new(9)).is_ok());
    assert_eq!(a.remove(1).unwrap().get_handle(), 9);
    assert_eq!(handles(&a), vec![1, 2, 3]);
}

#[test]
fn law_remove_then_insert_on_values() {
    let mut a = Array::new(refs(&[1, 2, 3]));
    let r = a.remove(0).unwrap();
    assert!(a.insert(0, r).is_ok());
    assert_eq!(handles(&a), vec![1, 2, 3]);
}

#[test]
fn law_len_never_exceeds_capacity_on_values() {
    let mut a: Array<ObjectRef> = Array::new(Vec::new());
    for h in 0..20 {
        a.push(ObjectRef::new(h));
        assert!(a.len() <= a.capacity());
    }
    assert_eq!(a.capacity(), 32);
}

#[test]
fn law_extend_is_one_push_per_item_on_values() {
    let mut a = Array::new(refs(&[1, 2]));
    let mut b = a.clone();
    a.extend(refs(&[3, 4, 5]));
    for h in 3..=5 {
        b.push(ObjectRef::new(h));
    }
    assert_eq!(handles(&a), handles(&b));
    assert_eq!(a.capacity(), b.capacity());
    assert_eq!(a.capacity(), 8);
}

#[test]
fn try_from_any_converts_an_array_value() {
    let a = Array::new(refs(&[3, 4]));
    let mut data = AnyValue::none();
    Array::move_to_any(a, &mut data);
    let b = Array::<ObjectRef>::try_from_any(data).ok().unwrap();
    assert_eq!(handles(&b), vec![3, 4]);
}

#[test]
fn try_from_any_of_a_plain_value_is_cannot_convert() {
    let data = AnyValue::Cell(AnyCell { type_index: 2, handle: 1 });
    let e = Array::<ObjectRef>::try_from_any_view(&data).err().unwrap();
    assert_eq!(e, Error::CannotConvert { found: 2 });
    assert!(!e.is_index_error());
    let e2 = Array::<ObjectRef>::try_from_any(data).err().unwrap();
    assert_eq!(e2, Error::CannotConvert { found: 2 });
}

#[test]
fn cell_with_array_index_is_no_array() {
    let data = AnyValue::Cell(AnyCell { type_index: type_index::ARRAY, handle: 9 });
    assert_eq!(data.type_index(), type_index::ARRAY);
    assert!(!Array::<ObjectRef>::check_any_strict(&data));
    assert!(Array::<ObjectRef>::try_cast_from_any_view(&data).is_err());
}

#[test]
fn object_handles_lists_the_items() {
    let mut a = Array::new(refs(&[1, 2, 3]));
    a.pop();
    assert_eq!(a.data().object_handles(), vec![1, 2]);
}
