use rayexec_execution::arrays::bitmap::Bitmap;
use rayexec_execution::arrays::selection::SelectionVector;
use rayexec_execution::arrays::storage::{
    bytes_eq, BooleanStorage, ContiguousVarlenStorage, GermanVarlenStorage, PrimitiveStorage,
    UntypedNullStorage,
};
use rayexec_execution::arrays::validity::Validity;
use rayexec_execution::error::RayexecError;

#[test]
fn bitmap_keeps_values_across_bytes() {
    let values: Vec<bool> = (0..21).map(|i| i % 3 == 0).collect();
    let bitmap = Bitmap::from_bools(&values);
    assert_eq!(bitmap.len(), 21);
    for (i, v) in values.iter().enumerate() {
        assert_eq!(bitmap.value(i), *v);
    }
    assert_eq!(bitmap.count_trues(), 7);
    assert_eq!(bitmap.clone(), bitmap);
    assert!(!bitmap.is_empty());
    assert!(Bitmap::new_with_all_true(0).is_empty());
}

#[test]
fn bitmap_built_two_ways_is_one_value() {
    // The unused bits of the last byte are zero however the bitmap is made.
    let mut pushed = Bitmap::new_with_all_false(0);
    for _ in 0..13 {
        pushed.push(true);
    }
    assert_eq!(pushed, Bitmap::new_with_all_true(13));
    let mut cleared = Bitmap::new_with_all_true(13);
    for i in 0..13 {
        cleared.set_unchecked(i, false);
    }
    assert_eq!(cleared, Bitmap::new_with_all_false(13));
}

#[test]
fn bitmap_set_reports_out_of_bounds() {
    let mut bitmap = Bitmap::new_with_all_false(4);
    assert_eq!(bitmap.set(4, true), Err(RayexecError::OutOfBounds { index: 4, len: 4 }));
    assert_eq!(bitmap.set(3, true), Ok(()));
    assert_eq!(bitmap.get(3), Some(true));
}

#[test]
fn bitmap_and() {
    let a = Bitmap::from_bools(&vec![true, true, false, false, true, true, true, true, true]);
    let b = Bitmap::from_bools(&vec![true, false, true, false, true, true, true, true, false]);
    let both = a.bit_and(&b).unwrap();
    assert_eq!(
        both,
        Bitmap::from_bools(&vec![true, false, false, false, true, true, true, true, false])
    );
    assert_eq!(
        a.bit_and(&Bitmap::new_with_all_true(3)),
        Err(RayexecError::LengthMismatch { left: 9, right: 3 })
    );
}

#[test]
fn validity_keeps_the_all_valid_marker() {
    let a = Validity::new_all_valid(5);
    let b = Validity::new_all_valid(5);
    let both = a.and(&b).unwrap();
    assert!(both.is_all_valid());
    assert_eq!(both.len(), 5);
    assert_eq!(both.count_valid(), 5);

    let mut c = Validity::new_all_valid(5);
    c.set_valid(2);
    assert!(c.is_all_valid());
    c.set_invalid(2);
    assert!(!c.is_all_valid());
    let mixed = a.and(&c).unwrap();
    assert_eq!(mixed.to_vec(), vec![true, true, false, true, true]);
    assert_eq!(mixed.count_valid(), 4);
    c.set(2, true);
    assert_eq!(c.count_valid(), 5);
    assert_eq!(
        a.and(&Validity::new_all_valid(4)).unwrap_err(),
        RayexecError::LengthMismatch { left: 5, right: 4 }
    );
}

#[test]
fn validity_reads_rows() {
    let none = Validity::new_all_invalid(3);
    assert_eq!(none.count_valid(), 0);
    assert_eq!(none.get(0), Some(false));
    assert_eq!(none.get(3), None);
    assert!(!none.is_valid(2));
    let from = Validity::from_bitmap(Bitmap::from_bools(&vec![false, true]));
    assert_eq!(from.to_vec(), vec![false, true]);
    assert_eq!(from.clone(), from);
    let picked = from.select(&SelectionVector::from_vec(vec![1, 1, 0]));
    assert_eq!(picked.to_vec(), vec![true, true, false]);
}

#[test]
fn selection_vector_factories() {
    assert_eq!(SelectionVector::with_range(2..5).to_vec(), vec![2, 3, 4]);
    assert_eq!(SelectionVector::with_range(5..2).to_vec(), Vec::<usize>::new());
    assert_eq!(SelectionVector::repeated(3, 7).to_vec(), vec![7, 7, 7]);
    assert!(SelectionVector::empty().is_empty());
    let sel = SelectionVector::from_vec(vec![4, 0, 2]);
    assert_eq!(sel.num_rows(), 3);
    assert_eq!(sel.len(), 3);
    assert_eq!(sel.get(1), 0);
    assert_eq!(sel.get_opt(2), Some(2));
    assert_eq!(sel.get_opt(3), None);
    assert_eq!(sel.clone(), sel);
    assert!(sel.all_below(5));
    assert!(!sel.all_below(4));
    assert_eq!(sel.first_at_or_above(3), Some(0));
    assert_eq!(sel.first_at_or_above(5), None);
}

#[test]
fn selection_vector_slices_and_composes() {
    let sel = SelectionVector::from_vec(vec![4, 0, 2, 9]);
    assert_eq!(sel.slice_unchecked(1, 2).to_vec(), vec![0, 2]);
    assert_eq!(sel.slice(1..4).unwrap().to_vec(), vec![0, 2, 9]);
    assert_eq!(
        sel.slice(2..5).unwrap_err(),
        RayexecError::OutOfBounds { index: 5, len: 4 }
    );
    let outer = SelectionVector::from_vec(vec![3, 3, 0]);
    assert_eq!(sel.select(&outer).to_vec(), vec![9, 9, 4]);
    assert_eq!(sel.compose(&outer).unwrap().to_vec(), vec![9, 9, 4]);
    let bad = SelectionVector::from_vec(vec![1, 4, 8]);
    assert_eq!(
        sel.compose(&bad).unwrap_err(),
        RayexecError::OutOfBounds { index: 4, len: 4 }
    );
}

#[test]
fn primitive_and_boolean_storage() {
    let storage = PrimitiveStorage::from_vec(vec![5u16, 6, 7]);
    assert_eq!(storage.len(), 3);
    assert_eq!(storage.as_slice(), &[5, 6, 7]);
    assert_eq!(storage.get(2), Some(&7));
    assert_eq!(storage.get(3), None);
    let bools = BooleanStorage(Bitmap::from_bools(&vec![false, true]));
    assert_eq!(bools.len(), 2);
    assert!(bools.value(1));
    assert_eq!(UntypedNullStorage(9).len(), 9);
}

#[test]
fn contiguous_storage_appends_and_reads() {
    let mut storage = ContiguousVarlenStorage::<i32>::new();
    assert_eq!(storage.len(), 0);
    storage.try_push(b"hello").unwrap();
    storage.try_push(b"").unwrap();
    storage.try_push(b"world!").unwrap();
    assert_eq!(storage.len(), 3);
    assert_eq!(storage.get(0), Some(&b"hello"[..]));
    assert_eq!(storage.get(1), Some(&b""[..]));
    assert_eq!(storage.get(2), Some(&b"world!"[..]));
    assert_eq!(storage.get(3), None);
    assert_eq!(storage.data_size_bytes(), 11);
}

#[test]
fn german_storage_holds_short_values_inline() {
    let mut storage = GermanVarlenStorage::with_metadata_capacity(4);
    storage.try_push(b"twelve bytes").unwrap();
    assert_eq!(storage.data_size_bytes(), 0);
    storage.try_push(b"thirteen byte").unwrap();
    assert_eq!(storage.data_size_bytes(), 13);
    storage.try_push(b"").unwrap();
    assert_eq!(storage.len(), 3);
    assert_eq!(storage.get(0), Some(&b"twelve bytes"[..]));
    assert_eq!(storage.get(1), Some(&b"thirteen byte"[..]));
    assert_eq!(storage.get(2), Some(&b""[..]));
    assert_eq!(storage.get(3), None);
    assert!(storage.value_eq(0, b"twelve bytes"));
    assert!(!storage.value_eq(0, b"twelve byte"));
    assert!(storage.value_eq(1, b"thirteen byte"));
    assert!(!storage.value_eq(1, b"thirteen bytE"));
    assert!(!storage.value_eq(1, b"Thirteen byte"));
    assert!(!storage.value_eq(1, b"thirteen bytes"));
    assert!(bytes_eq(b"ab", b"ab"));
    assert!(!bytes_eq(b"ab", b"ac"));
    assert!(!bytes_eq(b"ab", b"abc"));
}

#[test]
fn primitive_storage_is_written_in_bounds() {
    let mut storage = PrimitiveStorage::from_vec(vec![1i64, 2, 3]);
    assert_eq!(storage.put(1, 20), Ok(()));
    assert_eq!(storage.put(3, 40), Err(RayexecError::OutOfBounds { index: 3, len: 3 }));
    assert_eq!(storage.data_size_bytes(), 24);
    assert_eq!(storage.into_vec(), vec![1, 20, 3]);
    assert_eq!(PrimitiveStorage::from_vec(vec![0u8; 5]).data_size_bytes(), 5);
}
