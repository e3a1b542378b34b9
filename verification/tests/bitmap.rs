use rayexec_execution::arrays::bitmap::Bitmap;

#[test]
fn bitmap_all_true_counts_every_row() {
    let bitmap = Bitmap::new_with_all_true(11);
    assert_eq!(bitmap.len(), 11);
    assert_eq!(bitmap.count_trues(), 11);
    assert!(bitmap.value(10));
}

#[test]
fn bitmap_set_and_get() {
    let mut bitmap = Bitmap::new_with_all_false(9);
    bitmap.set_unchecked(8, true);
    assert!(bitmap.value(8));
    assert!(!bitmap.value(7));
    assert_eq!(bitmap.get(9), None);
    assert_eq!(bitmap.count_trues(), 1);
}
