use primitives::cell::Cell;

#[test]
fn cell_new_then_get() {
    let cell = Cell::new(100);
    assert_eq!(cell.get(), 100);
}

#[test]
fn cell_set_then_get() {
    let mut cell = Cell::new(100);
    let first_read = cell.get();
    cell.set(200);
    let second_read = cell.get();
    assert_eq!(first_read, 100);
    assert_eq!(second_read, 200);
}

#[test]
fn cell_set_overwrites_each_time() {
    let mut cell = Cell::new(false);
    cell.set(true);
    assert!(cell.get());
    cell.set(false);
    assert!(!cell.get());
}
