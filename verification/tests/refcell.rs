use primitives::refcell::RefCell;

#[test]
fn write_then_read() {
    let mut cell = RefCell::new(0);
    let mut exclusive = cell.borrow_mut().expect("a fresh cell grants exclusive access");
    assert_eq!(*exclusive.read(&cell), 0);
    *exclusive.write(&mut cell) = 5;
    assert_eq!(*exclusive.read(&cell), 5);
    exclusive.release(&mut cell);
    let shared = cell.borrow().expect("no guard is live");
    assert_eq!(*shared.read(&cell), 5);
    shared.release(&mut cell);
}

#[test]
fn shared_guards_block_exclusive() {
    let mut cell = RefCell::new(String::from("text"));
    let g1 = cell.borrow().expect("first shared guard");
    let g2 = cell.borrow().expect("second shared guard");
    assert_eq!(g1.read(&cell), "text");
    assert_eq!(g2.read(&cell), "text");
    assert!(cell.borrow_mut().is_none());
    g1.release(&mut cell);
    assert!(cell.borrow_mut().is_none());
    g2.release(&mut cell);
    assert!(cell.borrow_mut().is_some());
}

#[test]
fn exclusive_guard_blocks_shared() {
    let mut cell = RefCell::new(7u8);
    let e1 = cell.borrow_mut().expect("exclusive guard");
    assert!(cell.borrow().is_none());
    e1.release(&mut cell);
    assert!(cell.borrow().is_some());
}

#[test]
fn exclusive_guard_blocks_exclusive() {
    let mut cell = RefCell::new(7u8);
    let e1 = cell.borrow_mut().expect("exclusive guard");
    assert!(cell.borrow_mut().is_none());
    assert!(cell.borrow_mut().is_none());
    e1.release(&mut cell);
    let e2 = cell.borrow_mut().expect("exclusive guard after release");
    e2.release(&mut cell);
    assert!(cell.borrow().is_some());
}

#[test]
fn many_shared_guards() {
    let mut cell = RefCell::new(1u32);
    let mut guards = Vec::new();
    for _ in 0..1000 {
        guards.push(cell.borrow().expect("shared access is not limited by shared access"));
    }
    assert!(cell.borrow_mut().is_none());
    let last = guards.pop().expect("a thousand guards");
    for guard in guards {
        guard.release(&mut cell);
        assert!(cell.borrow_mut().is_none());
    }
    last.release(&mut cell);
    assert!(cell.borrow_mut().is_some());
}

#[test]
fn refused_requests_change_nothing() {
    let mut cell = RefCell::new(3i64);
    let shared = cell.borrow().expect("shared guard");
    assert!(cell.borrow_mut().is_none());
    shared.release(&mut cell);
    let mut exclusive = cell.borrow_mut().expect("the refusal left one shared guard counted");
    assert!(cell.borrow().is_none());
    *exclusive.write(&mut cell) += 1;
    exclusive.release(&mut cell);
    let shared = cell.borrow().expect("the refusal left the exclusive guard in place");
    assert_eq!(*shared.read(&cell), 4);
}

#[test]
fn cell_is_reusable() {
    let mut cell = RefCell::new(0usize);
    for round in 0..10 {
        let mut exclusive = cell.borrow_mut().expect("exclusive guard");
        *exclusive.write(&mut cell) = round;
        exclusive.release(&mut cell);
        let shared = cell.borrow().expect("shared guard");
        assert_eq!(*shared.read(&cell), round);
        shared.release(&mut cell);
    }
}
