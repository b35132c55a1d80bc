use mpsc_core::cell::Cell;
use mpsc_core::refcell::RefCell;
use mpsc_core::spinlock::SpinLock;

#[test]
fn cell_it_work() {
    let mut a = Cell::new('a');
    a.set('b');
    assert_eq!(a.get(), 'b');
}

#[test]
fn it_work0() {
    let z = RefCell::new(String::from("sdfs"));
    let a = z.borrow();
    assert_eq!(4, a.len());
}

#[test]
fn it_work1() {
    let mut z = RefCell::new(String::from("fuck"));
    {
        let mut a = z.borrow_mut();
        a.value.push_str(" you!");
        z.release_mut(a);
    }
    let a = z.borrow();
    assert_eq!(*a, "fuck you!");
}

#[test]
fn shared_borrows_are_counted() {
    let mut z = RefCell::new(7u32);
    z.acquire_shared();
    z.acquire_shared();
    assert_eq!(*z.borrow(), 7);
    z.release_shared();
    z.release_shared();
    let guard = z.borrow_mut();
    assert_eq!(guard.value, 7);
    z.release_mut(guard);
    assert_eq!(*z.borrow(), 7);
}

#[test]
fn spinlock_round_trip() {
    let lock = SpinLock::new(vec![1, 2, 3]);
    let (mut data, guard) = lock.lock();
    data.push(4);
    guard.unlock(data);
    let (data, guard) = lock.lock();
    assert_eq!(data, vec![1, 2, 3, 4]);
    guard.unlock(data);
}
