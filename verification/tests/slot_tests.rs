use rurpc::slot::SlotProbe;
use rurpc::AtomicBox;

#[test]
fn null_ptr() {
    let a = AtomicBox::<u32>::null();
    assert_eq!(a.is_null(), true);
    drop(a);
}

#[test]
#[should_panic]
fn it_should_panic() {
    struct S;
    impl Drop for S {
        fn drop(&mut self) {
            panic!();
        }
    }

    let mut a: AtomicBox<S> = Default::default();
    assert_eq!(a.is_null(), true);

    a.swap(Box::new(S));
    drop(a);
}

#[test]
fn sentinel_probes() {
    let a = AtomicBox::<u8>::invalid();
    assert!(a.is_invalid());
    assert!(!a.is_null());
    assert_eq!(a.load(), SlotProbe::Invalid);

    let b = AtomicBox::<u8>::null();
    assert!(!b.is_invalid());
    assert_eq!(b.load(), SlotProbe::Null);
}

#[test]
fn take_on_empty_is_idempotent() {
    let mut a = AtomicBox::<u32>::null();
    assert!(a.take().is_none());
    assert!(a.is_null());
    assert!(a.take().is_none());
    assert!(a.is_null());
}

#[test]
fn take_returns_held_value_once() {
    let mut a = AtomicBox::<u32>::null();
    assert!(a.swap(Box::new(7)).is_none());
    assert_eq!(a.load(), SlotProbe::Value);
    let first = a.take();
    assert_eq!(first.map(|b| *b), Some(7));
    assert!(a.take().is_none());
    assert!(a.is_null());
}

#[test]
fn exchange_exactly_once() {
    let mut a = AtomicBox::<u32>::null();
    let mut none_count = 0;
    let mut some_count = 0;
    let n = 5u32;
    for i in 0..n {
        match a.swap(Box::new(i)) {
            None => none_count += 1,
            Some(prev) => {
                assert_eq!(*prev, i - 1);
                some_count += 1;
            }
        }
    }
    assert_eq!(none_count, 1);
    assert_eq!(some_count, n - 1);
}

#[test]
fn exchange_on_placeholder_returns_none() {
    let mut a = AtomicBox::<u32>::invalid();
    assert!(a.swap(Box::new(3)).is_none());
    let back = a.take();
    assert_eq!(back.map(|b| *b), Some(3));
}
