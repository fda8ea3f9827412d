use rurpc::AtomicList;

#[test]
fn normal() {
    let mut l: AtomicList<u32> = Default::default();
    assert!(l.empty());

    l.push_front(0u32);
    assert!(!l.empty());

    l.push_front(1u32);
    assert!(!l.empty());

    let v: Vec<u32> = l.drain_to_sequence();
    assert_eq!(v, vec![1u32, 0u32]);
}

#[test]
fn push_one_million() {
    let mut l: AtomicList<i32> = Default::default();
    for i in 0..1000000 {
        l.push_front(i);
    }
}

#[test]
fn drain_is_reverse_of_push_order() {
    let mut l: AtomicList<u32> = Default::default();
    l.push_front(1);
    l.push_front(2);
    l.push_front(3);
    let v = l.drain_to_sequence();
    assert_eq!(v, vec![3u32, 2, 1]);
}

#[test]
fn drain_leaves_stack_empty() {
    let mut l: AtomicList<u8> = Default::default();
    l.push_front(9);
    let v = l.drain_to_sequence();
    assert_eq!(v, vec![9u8]);
    assert!(l.empty());
    let again = l.drain_to_sequence();
    assert!(again.is_empty());
}

#[test]
fn drain_yields_each_element_exactly_once() {
    let mut l: AtomicList<u32> = Default::default();
    for i in 0..100u32 {
        l.push_front(i);
    }
    let v = l.drain_to_sequence();
    assert_eq!(v.len(), 100);
    for (k, x) in v.iter().enumerate() {
        assert_eq!(*x, 99 - (k as u32));
    }
}
