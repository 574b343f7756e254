use bounce_iter::{rwlockify, unrwlockify, BounceIterLockedMut};

#[test]
fn empty() {
    let data: Vec<i32> = Vec::new();
    let iter = BounceIterLockedMut::try_new(rwlockify(&data), false);
    assert!(iter.is_none());
    let expected: Vec<i32> = Vec::new();
    let pulled: Vec<i32> = match iter {
        Some(mut iter) => unrwlockify(&iter.pull(5)).unwrap(),
        None => Vec::new(),
    };
    assert_eq!(pulled, expected);
}

#[test]
fn smol() {
    let data = vec![1];
    let mut iter = BounceIterLockedMut::new(rwlockify(&data));
    let expected = vec![1, 1, 1, 1, 1];
    assert_eq!(unrwlockify(&iter.pull(5)).unwrap(), expected);
}

#[test]
fn basic_test() {
    let data = vec![1, 2, 3, 4, 5];
    let expected = vec![1, 2, 3, 4, 5, 4, 3, 2, 1, 2, 3, 4, 5];
    let mut iter = BounceIterLockedMut::new(rwlockify(&data));
    assert_eq!(unrwlockify(&iter.pull(13)).unwrap(), expected);
}

#[test]
fn basic_test_rev() {
    let data = vec![1, 2, 3, 4, 5];
    let expected = vec![5, 4, 3, 2, 1, 2, 3, 4, 5, 4, 3, 2, 1, 2, 3, 4, 5];
    let mut iter = BounceIterLockedMut::new_rev(rwlockify(&data));
    assert_eq!(unrwlockify(&iter.pull(17)).unwrap(), expected);
}

#[test]
fn write() {
    let ptrs = rwlockify(&vec![1, 2, 3, 4, 5]);
    let expected = vec![2, 4, 6, 8, 10];
    let mut iter = BounceIterLockedMut::new(ptrs);
    for _ in 0..5 {
        let Some(item) = iter.next() else {
            break;
        };
        let value = *item.read().unwrap();
        *item.write().unwrap() = value * 2;
    }
    iter.reset();
    let data = unrwlockify(&iter.pull(5)).unwrap();
    assert_eq!(data, expected);
}

#[test]
fn write_multiple() {
    let ptrs = rwlockify(&vec![1, 2, 3, 4, 5]);
    // backward because it comes after a bounce; peeking rules out reset()
    let expected = vec![5, 10, 10, 2, 10];
    let mut inner = BounceIterLockedMut::new(ptrs);
    let mut iter = std::iter::from_fn(move || inner.next()).peekable();
    for _ in 0..5 {
        let Some(item) = iter.next() else {
            break;
        };
        // the write lands on the NEXT item
        let peek = iter.peek_mut().unwrap();
        *peek.write().unwrap() = 5;
        let value = *item.read().unwrap();
        *item.write().unwrap() = value * 2;
    }
    let data = unrwlockify(&iter.take(5).collect::<Vec<_>>()).unwrap();
    assert_eq!(data, expected);
}
