use bankarr::{BankVec, DrainRange};

type B = BankVec<u32, 3>;

#[test]
fn bankvec_from_vec() {
    let bank = BankVec::<i32, 4>::from(vec![1, 2, 3, 4]);
    assert_eq!(bank, [1, 2, 3, 4]);

    let bank = BankVec::<i32, 4>::from(vec![1, 2, 3, 4, 5]);
    assert_eq!(bank, [1, 2, 3, 4, 5]);
}

#[test]
fn bankvec_from_arr() {
    let bank = BankVec::<i32, 4>::from([1, 2, 3, 4]);
    assert_eq!(bank, [1, 2, 3, 4]);

    let bank = BankVec::<i32, 4>::from([1, 2, 3, 4, 5]);
    assert_eq!(bank, [1, 2, 3, 4, 5]);
}

#[test]
fn bankvec_index() {
    let mut bank = B::from([1, 2, 3]);
    assert_eq!(bank[0], 1);
    assert_eq!(bank[2], 3);

    bank.push(4);
    assert_eq!(bank[3], 4);
}

#[test]
fn bankvec_index_mut() {
    let mut bank = B::from([1, 2, 3]);
    bank[0] = 7;
    assert_eq!(bank[0], 7);
    bank.push(4);
    bank[3] = 6;
    assert_eq!(bank[3], 6);
}

#[test]
fn bankvec_push() {
    let mut bank = B::new();
    bank.push(1);
    bank.push(2);
    bank.push(3);
    assert!(!bank.on_heap());

    assert_eq!(bank[..1], [1]);
    assert_eq!(bank, [1, 2, 3]);

    bank.push(4);
    assert!(bank.on_heap());
    bank.push(5);
    assert_eq!(bank, [1, 2, 3, 4, 5]);
}

#[test]
fn bankvec_insert() {
    let mut bank = BankVec::<i32, 4>::from([1, 2, 4]);
    bank.insert(2, 3);
    assert_eq!(bank, [1, 2, 3, 4]);

    let mut bank = BankVec::<i32, 3>::from([1, 2, 4, 5]);
    bank.insert(2, 3);
    assert_eq!(bank, [1, 2, 3, 4, 5]);
}

#[test]
fn bankvec_pop() {
    let mut bank = B::from([3, 4, 5, 6]);

    assert!(bank.on_heap());
    assert_eq!(bank.pop(), Some(6));
}

#[test]
fn bankvec_remove() {
    let mut bank = B::from([3, 4, 5, 6]);

    assert!(bank.on_heap());
    let removed = bank.remove(1);
    assert_eq!(removed, 4);
    assert_eq!(bank, [3, 5, 6]);
}

#[test]
fn bankvec_swap_remove() {
    let mut bank = BankVec::<String, 3>::from([
        "aa".to_string(),
        "bb".to_string(),
        "cc".to_string(),
        "dd".to_string(),
    ]);

    assert!(bank.on_heap());
    let removed = bank.swap_remove(0);
    assert_eq!(removed, "aa".to_string());

    let removed = bank.swap_remove(0);
    assert_eq!(removed, "dd".to_string());
}

#[test]
fn bankvec_reserve_exact() {
    let mut bank = B::from([3, 4, 5]);
    assert_eq!(bank.capacity(), 3);
    bank.reserve_exact(1);
    assert_eq!(bank.capacity(), 4);
    bank.push(4);
    bank.reserve_exact(1);
    assert_eq!(bank.capacity(), 5);
}

#[test]
fn bankvec_extend() {
    let mut bank = BankVec::<i32, 4>::new();
    let arr: [i32; 8] = std::array::from_fn(|idx| idx as i32);
    bank.extend(arr.to_vec());

    assert_eq!(bank, arr);
}

#[test]
fn bankvec_iter() {
    let mut bank = BankVec::<&'static str, 3>::from(["a", "b", "c"]);
    assert!(!bank.on_heap());
    let mut iter = bank.iter();
    for s in ["a", "b", "c"] {
        assert_eq!(iter.next(), Some(s).as_ref());
    }
    assert_eq!(iter.next(), None);

    bank.push("d");
    assert!(bank.on_heap());
    let mut iter = bank.iter();
    for s in ["a", "b", "c", "d"] {
        assert_eq!(iter.next(), Some(s).as_ref());
    }
    assert_eq!(iter.next(), None);

    let mut bank = BankVec::<i32, 3>::from([1, 2, 3]);
    let r = &mut bank;
    for v in r.iter_mut() {
        *v *= 2
    }
    let r = &bank;
    let out = r.iter().map(|v| *v).collect::<Vec<_>>();
    assert_eq!(out, [2, 4, 6]);
}

#[test]
fn bankvec_iter_mut() {
    let mut bank = BankVec::<&'static str, 3>::from(["a", "b", "c"]);
    assert!(!bank.on_heap());
    let mut iter = bank.iter_mut();
    for s in ["a", "b", "c"] {
        assert_eq!(iter.next(), Some(s).as_mut());
    }
    assert_eq!(iter.next(), None);

    bank.push("d");
    assert!(bank.on_heap());
    let mut iter = bank.iter_mut();
    for s in ["a", "b", "c", "d"] {
        assert_eq!(iter.next(), Some(s).as_mut());
    }
    assert_eq!(iter.next(), None);
}

#[test]
fn bankvec_as_slice() {
    let mut bank = B::from([3, 4, 5]);
    assert!(!bank.on_heap());
    assert_eq!(bank.as_slice(), [3, 4, 5]);

    bank.push(6);
    assert!(bank.on_heap());
    assert_eq!(bank.as_slice(), [3, 4, 5, 6]);
}

#[test]
fn bankvec_as_slice_mut() {
    let mut bank = B::from([3, 4, 5]);
    assert!(!bank.on_heap());
    assert_eq!(bank.as_slice(), [3, 4, 5]);

    bank.push(6);
    assert!(bank.on_heap());
    assert_eq!(bank.as_mut_slice(), [3, 4, 5, 6]);
}

#[test]
fn bankvec_clone() {
    let bankarr = B::new();
    let bankvec = B::from([3, 4, 5, 6]);

    assert!(bankarr == bankarr.clone());
    assert!(bankvec == bankvec.clone());
    assert!(bankvec != bankarr);
}

#[test]
fn bankvec_drain() {
    let arr: [i32; 8] = std::array::from_fn(|idx| idx as i32);
    let mut bank = BankVec::<i32, 4>::from(arr.clone());

    let drained: Vec<i32> = bank.drain(DrainRange::full()).into_vec();

    assert_eq!(arr, *drained);
    assert_eq!(bank.len(), 0);
    assert_eq!(bank, []);
}

#[test]
fn bankvec_partial_eq() {
    let mut bank = BankVec::<i32, 2>::from([1, 2]);
    let vec = vec![1, 2];
    assert_eq!(bank, [1, 2]);
    assert_eq!(bank, &[1, 2]);
    assert_eq!(bank, *[1, 2].as_slice());
    assert_eq!(bank, vec.as_slice());
    assert_eq!(bank, vec);

    bank.push(3);
    let vec = vec![1, 2, 3];
    assert_eq!(bank, [1, 2, 3]);
    assert_eq!(bank, &[1, 2, 3]);
    assert_eq!(bank, *[1, 2, 3].as_slice());
    assert_eq!(bank, vec.as_slice());
    assert_eq!(bank, vec);
}

#[test]
fn bankvec_try_reserve() {
    let mut bank = BankVec::<i32, 3>::new();

    assert!(bank.try_reserve(1).is_ok());
    assert!(bank.try_reserve(4).is_ok());
}

#[test]
fn bankvec_try_reserve_exact() {
    let mut bank = BankVec::<i32, 3>::new();

    assert!(bank.try_reserve_exact(1).is_ok());
    assert!(bank.try_reserve_exact(4).is_ok());
}

#[test]
fn bankvec_set_len() {
    let mut bank = BankVec::<i32, 3>::from([1, 2, 3]);

    bank.set_len(1);
    assert_eq!(bank.len(), 1);
    assert_eq!(bank, [1]);

    let mut bank = BankVec::<i32, 3>::from([1, 2, 3, 4]);
    bank.set_len(1);
    assert_eq!(bank.len(), 1);
    assert_eq!(bank, [1]);
}

#[test]
fn bankvec2_from_vec() {
    let bank = BankVec::<i32, 4>::from(vec![1, 2, 3, 4]);
    assert_eq!(bank, [1, 2, 3, 4]);

    let bank = BankVec::<i32, 4>::from(vec![1, 2, 3, 4, 5]);
    assert_eq!(bank, [1, 2, 3, 4, 5]);
}

#[test]
fn bankvec2_from_arr() {
    let bank = BankVec::<i32, 4>::from([1, 2, 3, 4]);
    assert_eq!(bank, [1, 2, 3, 4]);

    let bank = BankVec::<i32, 4>::from([1, 2, 3, 4, 5]);
    assert_eq!(bank, [1, 2, 3, 4, 5]);
}

#[test]
fn bankvec2_index() {
    let mut bank = B::from([1, 2, 3]);
    assert_eq!(bank[0], 1);
    assert_eq!(bank[2], 3);

    bank.push(4);
    assert_eq!(bank[3], 4);
}

#[test]
fn bankvec2_index_mut() {
    let mut bank = B::from([1, 2, 3]);
    bank[0] = 7;
    assert_eq!(bank[0], 7);
    bank.push(4);
    bank[3] = 6;
    assert_eq!(bank[3], 6);
}

#[test]
fn bankvec2_push() {
    let mut bank = B::new();
    bank.push(1);
    bank.push(2);
    bank.push(3);
    assert!(!bank.on_heap());

    assert_eq!(bank[..1], [1]);
    assert_eq!(bank, [1, 2, 3]);

    bank.push(4);
    assert!(bank.on_heap());
    bank.push(5);
    assert_eq!(bank, [1, 2, 3, 4, 5]);
}

#[test]
fn bankvec2_insert() {
    let mut bank = BankVec::<i32, 4>::from([1, 2, 4]);
    bank.insert(2, 3);
    assert_eq!(bank, [1, 2, 3, 4]);

    let mut bank = BankVec::<i32, 3>::from([1, 2, 4, 5]);
    bank.insert(2, 3);
    assert_eq!(bank, [1, 2, 3, 4, 5]);
}

#[test]
fn bankvec2_pop() {
    let mut bank = B::from([3, 4, 5, 6]);

    assert!(bank.on_heap());
    assert_eq!(bank.pop(), Some(6));
}

#[test]
fn bankvec2_remove() {
    let mut bank = B::from([3, 4, 5, 6]);

    assert!(bank.on_heap());
    let removed = bank.remove(1);
    assert_eq!(removed, 4);
    assert_eq!(bank, [3, 5, 6]);
}

#[test]
fn bankvec2_swap_remove() {
    let mut bank = BankVec::<String, 3>::from([
        "aa".to_string(),
        "bb".to_string(),
        "cc".to_string(),
        "dd".to_string(),
    ]);

    assert!(bank.on_heap());
    let removed = bank.swap_remove(0);
    assert_eq!(removed, "aa".to_string());

    let removed = bank.swap_remove(0);
    assert_eq!(removed, "dd".to_string());
}

#[test]
fn bankvec2_reserve_exact() {
    let mut bank = B::from([3, 4, 5]);
    assert_eq!(bank.capacity(), 3);
    bank.reserve_exact(1);
    assert_eq!(bank.capacity(), 4);
    bank.push(4);
    bank.reserve_exact(1);
    assert_eq!(bank.capacity(), 5);
}

#[test]
fn bankvec2_extend() {
    let mut bank = BankVec::<i32, 4>::new();
    let arr: [i32; 8] = std::array::from_fn(|idx| idx as i32);
    bank.extend(arr.to_vec());

    assert_eq!(bank, arr);
}

#[test]
fn bankvec2_iter() {
    let mut bank = BankVec::<&'static str, 3>::from(["a", "b", "c"]);
    assert!(!bank.on_heap());
    let mut iter = bank.iter();
    for s in ["a", "b", "c"] {
        assert_eq!(iter.next(), Some(s).as_ref());
    }
    assert_eq!(iter.next(), None);

    bank.push("d");
    assert!(bank.on_heap());
    let mut iter = bank.iter();
    for s in ["a", "b", "c", "d"] {
        assert_eq!(iter.next(), Some(s).as_ref());
    }
    assert_eq!(iter.next(), None);

    let mut bank = BankVec::<i32, 3>::from([1, 2, 3]);
    let r = &mut bank;
    for v in r.iter_mut() {
        *v *= 2
    }
    let r = &bank;
    let out = r.iter().map(|v| *v).collect::<Vec<_>>();
    assert_eq!(out, [2, 4, 6]);
}

#[test]
fn bankvec2_iter_mut() {
    let mut bank = BankVec::<&'static str, 3>::from(["a", "b", "c"]);
    assert!(!bank.on_heap());
    let mut iter = bank.iter_mut();
    for s in ["a", "b", "c"] {
        assert_eq!(iter.next(), Some(s).as_mut());
    }
    assert_eq!(iter.next(), None);

    bank.push("d");
    assert!(bank.on_heap());
    let mut iter = bank.iter_mut();
    for s in ["a", "b", "c", "d"] {
        assert_eq!(iter.next(), Some(s).as_mut());
    }
    assert_eq!(iter.next(), None);
}

#[test]
fn bankvec2_as_slice() {
    let mut bank = B::from([3, 4, 5]);
    assert!(!bank.on_heap());
    assert_eq!(bank.as_slice(), [3, 4, 5]);

    bank.push(6);
    assert!(bank.on_heap());
    assert_eq!(bank.as_slice(), [3, 4, 5, 6]);
}

#[test]
fn bankvec2_as_slice_mut() {
    let mut bank = B::from([3, 4, 5]);
    assert!(!bank.on_heap());
    assert_eq!(bank.as_slice(), [3, 4, 5]);

    bank.push(6);
    assert!(bank.on_heap());
    assert_eq!(bank.as_mut_slice(), [3, 4, 5, 6]);
}

#[test]
fn bankvec2_clone() {
    let bankarr = B::new();
    let bankvec = B::from([3, 4, 5, 6]);

    assert!(bankarr == bankarr.clone());
    assert!(bankvec == bankvec.clone());
    assert!(bankvec != bankarr);
}

#[test]
fn bankvec2_drain() {
    let arr: [i32; 8] = std::array::from_fn(|idx| idx as i32);
    let mut bank = BankVec::<i32, 4>::from(arr.clone());

    let drained: Vec<i32> = bank.drain(DrainRange::full()).into_vec();

    assert_eq!(arr, *drained);
    assert_eq!(bank.len(), 0);
    assert_eq!(bank, []);
}

#[test]
fn bankvec2_partial_eq() {
    let mut bank = BankVec::<i32, 2>::from([1, 2]);
    let vec = vec![1, 2];
    assert_eq!(bank, [1, 2]);
    assert_eq!(bank, &[1, 2]);
    assert_eq!(bank, *[1, 2].as_slice());
    assert_eq!(bank, vec.as_slice());
    assert_eq!(bank, vec);

    bank.push(3);
    let vec = vec![1, 2, 3];
    assert_eq!(bank, [1, 2, 3]);
    assert_eq!(bank, &[1, 2, 3]);
    assert_eq!(bank, *[1, 2, 3].as_slice());
    assert_eq!(bank, vec.as_slice());
    assert_eq!(bank, vec);
}

#[test]
fn bankvec2_try_reserve() {
    let mut bank = BankVec::<i32, 3>::new();

    assert!(bank.try_reserve(1).is_ok());
    assert!(bank.try_reserve(4).is_ok());
}

#[test]
fn bankvec2_try_reserve_exact() {
    let mut bank = BankVec::<i32, 3>::new();

    assert!(bank.try_reserve_exact(1).is_ok());
    assert!(bank.try_reserve_exact(4).is_ok());
}

#[test]
fn bankvec2_set_len() {
    let mut bank = BankVec::<i32, 3>::from([1, 2, 3]);

    bank.set_len(1);
    assert_eq!(bank.len(), 1);
    assert_eq!(bank, [1]);

    let mut bank = BankVec::<i32, 3>::from([1, 2, 3, 4]);
    bank.set_len(1);
    assert_eq!(bank.len(), 1);
    assert_eq!(bank, [1]);
}
