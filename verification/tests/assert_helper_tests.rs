// Checks that the assertion patterns used across the test suite behave as
// intended: containment of one collection in another, order-insensitive
// equality, and range membership.

fn check_contains_all(left: &[i32], right: &[i32]) {
    for n in left.iter() {
        assert!(
            right.contains(n),
            "Expected right {:?} to contain value {:?}",
            right,
            n
        );
    }
}

fn check_unordered_match(left: &[i32], right: &[i32]) {
    let lcount = left.iter().count();
    let rcount = right.iter().count();
    assert_eq!(
        lcount, rcount,
        "Expected: size of left and right collections to be equal, Actual: left = {}, right = {}",
        lcount, rcount
    );
    for n in left.iter() {
        assert!(
            right.contains(n),
            "Expected right side collection to contain value {:?} from left side collection",
            n
        );
    }
}

#[test]
fn contains_all() {
    let first = vec![1, 2, 3];
    let second = vec![5, 4, 3, 2, 1];
    check_contains_all(&first, &second);
    for n in first.iter() {
        assert!(second.contains(n), "Expected {:?} to contain {:?}", second, first);
    }
}

#[test]
#[should_panic]
fn not_contains_all() {
    let first = vec![1, 2, 3];
    let second = vec![5, 4, 3, 2, 1];
    check_contains_all(&second, &first);
}

#[test]
#[should_panic]
fn not_contains_all2() {
    let first = vec![1, 2, 3];
    let second = vec![5, 4, 3, 2, 1];
    for n in second.iter() {
        assert!(first.contains(n), "Expected {:?} to contain {:?}", second, first);
    }
}

#[test]
fn unordered_match() {
    let first = vec![1, 2, 3];
    let second = vec![3, 2, 1];
    check_unordered_match(&first, &second);
    check_unordered_match(&second, &first);
    for n in first.iter() {
        assert!(second.contains(n), "Expected {:?} to match contents of {:?}", second, first);
    }
    for n in second.iter() {
        assert!(first.contains(n), "Expected {:?} to match contents of {:?}", second, first);
    }
}

#[test]
#[should_panic]
fn not_unordered_match() {
    let first = vec![1, 2, 3];
    let second = vec![5, 4, 3];
    check_unordered_match(&first, &second);
}

#[test]
#[should_panic]
fn not_unordered_match2() {
    let first = vec![1, 2, 3];
    let second = vec![5, 4, 3];
    let lcount = first.iter().count();
    let rcount = second.iter().count();
    assert_eq!(lcount, rcount, "Expected {:?} to match contents of {:?}", second, first);
    for n in first.iter() {
        assert!(second.contains(n), "Expected {:?} to match contents of {:?}", second, first);
    }
}

#[test]
fn unordered_match_different_types() {
    let first = vec![1, 2, 3];
    let second = [3, 2, 1];
    let third = {
        let mut set = std::collections::HashSet::new();
        assert!(set.insert(1), "Unable to add 1 to HashSet");
        assert!(set.insert(2), "Unable to add 2 to HashSet");
        assert!(set.insert(3), "Unable to add 3 to HashSet");
        set
    };
    let fourth = std::collections::LinkedList::from([2, 1, 3]);

    assert_eq!(first.iter().count(), second.iter().count());
    for n in first.iter() {
        assert!(second.contains(n));
    }
    assert_eq!(second.iter().count(), third.iter().count());
    for n in second.iter() {
        assert!(third.contains(n));
    }
    assert_eq!(third.iter().count(), fourth.iter().count());
    for n in third.iter() {
        assert!(fourth.contains(n));
    }
    assert_eq!(fourth.iter().count(), first.iter().count());
    for n in fourth.iter() {
        assert!(first.contains(n));
    }

    for n in first.iter() {
        assert!(second.contains(n), "Expected {:?} to match contents of {:?}", first, second);
    }
    for n in second.iter() {
        assert!(third.contains(n), "Expected {:?} to match contents of {:?}", second, third);
    }
    for n in third.iter() {
        assert!(fourth.contains(n), "Expected {:?} to match contents of {:?}", third, fourth);
    }
    for n in fourth.iter() {
        assert!(first.contains(n), "Expected {:?} to match contents of {:?}", fourth, first);
    }
}

#[test]
fn in_range() {
    let range = 0..10;
    let i = 5;
    if !range.contains(&i) {
        panic!("Expected range {:?} to contain {:?}", range, i);
    }
    if !range.contains(&i) {
        panic!("Expected i to be in range!");
    }
}

#[test]
#[should_panic]
fn not_in_range() {
    let range = 0..10;
    let i = 11;
    if !range.contains(&i) {
        panic!("Expected range {:?} to contain {:?}", range, i);
    }
}

#[test]
#[should_panic]
fn not_in_range2() {
    let range = 0..10;
    let i = 11;
    if !range.contains(&i) {
        panic!("whoops!");
    }
}

#[test]
fn within() {
    let i = 5;
    assert!(i >= 0, "Expected {:?} to be gte {:?}", i, 0);
    assert!(i <= 10, "Expected {:?} to be lte {:?}", i, 10);
    assert!(i >= 0, "Expected i to be in range!");
    assert!(i <= 10, "Expected i to be in range!");
}

#[test]
#[should_panic]
fn not_within() {
    let i = 11;
    assert!(i >= 0, "Expected {:?} to be gte {:?}", i, 0);
    assert!(i <= 10, "Expected {:?} to be lte {:?}", i, 10);
}

#[test]
#[should_panic]
fn not_within2() {
    let i = 11;
    assert!(i >= 0, "whoops!");
    assert!(i <= 10, "whoops!");
}
