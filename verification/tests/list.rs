use doubly_linked_list::List;

#[test]
fn test_push_back() {
    let mut list = List::new();
    (0..1000).for_each(|i| list.push_back(i as i32));
}

#[test]
fn test_len() {
    let mut list = List::new();
    (0..1000).for_each(|i| list.push_back(i as i32));
    assert_eq!(list.len(), 1000);
}

#[test]
fn test_get() {
    let mut list = List::new();
    (0..1000).for_each(|i| list.push_back(i as i32));
    (0..1000).for_each(|i| assert_eq!(list.get(i), Some(i as i32)));
}

#[test]
fn test_empty_len() {
    assert_eq!(List::new().len(), 0);
}

#[test]
fn test_large_data() {
    let mut list = List::new();
    (0..1000 * 10).for_each(|i| list.push_back(i as i32));
    assert_eq!(list.len(), 1000 * 10);
}

#[test]
fn test_getting_from_large_data() {
    let mut list: List = List::new();

    (0..10000).for_each(|i| list.push_back(i as i32));

    // Not doing exhaustive testing here since get is O(n)
    [0, 100, 2314, 3948, 231, 9489, 9999].iter().for_each(|i| {
        assert_eq!(list.get(*i as usize), Some(*i as i32));
    });
}

#[test]
fn test_out_of_bounds() {
    let mut list = List::new();
    (0..20).for_each(|i| list.push_back(i as i32));
    assert_eq!(list.get(20), None);
    assert_eq!(list.get(20 * 20), None);
}

#[test]
fn test_fresh_list_get_none() {
    let list = List::new();
    assert_eq!(list.len(), 0);
    assert_eq!(list.get(0), None);
}

#[test]
fn test_single_element() {
    let mut list = List::new();
    list.push_back(42);
    assert_eq!(list.len(), 1);
    assert_eq!(list.get(0), Some(42));
    assert_eq!(list.get(1), None);
}

#[test]
fn test_get_far_out_of_bounds() {
    let mut list = List::new();
    list.push_back(1);
    list.push_back(2);
    assert_eq!(list.get(2), None);
    assert_eq!(list.get(1_000_000), None);
    assert_eq!(list.get(usize::MAX), None);
}

#[test]
fn test_append_preserves_earlier_entries() {
    let mut list = List::new();
    list.push_back(-3);
    list.push_back(0);
    list.push_back(7);
    assert_eq!(list.get(0), Some(-3));
    assert_eq!(list.get(1), Some(0));
    assert_eq!(list.get(2), Some(7));
    list.push_back(i32::MAX);
    list.push_back(i32::MIN);
    assert_eq!(list.get(0), Some(-3));
    assert_eq!(list.get(1), Some(0));
    assert_eq!(list.get(2), Some(7));
    assert_eq!(list.get(3), Some(i32::MAX));
    assert_eq!(list.get(4), Some(i32::MIN));
    assert_eq!(list.len(), 5);
}

#[test]
fn test_both_search_directions() {
    // Size 5: indices 0..=2 are found from the head, 3 and 4 from the tail.
    let mut list = List::new();
    (0..5).for_each(|i| list.push_back(10 * i as i32));
    assert_eq!(list.get(0), Some(0));
    assert_eq!(list.get(2), Some(20));
    assert_eq!(list.get(3), Some(30));
    assert_eq!(list.get(4), Some(40));
}

#[test]
fn test_duplicate_values() {
    let mut list = List::new();
    list.push_back(9);
    list.push_back(9);
    list.push_back(9);
    assert_eq!(list.len(), 3);
    assert_eq!(list.get(0), Some(9));
    assert_eq!(list.get(1), Some(9));
    assert_eq!(list.get(2), Some(9));
}
