use dist_system::nodes::counter::Contribution;
use dist_system::utils::await_event::ExpectedMessages;
use dist_system::utils::merge_messages;
use std::collections::BTreeSet;

fn as_set(v: &Vec<usize>) -> BTreeSet<usize> {
    v.iter().copied().collect()
}

#[test]
fn merge_keeps_first_then_adds_new() {
    assert_eq!(merge_messages(vec![1usize, 2], vec![2, 3]), vec![1, 2, 3]);
    assert_eq!(merge_messages(vec![3usize, 1], vec![2, 1, 4]), vec![3, 1, 2, 4]);
}

#[test]
fn merge_with_empty() {
    assert_eq!(merge_messages(Vec::<usize>::new(), Vec::new()), Vec::<usize>::new());
    assert_eq!(merge_messages(vec![5usize, 6], Vec::new()), vec![5, 6]);
    assert_eq!(merge_messages(Vec::new(), vec![5usize, 6]), vec![5, 6]);
}

#[test]
fn merge_drops_repetition_within_one_side() {
    assert_eq!(merge_messages(vec![1usize, 1, 2, 1], vec![2, 2, 3, 3]), vec![1, 2, 3]);
}

#[test]
fn merge_is_commutative_as_sets() {
    let a = vec![4usize, 8, 15];
    let b = vec![16usize, 8, 23, 42];
    let ab = merge_messages(a.clone(), b.clone());
    let ba = merge_messages(b, a);
    assert_eq!(ab, vec![4, 8, 15, 16, 23, 42]);
    assert_eq!(ba, vec![16, 8, 23, 42, 4, 15]);
    assert_eq!(as_set(&ab), as_set(&ba));
}

#[test]
fn merge_is_idempotent() {
    let a = vec![7usize, 3, 9];
    assert_eq!(merge_messages(a.clone(), a.clone()), a);
}

#[test]
fn merge_is_associative() {
    let a = vec![1usize, 2];
    let b = vec![2usize, 3];
    let c = vec![3usize, 4, 1];
    let left = merge_messages(merge_messages(a.clone(), b.clone()), c.clone());
    let right = merge_messages(a, merge_messages(b, c));
    assert_eq!(left, vec![1, 2, 3, 4]);
    assert_eq!(left, right);
}

#[test]
fn merging_again_changes_nothing() {
    let a = vec![1usize, 2];
    let b = vec![9usize, 2, 8];
    let once = merge_messages(a, b.clone());
    let twice = merge_messages(once.clone(), b);
    assert_eq!(once, twice);
}

#[test]
fn merge_of_entries_compares_amount_and_token() {
    let e = |delta: usize, uuid: &str| Contribution { delta, uuid: uuid.to_string() };
    let merged = merge_messages(vec![e(1, "a"), e(2, "b")], vec![e(2, "b"), e(1, "b"), e(2, "a")]);
    assert_eq!(merged, vec![e(1, "a"), e(2, "b"), e(1, "b"), e(2, "a")]);
}

#[test]
fn merge_of_strings() {
    let merged = merge_messages(
        vec!["n1".to_string(), "n2".to_string()],
        vec!["n2".to_string(), "n3".to_string()],
    );
    assert_eq!(merged, vec!["n1", "n2", "n3"]);
}

#[test]
fn expected_messages_start_empty() {
    let e = ExpectedMessages::default();
    assert!(!e.changed);
    assert!(e.msg_id.is_empty());
    assert!(e.responses.is_empty());
}
