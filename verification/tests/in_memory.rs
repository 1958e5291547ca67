use aicacia_db::in_memory::InMemoryNamedBTree;
use aicacia_db::key::{KeyBound, KeyRange};

fn k(x: u64) -> Vec<u8> {
    x.to_be_bytes().to_vec()
}

#[test]
fn get_tree_returns_shared_isolated_trees() {
    let mut provider = InMemoryNamedBTree::new();
    let first = provider.get_tree("first");
    let first_again = provider.get_tree("first");
    let second = provider.get_tree("second");

    first.insert(&mut provider, k(1), k(10));

    assert_eq!(first_again.get(&provider, &k(1)), Some(k(10)));
    assert_eq!(second.get(&provider, &k(1)), None);
}

#[test]
fn named_tree_transaction_is_scoped_to_one_tree() {
    let mut provider = InMemoryNamedBTree::new();
    let first = provider.get_tree("first");
    let second = provider.get_tree("second");
    let mut tx = first.transaction();

    tx.insert(k(1), k(10));
    tx.commit(&mut provider);

    assert_eq!(first.get(&provider, &k(1)), Some(k(10)));
    assert_eq!(second.get(&provider, &k(1)), None);
}

#[test]
fn trees_keep_entries_in_key_order() {
    let mut provider = InMemoryNamedBTree::new();
    let tree = provider.get_tree("t");
    for x in [5u64, 1, 9, 3, 7] {
        tree.insert(&mut provider, k(x), k(x * 10));
    }
    tree.insert(&mut provider, k(3), k(33));
    let all = tree.range(&provider, &KeyRange { start: KeyBound::Unbounded, end: KeyBound::Unbounded });
    let keys: Vec<Vec<u8>> = all.iter().map(|(key, _)| key.clone()).collect();
    assert_eq!(keys, vec![k(1), k(3), k(5), k(7), k(9)]);
    assert_eq!(all[1].1, k(33));
    let middle = tree.range(&provider, &KeyRange { start: KeyBound::Excluded(k(3)), end: KeyBound::Included(k(7)) });
    assert_eq!(middle, vec![(k(5), k(50)), (k(7), k(70))]);
    assert_eq!(tree.remove(&mut provider, &k(5)), Some(k(50)));
    assert_eq!(tree.remove(&mut provider, &k(5)), None);
    assert_eq!(tree.get(&provider, &k(5)), None);
}

#[test]
fn transactions_see_their_changes_until_commit() {
    let mut provider = InMemoryNamedBTree::new();
    let tree = provider.get_tree("t");
    tree.insert(&mut provider, k(1), k(1));
    tree.insert(&mut provider, k(2), k(2));

    let mut tx = tree.transaction();
    tx.insert(k(3), k(3));
    assert_eq!(tx.remove(&provider, &k(1)), Some(k(1)));
    assert_eq!(tx.remove(&provider, &k(1)), None);
    assert_eq!(tx.get(&provider, &k(1)), None);
    assert_eq!(tx.get(&provider, &k(3)), Some(k(3)));
    assert_eq!(tree.get(&provider, &k(1)), Some(k(1)));
    assert_eq!(tree.get(&provider, &k(3)), None);
    let seen = tx.range(&provider, &KeyRange { start: KeyBound::Unbounded, end: KeyBound::Unbounded });
    assert_eq!(seen, vec![(k(2), k(2)), (k(3), k(3))]);
    assert_eq!(tx.name(), "t");
    tx.commit(&mut provider);
    assert_eq!(tree.get(&provider, &k(1)), None);
    assert_eq!(tree.get(&provider, &k(3)), Some(k(3)));

    let mut dropped = tree.transaction();
    dropped.insert(k(9), k(9));
    dropped.rollback();
    assert_eq!(tree.get(&provider, &k(9)), None);
}

#[test]
fn trees_are_named_listed_copied_and_dropped() {
    let mut provider = InMemoryNamedBTree::new();
    let b = provider.get_tree("b");
    let _a = provider.get_tree("a");
    b.insert(&mut provider, k(1), k(2));
    assert_eq!(provider.list_names(), vec!["a".to_string(), "b".to_string()]);

    let copy = provider.tree_contents(&b);
    provider.insert_tree("c", copy);
    let c = provider.get_tree("c");
    assert_eq!(c.get(&provider, &k(1)), Some(k(2)));

    provider.delete_tree("b");
    assert_eq!(provider.list_names(), vec!["a".to_string(), "c".to_string()]);
    assert_eq!(b.get(&provider, &k(1)), None);
    assert_eq!(c.get(&provider, &k(1)), Some(k(2)));
}
