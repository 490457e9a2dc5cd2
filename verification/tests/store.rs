use dialogue_tree::node::AnswerAndFollowUp;
use dialogue_tree::store::TreeStore;

#[test]
fn new_item_has_label_and_no_prompt() {
    let item = AnswerAndFollowUp::new("Paris");
    assert_eq!(item.answer, Some("Paris".to_string()));
    assert_eq!(item.question, None);
}

#[test]
fn new_item_keeps_an_empty_label() {
    let item = AnswerAndFollowUp::new("");
    assert_eq!(item.answer, Some(String::new()));
    assert_eq!(item.question, None);
}

#[test]
fn unlabelled_item_is_blank() {
    let item = AnswerAndFollowUp::unlabelled();
    assert_eq!(item.answer, None);
    assert_eq!(item.question, None);
}

#[test]
fn created_node_is_blank() {
    let mut store = TreeStore::new();
    let node = store.create_node();
    assert!(store.contains(node));
    assert_eq!(store.label_of(node), None);
    assert_eq!(store.prompt_of(node), None);
    assert!(store.children_of(node).is_empty());
}

#[test]
fn created_nodes_are_distinct() {
    let mut store = TreeStore::new();
    let first = store.create_node();
    let second = store.create_node();
    assert_ne!(first, second);
    assert!(store.contains(first));
    assert!(store.contains(second));
}

#[test]
fn empty_store_holds_nothing() {
    let mut other = TreeStore::new();
    let foreign = other.create_node();
    let store = TreeStore::new();
    assert!(!store.contains(foreign));
}

#[test]
fn smaller_store_does_not_hold_later_node() {
    let mut large = TreeStore::new();
    let root = large.create_node();
    let child = large.append_child(root, "x");
    let mut small = TreeStore::new();
    let _ = small.create_node();
    assert!(!small.contains(child));
}

#[test]
fn appended_children_keep_their_order() {
    let mut store = TreeStore::new();
    let root = store.create_node();
    let a = store.append_child(root, "first");
    let b = store.append_child(root, "second");
    let c = store.append_child(root, "third");
    assert_eq!(store.children_of(root), vec![a, b, c]);
    assert_eq!(store.label_of(a), Some("first".to_string()));
    assert_eq!(store.label_of(b), Some("second".to_string()));
    assert_eq!(store.label_of(c), Some("third".to_string()));
}

#[test]
fn appended_child_is_a_leaf_without_prompt() {
    let mut store = TreeStore::new();
    let root = store.create_node();
    let child = store.append_child(root, "only");
    assert!(store.contains(child));
    assert_ne!(child, root);
    assert_eq!(store.prompt_of(child), None);
    assert!(store.children_of(child).is_empty());
    assert_eq!(store.label_of(root), None);
}

#[test]
fn append_leaves_other_nodes_alone() {
    let mut store = TreeStore::new();
    let root = store.create_node();
    let a = store.append_child(root, "a");
    store.set_prompt(a, "A?");
    let b = store.append_child(root, "b");
    let below = store.append_child(a, "below");
    assert_eq!(store.children_of(root), vec![a, b]);
    assert_eq!(store.children_of(a), vec![below]);
    assert!(store.children_of(b).is_empty());
    assert_eq!(store.prompt_of(a), Some("A?".to_string()));
    assert_eq!(store.label_of(a), Some("a".to_string()));
    assert_eq!(store.label_of(b), Some("b".to_string()));
}

#[test]
fn set_prompt_sets_only_the_prompt() {
    let mut store = TreeStore::new();
    let root = store.create_node();
    let child = store.append_child(root, "go");
    store.set_prompt(child, "Where?");
    assert_eq!(store.prompt_of(child), Some("Where?".to_string()));
    assert_eq!(store.label_of(child), Some("go".to_string()));
    assert!(store.children_of(child).is_empty());
    assert_eq!(store.prompt_of(root), None);
    assert_eq!(store.children_of(root), vec![child]);
}

#[test]
fn set_prompt_twice_keeps_the_last() {
    let mut store = TreeStore::new();
    let root = store.create_node();
    store.set_prompt(root, "one");
    store.set_prompt(root, "one");
    assert_eq!(store.prompt_of(root), Some("one".to_string()));
    store.set_prompt(root, "two");
    assert_eq!(store.prompt_of(root), Some("two".to_string()));
}
