use elmlog::heap::{Heap, HeapStatus, NodePosition, NodeType};
use elmlog::model::heap::{Heap as LabelHeap, HeapStatus as LabelHeapStatus};

// The roots `a`, `b`, `c`.
fn three_roots() -> Heap {
    Heap::Empty
        .prepend("c".to_string())
        .prepend("b".to_string())
        .prepend("a".to_string())
}

fn items(heap: &Heap) -> Vec<(String, NodeType, bool)> {
    let mut iter = heap.iter();
    let mut out = Vec::new();
    while let Some((label, NodePosition { node_type, is_last })) = iter.next() {
        out.push((label.to_string(), node_type, is_last));
    }
    out
}

fn item(label: &str, node_type: NodeType, is_last: bool) -> (String, NodeType, bool) {
    (label.to_string(), node_type, is_last)
}

#[test]
fn prepend_adds_roots_in_front() {
    let heap = three_roots();
    assert_eq!(heap.size(), 3);
    assert_eq!(heap.root_count(), 3);
    assert_eq!(
        items(&heap),
        vec![
            item("a", NodeType::Root, false),
            item("b", NodeType::Root, false),
            item("c", NodeType::Root, true),
        ]
    );
}

#[test]
fn merge_pair_promoting_first() {
    let heap = three_roots().merge_pair(true);
    assert_eq!(heap.size(), 3);
    assert_eq!(heap.root_count(), 2);
    assert_eq!(
        items(&heap),
        vec![
            item("c", NodeType::Root, false),
            item("a", NodeType::Root, true),
            item("b", NodeType::Child, true),
        ]
    );
}

#[test]
fn merge_pair_promoting_second() {
    let heap = three_roots().merge_pair(false);
    assert_eq!(
        items(&heap),
        vec![
            item("c", NodeType::Root, false),
            item("b", NodeType::Root, true),
            item("a", NodeType::Child, true),
        ]
    );
}

#[test]
fn merge_pair_puts_new_child_first() {
    // c, a(b) -> merge promoting a: a(c, b)
    let heap = three_roots().merge_pair(true).merge_pair(false);
    assert_eq!(
        items(&heap),
        vec![
            item("a", NodeType::Root, true),
            item("c", NodeType::Child, false),
            item("b", NodeType::Sibling, true),
        ]
    );
    assert_eq!(heap.root_count(), 1);
}

#[test]
fn merge_pair_needs_two_roots() {
    let single = Heap::Empty.prepend("x".to_string());
    assert_eq!(single.merge_pair(true), Heap::Empty.prepend("x".to_string()));
    assert_eq!(Heap::Empty.merge_pair(false), Heap::Empty);
}

#[test]
fn status_counts_roots() {
    assert!(matches!(Heap::Empty.status(), HeapStatus::Empty));
    assert!(matches!(three_roots().status(), HeapStatus::MultiRoot));
    let heap = three_roots().merge_pair(true).merge_pair(true);
    match heap.status() {
        HeapStatus::SingleRoot(label) => assert_eq!(label, "c"),
        _ => panic!("expected a single root"),
    }
}

#[test]
fn delete_lifts_children() {
    // c, a(b): deleting `a` leaves its child in its place.
    let heap = three_roots().merge_pair(true);
    let deleted = heap.delete(1);
    assert_eq!(
        items(&deleted),
        vec![item("c", NodeType::Root, false), item("b", NodeType::Root, true)]
    );
    assert_eq!(deleted.size(), 2);
}

#[test]
fn delete_first_and_out_of_range() {
    let heap = three_roots().delete(0);
    assert_eq!(
        items(&heap),
        vec![item("b", NodeType::Root, false), item("c", NodeType::Root, true)]
    );
    assert_eq!(heap.delete(7), Heap::Empty.prepend("c".to_string()).prepend("b".to_string()));
}

#[test]
fn iterated_labels_cover_every_node() {
    let heap = three_roots().merge_pair(true).merge_pair(false).prepend("d".to_string());
    let labels: Vec<String> = items(&heap).into_iter().map(|i| i.0).collect();
    assert_eq!(labels, vec!["d", "a", "c", "b"]);
    assert_eq!(labels.len(), heap.size());
}

fn label_heap() -> LabelHeap {
    LabelHeap::Empty
        .prepend("c".to_string())
        .prepend("b".to_string())
        .prepend("a".to_string())
}

fn labels(heap: &LabelHeap) -> Vec<String> {
    let mut iter = heap.iter();
    let mut out = Vec::new();
    while let Some(label) = iter.next() {
        out.push(label.to_string());
    }
    out
}

#[test]
fn label_heap_prepend_delete_status() {
    let heap = label_heap();
    assert_eq!(heap.size(), 3);
    assert_eq!(labels(&heap), vec!["a", "b", "c"]);
    assert!(matches!(heap.status(), LabelHeapStatus::MultiRoot));
    let heap = heap.delete(1);
    assert_eq!(labels(&heap), vec!["a", "c"]);
    let heap = heap.delete(0).delete(0);
    assert_eq!(heap, LabelHeap::Empty);
    assert!(matches!(heap.status(), LabelHeapStatus::Empty));
    match LabelHeap::Empty.prepend("z".to_string()).status() {
        LabelHeapStatus::SingleRoot(label) => assert_eq!(label, "z"),
        _ => panic!("expected a single root"),
    }
}
