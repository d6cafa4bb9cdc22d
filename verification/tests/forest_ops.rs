use elmlog::forest::ops::ForestOp;
use elmlog::forest::{Node, NodeType};

fn items(node: &Node) -> Vec<(String, NodeType)> {
    let mut iter = node.iter();
    let mut out = Vec::new();
    while let Some((label, pos)) = iter.next() {
        out.push((label.to_string(), pos.node_type));
    }
    out
}

fn item(label: &str, node_type: NodeType) -> (String, NodeType) {
    (label.to_string(), node_type)
}

// a, b(c), d
fn sample() -> Node {
    Node::Empty.apply_all(vec![
        ForestOp::Prepend("d".to_string()),
        ForestOp::Prepend("c".to_string()),
        ForestOp::Prepend("b".to_string()),
        ForestOp::Demote(1),
        ForestOp::Prepend("a".to_string()),
    ])
}

#[test]
fn apply_all_builds_forest() {
    let forest = sample();
    assert_eq!(
        items(&forest),
        vec![
            item("a", NodeType::Root),
            item("b", NodeType::Root),
            item("c", NodeType::Child),
            item("d", NodeType::Root),
        ]
    );
    assert_eq!(forest.size(), items(&forest).len());
}

#[test]
fn size_counts_items_after_any_operations() {
    let forest = sample().apply_all(vec![
        ForestOp::Raise(1),
        ForestOp::InsertParent(2, "p".to_string()),
        ForestOp::Delete(0),
        ForestOp::SetLabel(0, "x".to_string()),
        ForestOp::Flatten(0),
        ForestOp::MoveForward(9),
    ]);
    assert_eq!(forest.size(), items(&forest).len());
    let emptied = Node::Empty
        .apply(ForestOp::Prepend("a".to_string()))
        .apply(ForestOp::Delete(0));
    assert_eq!(emptied, Node::Empty);
    assert_eq!(emptied.size(), 0);
}

#[test]
fn raise_adopts_previous_children_and_next() {
    let (forest, index) = sample().raise(1);
    assert_eq!(index, 0);
    assert_eq!(
        items(&forest),
        vec![
            item("b", NodeType::Root),
            item("a", NodeType::Child),
            item("c", NodeType::Sibling),
            item("d", NodeType::Sibling),
        ]
    );
}
