use elmlog::forest::{ForestZipper, Node, ReturnNode, Tree};

// Create a forest from a list of `trees`.
fn forest(mut trees: Vec<Tree>) -> Node {
    let mut root = Node::Empty;
    while let Some(tree) = trees.pop() {
        if let Tree::Root { label, child } = tree {
            root = Node::new(label, child, root);
        }
    }
    root
}

// Create a tree with root `label` and list of `children` subtrees.
fn tree(label: &str, children: Vec<Tree>) -> Tree {
    Tree::Root {
        label: label.to_string(),
        child: forest(children),
    }
}

// Create a single-node tree with root `label`.
fn leaf(label: &str) -> Tree {
    Tree::Root {
        label: label.to_string(),
        child: Node::Empty,
    }
}

fn forest_a() -> Node {
    forest(vec![
        leaf("0"),
        tree("1", vec![
            leaf("2"),
            leaf("3"),
        ]),
        leaf("4"),
    ])
}

fn forest_b() -> Node {
    forest(vec![
        tree("0", vec![
            tree("1", vec![
                leaf("2"),
                leaf("3"),
            ]),
            tree("4", vec![
                leaf("5"),
            ]),
        ]),
        leaf("6"),
    ])
}

fn labels(node: &Node) -> Vec<String> {
    let mut iter = node.iter();
    let mut out = Vec::new();
    while let Some((label, _)) = iter.next() {
        out.push(label.to_string());
    }
    out
}

#[test]
fn focus_empty_forest() {
    let result_0 = Node::Empty.focus_node(0);
    let result_1 = Node::Empty.focus_node(1);
    let empty_zipper = ForestZipper {
        focus: Node::Empty,
        prev: ReturnNode::Empty,
    };
    assert_eq!(result_0, empty_zipper);
    assert_eq!(result_1, empty_zipper);
    assert_eq!(empty_zipper.restore(), Node::Empty);
}

#[test]
fn focus_and_restore_forest() {
    let forest_a_value = forest_a();
    let zipper = forest_a_value.clone().focus_node(1);
    let focus = forest(vec![
        tree("1", vec![
            leaf("2"),
            leaf("3"),
        ]),
        leaf("4"),
    ]);
    assert_eq!(zipper.focus, focus);
    assert_eq!(zipper.restore(), forest_a_value);

    let zipper = forest_a_value.clone().focus_node(2);
    let focus = forest(vec![
        leaf("2"),
        leaf("3"),
    ]);
    assert_eq!(zipper.focus, focus);
    assert_eq!(zipper.restore(), forest_a_value);
}

#[test]
fn restore_forest_invalid_focus() {
    let forest_a_value = forest_a();
    let zipper = forest_a_value.clone().focus_node(9);
    assert_eq!(zipper.focus, Node::Empty);
    assert_eq!(zipper.restore(), forest_a_value);
}

#[test]
fn test_raise() {
    let (result, index) = forest_a().raise(0);
    let (result2, index2) = result.clone().raise(index);
    let expected = forest(vec![
        tree("0", vec![
            tree("1", vec![
                leaf("2"),
                leaf("3"),
            ]),
            leaf("4"),
        ]),
    ]);
    assert_eq!(result, expected);
    assert_eq!(result2, expected);
    assert_eq!(index, 0);
    assert_eq!(index2, 0);

    let (result, index) = forest_a().raise(3);
    let (result2, index2) = result.clone().raise(index);
    let expected = forest(vec![
        leaf("0"),
        tree("1", vec![
            tree("3", vec![
                leaf("2"),
            ]),
        ]),
        leaf("4"),
    ]);
    assert_eq!(result, expected);
    assert_eq!(result2, expected);
    assert_eq!(index, 2);
    assert_eq!(index2, 2);
}

#[test]
fn test_flatten() {
    let (result, index) = forest_b().flatten(0);
    let (result2, index2) = result.clone().flatten(index);
    let expected = forest(vec![
        leaf("0"),
        tree("1", vec![
            leaf("2"),
            leaf("3"),
        ]),
        tree("4", vec![
            leaf("5"),
        ]),
        leaf("6"),
    ]);
    assert_eq!(result, expected);
    assert_eq!(result2, expected);
    assert_eq!(index, 0);
    assert_eq!(index2, 0);

    let (result, index) = forest_b().flatten(1);
    let (result2, index2) = result.clone().flatten(index);
    let expected = forest(vec![
        tree("0", vec![
            leaf("1"),
            leaf("2"),
            leaf("3"),
            tree("4", vec![
                leaf("5"),
            ]),
        ]),
        leaf("6"),
    ]);
    assert_eq!(result, expected);
    assert_eq!(result2, expected);
    assert_eq!(index, 1);
    assert_eq!(index2, 1);
}

#[test]
fn test_insert_parent() {
    let (result, index) = forest_a().insert_parent(0, "x".to_string());
    let expected = forest(vec![
        tree("x", vec![
            leaf("0"),
        ]),
        tree("1", vec![
            leaf("2"),
            leaf("3"),
        ]),
        leaf("4"),
    ]);
    assert_eq!(result, expected);
    assert_eq!(index, 0);

    let (result, index) = forest_a().insert_parent(3, "x".to_string());
    let expected = forest(vec![
        leaf("0"),
        tree("1", vec![
            leaf("2"),
            tree("x", vec![
                leaf("3"),
            ]),
        ]),
        leaf("4"),
    ]);
    assert_eq!(result, expected);
    assert_eq!(index, 3);
}

#[test]
fn forest_size_and_find_label() {
    let f = forest_a();
    assert_eq!(f.size(), 5);
    assert_eq!(f.find_label(0), "0");
    assert_eq!(f.find_label(3), "3");
    assert_eq!(f.find_label(4), "4");
    assert_eq!(labels(&f), vec!["0", "1", "2", "3", "4"]);
}

#[test]
fn forest_set_label_and_prepend() {
    let f = forest_a().set_label(2, "two".to_string());
    assert_eq!(labels(&f), vec!["0", "1", "two", "3", "4"]);
    let f = f.set_label(7, "none".to_string());
    assert_eq!(labels(&f), vec!["0", "1", "two", "3", "4"]);
    let f = f.prepend("p".to_string());
    assert_eq!(labels(&f), vec!["p", "0", "1", "two", "3", "4"]);
    assert_eq!(f.size(), 6);
}

#[test]
fn forest_delete_lifts_children() {
    let f = forest_a().delete(1);
    let expected = forest(vec![leaf("0"), leaf("2"), leaf("3"), leaf("4")]);
    assert_eq!(f, expected);
    assert_eq!(forest_a().delete(10), forest_a());
}

#[test]
fn forest_move_forward_and_backward() {
    let (result, index) = forest_a().move_forward(0);
    let expected = forest(vec![
        tree("1", vec![leaf("2"), leaf("3")]),
        leaf("0"),
        leaf("4"),
    ]);
    assert_eq!(result, expected);
    assert_eq!(index, 3);
    let (back, index) = result.move_backward(index);
    assert_eq!(back, forest_a());
    assert_eq!(index, 0);
    // The last sibling stays put.
    let (same, index) = forest_a().move_forward(4);
    assert_eq!(same, forest_a());
    assert_eq!(index, 4);
    // An invalid index changes nothing and returns the size.
    let (same, index) = forest_a().move_backward(12);
    assert_eq!(same, forest_a());
    assert_eq!(index, 5);
}

#[test]
fn forest_promote_and_demote() {
    let (result, index) = forest_a().promote(3);
    let expected = forest(vec![
        leaf("0"),
        tree("1", vec![leaf("2")]),
        leaf("3"),
        leaf("4"),
    ]);
    assert_eq!(result, expected);
    assert_eq!(index, 3);
    // A root is moved to the start of the forest.
    let (result, index) = forest_a().promote(4);
    let expected = forest(vec![
        leaf("4"),
        leaf("0"),
        tree("1", vec![leaf("2"), leaf("3")]),
    ]);
    assert_eq!(result, expected);
    assert_eq!(index, 0);
    // Demote makes the node the last child of its previous sibling.
    let (result, index) = forest_a().demote(4);
    let expected = forest(vec![
        leaf("0"),
        tree("1", vec![leaf("2"), leaf("3"), leaf("4")]),
    ]);
    assert_eq!(result, expected);
    assert_eq!(index, 4);
    let (back, index) = result.promote(index);
    assert_eq!(back, forest_a());
    assert_eq!(index, 4);
}
