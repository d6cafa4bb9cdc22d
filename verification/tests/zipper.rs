use elmlog::zipper::FocusNode;
use elmlog::zipper::iter::{NodePosition, focus_iter};

use NodePosition::{FirstChild, Root, SubsequentChild};

// The forest `a(b, c), d` with `d` focused.
fn sample() -> FocusNode {
    FocusNode::new()
        .set_label("a".to_string())
        .insert_child()
        .set_label("b".to_string())
        .insert_next()
        .set_label("c".to_string())
        .focus_parent()
        .insert_next()
        .set_label("d".to_string())
}

// Each node as (label, position, is last sibling, is focused), in pre-order.
fn render(focus: &FocusNode) -> Vec<(String, NodePosition, bool, bool)> {
    focus_iter(focus)
        .into_iter()
        .map(|n| (n.label.to_string(), n.position, n.is_last_sibling, n.is_focused))
        .collect()
}

fn row(label: &str, position: NodePosition, last: bool, focused: bool) -> (String, NodePosition, bool, bool) {
    (label.to_string(), position, last, focused)
}

// The labels in pre-order and the index of the focused node.
fn shape(focus: &FocusNode) -> (Vec<String>, usize) {
    let rows = render(focus);
    let index = rows.iter().position(|r| r.3).unwrap();
    (rows.into_iter().map(|r| r.0).collect(), index)
}

fn strings(labels: &[&str]) -> Vec<String> {
    labels.iter().map(|s| s.to_string()).collect()
}

#[test]
fn new_focus_node_is_single_empty_root() {
    let focus = FocusNode::new();
    assert_eq!(render(&focus), vec![row("", Root, true, true)]);
    assert_eq!(focus.clone_label(), "");
}

#[test]
fn iterate_sample_forest() {
    assert_eq!(
        render(&sample()),
        vec![
            row("a", Root, false, false),
            row("b", FirstChild, false, false),
            row("c", SubsequentChild, true, false),
            row("d", Root, true, true),
        ]
    );
}

#[test]
fn focus_moves_keep_forest() {
    let focus = sample().focus_prev();
    assert_eq!(shape(&focus), (strings(&["a", "b", "c", "d"]), 0));
    let focus = focus.focus_child();
    assert_eq!(shape(&focus), (strings(&["a", "b", "c", "d"]), 1));
    let focus = focus.focus_next();
    assert_eq!(shape(&focus), (strings(&["a", "b", "c", "d"]), 2));
    let focus = focus.focus_parent();
    assert_eq!(shape(&focus), (strings(&["a", "b", "c", "d"]), 0));
}

#[test]
fn focus_moves_stop_at_edges() {
    let focus = sample();
    assert!(focus.clone().focus_next().same_view(&focus));
    assert!(focus.clone().focus_child().same_view(&focus));
    assert!(focus.clone().focus_parent().same_view(&focus));
    let first = focus.focus_prev();
    assert!(first.clone().focus_prev().same_view(&first));
}

#[test]
fn promote_moves_subtree_before_parent() {
    let focus = sample().focus_prev().focus_child().focus_next().promote();
    assert_eq!(
        render(&focus),
        vec![
            row("c", Root, false, true),
            row("a", Root, false, false),
            row("b", FirstChild, true, false),
            row("d", Root, true, false),
        ]
    );
}

#[test]
fn demote_moves_subtree_into_next_sibling() {
    let focus = sample().focus_prev().demote();
    assert_eq!(
        render(&focus),
        vec![
            row("d", Root, true, false),
            row("a", FirstChild, true, true),
            row("b", FirstChild, false, false),
            row("c", SubsequentChild, true, false),
        ]
    );
}

#[test]
fn swap_with_siblings() {
    let focus = sample().swap_prev();
    assert_eq!(shape(&focus), (strings(&["d", "a", "b", "c"]), 0));
    let focus = focus.swap_next();
    assert_eq!(shape(&focus), (strings(&["a", "b", "c", "d"]), 3));
}

#[test]
fn nest_adopts_siblings() {
    let focus = sample().focus_prev().focus_child().nest();
    assert_eq!(
        render(&focus),
        vec![
            row("a", Root, false, false),
            row("b", FirstChild, true, true),
            row("c", FirstChild, true, false),
            row("d", Root, true, false),
        ]
    );
}

#[test]
fn flatten_lifts_children() {
    let focus = sample().focus_prev().flatten();
    assert_eq!(
        render(&focus),
        vec![
            row("a", Root, false, true),
            row("b", Root, false, false),
            row("c", Root, false, false),
            row("d", Root, true, false),
        ]
    );
}

#[test]
fn insert_parent_wraps_focus() {
    let focus = sample().focus_prev().focus_child().insert_parent();
    assert_eq!(
        render(&focus),
        vec![
            row("a", Root, false, false),
            row("", FirstChild, false, true),
            row("b", FirstChild, true, false),
            row("c", SubsequentChild, true, false),
            row("d", Root, true, false),
        ]
    );
}

#[test]
fn insert_child_comes_first() {
    let focus = sample().focus_prev().insert_child();
    assert_eq!(shape(&focus), (strings(&["a", "", "b", "c", "d"]), 1));
}

#[test]
fn insert_siblings() {
    let focus = sample().insert_prev();
    assert_eq!(shape(&focus), (strings(&["a", "b", "c", "", "d"]), 3));
    let focus = sample().insert_next();
    assert_eq!(shape(&focus), (strings(&["a", "b", "c", "d", ""]), 4));
}

#[test]
fn delete_focuses_neighbour() {
    // The next sibling takes the place of the deleted node, children first.
    let focus = sample().focus_prev().delete().unwrap();
    assert_eq!(shape(&focus), (strings(&["b", "c", "d"]), 0));
    // Without a next sibling, the previous sibling is focused.
    let focus = sample().delete().unwrap();
    assert_eq!(shape(&focus), (strings(&["a", "b", "c"]), 0));
    // Without siblings, the parent is focused.
    let focus = FocusNode::new().insert_child().delete().unwrap();
    assert_eq!(shape(&focus), (strings(&[""]), 0));
    // The last node leaves nothing.
    assert!(FocusNode::new().delete().is_none());
}

#[test]
fn set_and_clone_label() {
    let focus = sample().set_label("e".to_string());
    assert_eq!(focus.clone_label(), "e");
    assert_eq!(shape(&focus), (strings(&["a", "b", "c", "e"]), 3));
}

#[test]
fn moves_undo_each_other() {
    let focus = sample().focus_prev().focus_child();
    assert!(focus.clone().focus_next().focus_prev().same_view(&focus));
    assert!(focus.clone().focus_parent().focus_child().same_view(&focus));
    let focus = sample();
    assert!(focus.clone().swap_prev().swap_next().same_view(&focus));
    let focus = sample().focus_prev();
    assert!(focus.clone().demote().promote().same_view(&focus));
}

#[test]
fn delete_undoes_insert() {
    let focus = sample().focus_prev();
    assert!(focus.clone().insert_prev().delete().unwrap().same_view(&focus));
    assert!(focus.clone().insert_parent().delete().unwrap().same_view(&focus));
}
