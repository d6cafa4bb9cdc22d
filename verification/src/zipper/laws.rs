use vstd::prelude::*;

use crate::lcrs::{Lcrs, lemma_concat_empty};
use crate::zipper::{
    Frame, FocusView, TreeView, delete_v, demote_v, flatten_v, focus_child_v, focus_next_v,
    focus_parent_v, focus_prev_v, insert_child_v, insert_next_v, insert_parent_v,
    insert_prev_v, join, level, promote_v, swap_next_v, swap_prev_v, to_forest, up, lemma_cons,
};

verus! {

proof fn lemma_join_cons(a: TreeView, s: Seq<TreeView>, r: Lcrs)
    ensures
        join(seq![a] + s, r) == join(s, Lcrs::node(a.0, a.1, r)),
{
    lemma_cons(a, s);
}

proof fn lemma_up_cons(f: Frame, ps: Seq<Frame>, lvl: Lcrs)
    ensures
        up(seq![f] + ps, lvl) == up(ps, join(f.prev, Lcrs::node(f.label, lvl, f.next))),
{
    lemma_cons(f, ps);
}

/// Moving the focus to the parent keeps the forest.
pub proof fn law_focus_parent_keeps_forest(v: FocusView)
    ensures
        to_forest(focus_parent_v(v)) == to_forest(v),
{
    if v.parents.len() > 0 {
        assert(v.parents =~= seq![v.parents[0]] + v.parents.drop_first());
        lemma_up_cons(v.parents[0], v.parents.drop_first(), level(v));
    }
}

/// Moving the focus to the first child keeps the forest.
pub proof fn law_focus_child_keeps_forest(v: FocusView)
    ensures
        to_forest(focus_child_v(v)) == to_forest(v),
{
    match v.child {
        Lcrs::Node(l, c, s) => {
            let f = Frame { prev: v.prev, next: v.next, label: v.label };
            lemma_up_cons(f, v.parents, v.child);
            assert(join(Seq::<TreeView>::empty(), Lcrs::node(l, *c, *s)) == v.child);
        },
        Lcrs::Empty => {},
    }
}

/// Moving the focus to the previous sibling keeps the forest.
pub proof fn law_focus_prev_keeps_forest(v: FocusView)
    ensures
        to_forest(focus_prev_v(v)) == to_forest(v),
{
    if v.prev.len() > 0 {
        assert(v.prev =~= seq![v.prev[0]] + v.prev.drop_first());
        lemma_join_cons(v.prev[0], v.prev.drop_first(), Lcrs::node(v.label, v.child, v.next));
    }
}

/// Moving the focus to the next sibling keeps the forest.
pub proof fn law_focus_next_keeps_forest(v: FocusView)
    ensures
        to_forest(focus_next_v(v)) == to_forest(v),
{
    match v.next {
        Lcrs::Node(l, c, s) => {
            lemma_join_cons((v.label, v.child), v.prev, Lcrs::node(l, *c, *s));
        },
        Lcrs::Empty => {},
    }
}

/// Going to the first child and back to the parent returns to the start.
pub proof fn law_focus_parent_undoes_focus_child(v: FocusView)
    requires
        v.child is Node,
    ensures
        focus_parent_v(focus_child_v(v)) == v,
{
    let f = Frame { prev: v.prev, next: v.next, label: v.label };
    lemma_cons(f, v.parents);
    assert(join(Seq::<TreeView>::empty(), v.child) == v.child);
}

/// Going to the next sibling and back returns to the start.
pub proof fn law_focus_prev_undoes_focus_next(v: FocusView)
    requires
        v.next is Node,
    ensures
        focus_prev_v(focus_next_v(v)) == v,
{
    lemma_cons((v.label, v.child), v.prev);
}

/// Going to the previous sibling and back returns to the start.
pub proof fn law_focus_next_undoes_focus_prev(v: FocusView)
    requires
        v.prev.len() > 0,
    ensures
        focus_next_v(focus_prev_v(v)) == v,
{
    assert(seq![v.prev[0]] + v.prev.drop_first() =~= v.prev);
}

/// Swapping with the next sibling and then with the previous one restores
/// the zipper.
pub proof fn law_swap_prev_undoes_swap_next(v: FocusView)
    requires
        v.next is Node,
    ensures
        swap_prev_v(swap_next_v(v)) == v,
{
    match v.next {
        Lcrs::Node(l, c, s) => {
            lemma_cons((l, *c), v.prev);
        },
        Lcrs::Empty => {},
    }
}

/// Swapping with the previous sibling and then with the next one restores
/// the zipper.
pub proof fn law_swap_next_undoes_swap_prev(v: FocusView)
    requires
        v.prev.len() > 0,
    ensures
        swap_next_v(swap_prev_v(v)) == v,
{
    assert(seq![v.prev[0]] + v.prev.drop_first() =~= v.prev);
}

/// Promoting a node right after demoting it restores the zipper.
pub proof fn law_promote_undoes_demote(v: FocusView)
    requires
        v.next is Node,
    ensures
        promote_v(demote_v(v)) == v,
{
    match v.next {
        Lcrs::Node(l, c, s) => {
            let f = Frame { prev: v.prev, next: *s, label: l };
            lemma_cons(f, v.parents);
            assert(join(Seq::<TreeView>::empty(), *c) == *c);
        },
        Lcrs::Empty => {},
    }
}

/// Deleting the node that `insert_prev` inserted restores the zipper.
pub proof fn law_delete_undoes_insert_prev(v: FocusView)
    ensures
        delete_v(insert_prev_v(v)) == Some(v),
{
    let w = insert_prev_v(v);
    assert(Lcrs::Empty.concat(w.next) == w.next);
}

/// Deleting the node that `insert_parent` inserted restores the zipper.
pub proof fn law_delete_undoes_insert_parent(v: FocusView)
    ensures
        delete_v(insert_parent_v(v)) == Some(v),
{
    let w = insert_parent_v(v);
    assert(Lcrs::Empty.concat(v.next) == v.next);
    assert(w.child.concat(w.next) == Lcrs::node(v.label, v.child, v.next));
}

/// Deleting the node that `insert_next` inserted restores the forest.
pub proof fn law_delete_undoes_insert_next(v: FocusView)
    ensures
        delete_v(insert_next_v(v)) is Some,
        to_forest(delete_v(insert_next_v(v))->Some_0) == to_forest(v),
{
    let w = insert_next_v(v);
    assert(Lcrs::Empty.concat(w.next) == w.next);
    lemma_cons((v.label, v.child), v.prev);
    match v.next {
        Lcrs::Node(l, c, s) => {
            lemma_join_cons((v.label, v.child), v.prev, v.next);
        },
        Lcrs::Empty => {},
    }
}

/// Deleting the node that `insert_child` inserted restores the forest.
pub proof fn law_delete_undoes_insert_child(v: FocusView)
    ensures
        delete_v(insert_child_v(v)) is Some,
        to_forest(delete_v(insert_child_v(v))->Some_0) == to_forest(v),
{
    let w = insert_child_v(v);
    let f = Frame { prev: v.prev, next: v.next, label: v.label };
    lemma_cons(f, v.parents);
    lemma_concat_empty(v.child);
    lemma_up_cons(f, v.parents, v.child);
    match v.child {
        Lcrs::Node(l, c, s) => {
            assert(join(Seq::<TreeView>::empty(), v.child) == v.child);
        },
        Lcrs::Empty => {},
    }
}

} // verus!
