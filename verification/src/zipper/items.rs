use vstd::multiset::Multiset;
use vstd::prelude::*;

use crate::lcrs::{Lcrs, lemma_concat, lemma_node_labels};
use crate::zipper::{
    Frame, FocusView, TreeView, delete_v, demote_v, flatten_v, insert_child_v, insert_next_v,
    insert_parent_v, insert_prev_v, join, lemma_cons, nest_v, promote_v, swap_next_v, swap_prev_v,
    to_forest, up,
};

verus! {

broadcast use vstd::seq_lib::lemma_multiset_commutative;

/// The labels of a forest, counted with multiplicity.
pub open spec fn items(t: Lcrs) -> Multiset<Seq<char>> {
    t.labels().to_multiset()
}

/// The labels of a sequence of trees.
pub open spec fn trees_labels(ts: Seq<TreeView>) -> Seq<Seq<char>>
    decreases ts.len(),
{
    if ts.len() == 0 {
        Seq::empty()
    } else {
        seq![ts[0].0] + ts[0].1.labels() + trees_labels(ts.drop_first())
    }
}

/// The labels that the ancestors of a focus hold beside the focus's level:
/// their own and those of their other children.
pub open spec fn frames_labels(ps: Seq<Frame>) -> Seq<Seq<char>>
    decreases ps.len(),
{
    if ps.len() == 0 {
        Seq::empty()
    } else {
        seq![ps[0].label] + trees_labels(ps[0].prev) + ps[0].next.labels() + frames_labels(
            ps.drop_first(),
        )
    }
}

/// All labels of a zipper, the focus's first.
pub open spec fn view_labels(v: FocusView) -> Seq<Seq<char>> {
    seq![v.label] + v.child.labels() + v.next.labels() + trees_labels(v.prev) + frames_labels(
        v.parents,
    )
}

proof fn lemma_join_items(left: Seq<TreeView>, right: Lcrs)
    ensures
        items(join(left, right)) =~= trees_labels(left).to_multiset().add(items(right)),
    decreases left.len(),
{
    if left.len() == 0 {
        assert(trees_labels(left) =~= Seq::<Seq<char>>::empty());
        assert(trees_labels(left) + right.labels() =~= right.labels());
    } else {
        let t = left[0];
        let node = Lcrs::node(t.0, t.1, right);
        lemma_join_items(left.drop_first(), node);
        lemma_node_labels(t.0, t.1, right);
        assert(trees_labels(left) =~= (seq![t.0] + t.1.labels()) + trees_labels(left.drop_first()));
    }
}

proof fn lemma_up_items(ps: Seq<Frame>, lvl: Lcrs)
    ensures
        items(up(ps, lvl)) =~= frames_labels(ps).to_multiset().add(items(lvl)),
    decreases ps.len(),
{
    if ps.len() == 0 {
        assert(frames_labels(ps) =~= Seq::<Seq<char>>::empty());
        assert(frames_labels(ps) + lvl.labels() =~= lvl.labels());
    } else {
        let f = ps[0];
        let node = Lcrs::node(f.label, lvl, f.next);
        let joined = join(f.prev, node);
        lemma_up_items(ps.drop_first(), joined);
        lemma_join_items(f.prev, node);
        lemma_node_labels(f.label, lvl, f.next);
        assert(frames_labels(ps) =~= seq![f.label] + trees_labels(f.prev) + f.next.labels()
            + frames_labels(ps.drop_first()));
    }
}

/// The labels of the forest of a zipper are the labels it holds.
pub proof fn lemma_view_items(v: FocusView)
    ensures
        items(to_forest(v)) =~= view_labels(v).to_multiset(),
{
    let node = Lcrs::node(v.label, v.child, v.next);
    lemma_node_labels(v.label, v.child, v.next);
    lemma_join_items(v.prev, node);
    lemma_up_items(v.parents, join(v.prev, node));
}

proof fn lemma_trees_cons(t: TreeView, ts: Seq<TreeView>)
    ensures
        trees_labels(seq![t] + ts) == seq![t.0] + t.1.labels() + trees_labels(ts),
{
    lemma_cons(t, ts);
}

proof fn lemma_frames_cons(f: Frame, ps: Seq<Frame>)
    ensures
        frames_labels(seq![f] + ps) == seq![f.label] + trees_labels(f.prev) + f.next.labels()
            + frames_labels(ps),
{
    lemma_cons(f, ps);
}

proof fn lemma_singleton_items(x: Seq<char>)
    ensures
        seq![x].to_multiset() =~= Multiset::singleton(x),
{
    broadcast use vstd::multiset::group_multiset_axioms;

    let e = Seq::<Seq<char>>::empty();
    vstd::seq_lib::to_multiset_len(e);
    vstd::multiset::lemma_multiset_empty_len(e.to_multiset());
    assert(seq![x] =~= e.push(x));
    vstd::seq_lib::to_multiset_build(e, x);
}

proof fn lemma_promote_items(v: FocusView)
    ensures
        view_labels(promote_v(v)).to_multiset() =~= view_labels(v).to_multiset(),
{
    if v.parents.len() > 0 {
        let p = v.parents[0];
        assert(v.parents == seq![p] + v.parents.drop_first());
        lemma_frames_cons(p, v.parents.drop_first());
        lemma_join_items(v.prev, v.next);
        lemma_node_labels(p.label, join(v.prev, v.next), p.next);
    }
}

proof fn lemma_demote_items(v: FocusView)
    ensures
        view_labels(demote_v(v)).to_multiset() =~= view_labels(v).to_multiset(),
{
    match v.next {
        Lcrs::Node(l, c, s) => {
            let f = Frame { prev: v.prev, next: *s, label: l };
            lemma_frames_cons(f, v.parents);
            lemma_node_labels(l, *c, *s);
            assert(trees_labels(Seq::<TreeView>::empty()) =~= Seq::<Seq<char>>::empty());
        },
        Lcrs::Empty => {},
    }
}

proof fn lemma_swap_items(v: FocusView)
    ensures
        view_labels(swap_prev_v(v)).to_multiset() =~= view_labels(v).to_multiset(),
        view_labels(swap_next_v(v)).to_multiset() =~= view_labels(v).to_multiset(),
{
    if v.prev.len() > 0 {
        let t = v.prev[0];
        assert(v.prev == seq![t] + v.prev.drop_first());
        lemma_trees_cons(t, v.prev.drop_first());
        lemma_node_labels(t.0, t.1, v.next);
    }
    match v.next {
        Lcrs::Node(l, c, s) => {
            lemma_trees_cons((l, *c), v.prev);
            lemma_node_labels(l, *c, *s);
        },
        Lcrs::Empty => {},
    }
}

proof fn lemma_nest_flatten_items(v: FocusView)
    ensures
        view_labels(nest_v(v)).to_multiset() =~= view_labels(v).to_multiset(),
        view_labels(flatten_v(v)).to_multiset() =~= view_labels(v).to_multiset(),
{
    lemma_concat(v.child, v.next);
    lemma_join_items(v.prev, v.child.concat(v.next));
    assert(Lcrs::Empty.labels() =~= Seq::<Seq<char>>::empty());
    assert(trees_labels(Seq::<TreeView>::empty()) =~= Seq::<Seq<char>>::empty());
}

/// Moving a subtree (promote, demote, swap with a sibling) and nesting or
/// flattening keep every item of the forest.
pub proof fn law_rearranging_keeps_items(v: FocusView)
    ensures
        items(to_forest(promote_v(v))) == items(to_forest(v)),
        items(to_forest(demote_v(v))) == items(to_forest(v)),
        items(to_forest(swap_prev_v(v))) == items(to_forest(v)),
        items(to_forest(swap_next_v(v))) == items(to_forest(v)),
        items(to_forest(nest_v(v))) == items(to_forest(v)),
        items(to_forest(flatten_v(v))) == items(to_forest(v)),
{
    lemma_view_items(v);
    lemma_view_items(promote_v(v));
    lemma_view_items(demote_v(v));
    lemma_view_items(swap_prev_v(v));
    lemma_view_items(swap_next_v(v));
    lemma_view_items(nest_v(v));
    lemma_view_items(flatten_v(v));
    lemma_promote_items(v);
    lemma_demote_items(v);
    lemma_swap_items(v);
    lemma_nest_flatten_items(v);
}

/// Each insertion adds exactly one item, with an empty label.
pub proof fn law_insert_adds_empty_item(v: FocusView)
    ensures
        items(to_forest(insert_parent_v(v))) == items(to_forest(v)).insert(Seq::empty()),
        items(to_forest(insert_child_v(v))) == items(to_forest(v)).insert(Seq::empty()),
        items(to_forest(insert_prev_v(v))) == items(to_forest(v)).insert(Seq::empty()),
        items(to_forest(insert_next_v(v))) == items(to_forest(v)).insert(Seq::empty()),
{
    broadcast use vstd::multiset::group_multiset_axioms;

    lemma_view_items(v);
    let empty_label = Seq::<char>::empty();
    assert(Lcrs::Empty.labels() =~= Seq::<Seq<char>>::empty());
    lemma_singleton_items(empty_label);
    assert(view_labels(v).to_multiset().insert(empty_label) =~= (seq![empty_label] + view_labels(
        v,
    )).to_multiset());
    let w = insert_parent_v(v);
    lemma_view_items(w);
    lemma_node_labels(v.label, v.child, Lcrs::Empty);
    assert(view_labels(w).to_multiset() =~= (seq![empty_label] + view_labels(v)).to_multiset());
    let w = insert_child_v(v);
    lemma_view_items(w);
    lemma_frames_cons(Frame { prev: v.prev, next: v.next, label: v.label }, v.parents);
    assert(trees_labels(Seq::<TreeView>::empty()) =~= Seq::<Seq<char>>::empty());
    assert(view_labels(w).to_multiset() =~= (seq![empty_label] + view_labels(v)).to_multiset());
    let w = insert_prev_v(v);
    lemma_view_items(w);
    lemma_node_labels(v.label, v.child, v.next);
    assert(view_labels(w).to_multiset() =~= (seq![empty_label] + view_labels(v)).to_multiset());
    let w = insert_next_v(v);
    lemma_view_items(w);
    lemma_trees_cons((v.label, v.child), v.prev);
    assert(view_labels(w).to_multiset() =~= (seq![empty_label] + view_labels(v)).to_multiset());
}

/// Deleting removes exactly the focused item (its children stay); deleting
/// the only item leaves nothing.
pub proof fn law_delete_removes_focus_item(v: FocusView)
    ensures
        delete_v(v) matches Some(w) ==> items(to_forest(w)) == items(to_forest(v)).remove(v.label),
        delete_v(v) is None ==> items(to_forest(v)) == Multiset::singleton(v.label),
{
    broadcast use vstd::multiset::group_multiset_axioms;

    lemma_view_items(v);
    lemma_singleton_items(v.label);
    let f = flatten_v(v);
    lemma_concat(v.child, v.next);
    assert(Lcrs::Empty.labels() =~= Seq::<Seq<char>>::empty());
    let rest = v.child.concat(v.next).labels() + trees_labels(v.prev) + frames_labels(v.parents);
    assert(view_labels(v).to_multiset() =~= (seq![v.label] + rest).to_multiset());
    assert((seq![v.label] + rest).to_multiset().remove(v.label) =~= rest.to_multiset());
    match f.next {
        Lcrs::Node(l, c, s) => {
            let w = delete_v(v)->Some_0;
            lemma_view_items(w);
            lemma_node_labels(l, *c, *s);
            assert(view_labels(w).to_multiset() =~= rest.to_multiset());
        },
        Lcrs::Empty => {
            if f.prev.len() > 0 {
                let w = delete_v(v)->Some_0;
                lemma_view_items(w);
                let t = f.prev[0];
                assert(f.prev == seq![t] + f.prev.drop_first());
                lemma_trees_cons(t, f.prev.drop_first());
                assert(view_labels(w).to_multiset() =~= rest.to_multiset());
            } else if f.parents.len() > 0 {
                let w = delete_v(v)->Some_0;
                lemma_view_items(w);
                let p = f.parents[0];
                assert(f.parents == seq![p] + f.parents.drop_first());
                lemma_frames_cons(p, f.parents.drop_first());
                assert(trees_labels(f.prev) =~= Seq::<Seq<char>>::empty());
                assert(view_labels(w).to_multiset() =~= rest.to_multiset());
            } else {
                assert(trees_labels(f.prev) =~= Seq::<Seq<char>>::empty());
                assert(frames_labels(f.parents) =~= Seq::<Seq<char>>::empty());
                assert(rest =~= Seq::<Seq<char>>::empty());
                assert(seq![v.label] + rest =~= seq![v.label]);
            }
        },
    }
}

/// Relabelling the focus replaces exactly its label among the items.
pub proof fn law_set_label_items(v: FocusView, label: Seq<char>)
    ensures
        items(to_forest(FocusView { label, ..v })) == items(to_forest(v)).remove(v.label).insert(
            label,
        ),
{
    broadcast use vstd::multiset::group_multiset_axioms;

    let w = FocusView { label, ..v };
    lemma_view_items(v);
    lemma_view_items(w);
    lemma_singleton_items(v.label);
    lemma_singleton_items(label);
    let rest = v.child.labels() + v.next.labels() + trees_labels(v.prev) + frames_labels(v.parents);
    assert(view_labels(v) =~= seq![v.label] + rest);
    assert(view_labels(w) =~= seq![label] + rest);
    assert(items(to_forest(w)) =~= items(to_forest(v)).remove(v.label).insert(label));
}

} // verus!
