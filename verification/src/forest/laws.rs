use vstd::prelude::*;

use crate::forest::{
    along_siblings, promote_up, restored, restored_with_index, focus_index, up_siblings,
    zip_delete, zip_demote, zip_flatten, zip_insert_parent, zip_move_backward,
    zip_move_forward, zip_promote, zip_raise, zip_set_label, lemma_along_siblings,
    lemma_up_siblings,
};
use crate::lcrs::{
    Lcrs, Step, Zip, before, after, focus_at, plug, lemma_concat, lemma_concat_empty,
    lemma_focus_at, lemma_focus_label, lemma_node_labels, lemma_labels_plug, lemma_plug_push, lemma_refocus,
};

use crate::zipper::roots;

verus! {

broadcast use vstd::seq_lib::lemma_multiset_commutative;

/// What every move operation promises for the forest `t` and index `i`:
/// with a node at `i`, the result holds the same labels (as a multiset) and
/// the returned index is that of the moved node; otherwise nothing changes
/// and the returned index is the size of the forest.
pub open spec fn rearranges(t: Lcrs, i: nat, r: (Lcrs, nat)) -> bool {
    if i < t.size() {
        &&& r.0.labels().to_multiset() == t.labels().to_multiset()
        &&& r.1 < r.0.labels().len()
        &&& r.0.labels()[r.1 as int] == t.labels()[i as int]
    } else {
        r == (t, t.size())
    }
}

/// Focusing on any index and restoring the zipper gives back the forest.
pub proof fn law_restore_after_focus(t: Lcrs, i: nat)
    ensures
        restored(focus_at(t, i)) == t,
{
    lemma_focus_at(t, i);
}

/// Restoring a zipper whose focus is a node and focusing on the index that
/// restoring returns gives back the same zipper.
pub proof fn law_focus_after_restore(z: Zip)
    requires
        z.focus is Node,
    ensures
        focus_at(restored(z), focus_index(z)) == z,
{
    lemma_refocus(Seq::empty(), z.path, z.focus);
    assert(Seq::<Step>::empty() + z.path =~= z.path);
}

/// Setting the label at index `i` replaces exactly that label in pre-order
/// (and changes nothing when there is no node at `i`).
pub proof fn law_set_label(t: Lcrs, i: nat, label: Seq<char>)
    ensures
        restored(zip_set_label(focus_at(t, i), label)).labels() == if i < t.size() {
            t.labels().update(i as int, label)
        } else {
            t.labels()
        },
{
    lemma_focus_at(t, i);
    let z = focus_at(t, i);
    if i < t.size() {
        let z2 = zip_set_label(z, label);
        lemma_labels_plug(z.path, z.focus);
        lemma_labels_plug(z2.path, z2.focus);
        assert(restored(z2).labels() =~= t.labels().update(i as int, label));
    }
}

/// Deleting the node at index `i` removes exactly its label from the
/// pre-order sequence; its children take its place (and nothing changes
/// when there is no node at `i`).
pub proof fn law_delete(t: Lcrs, i: nat)
    ensures
        restored(zip_delete(focus_at(t, i))).labels() == if i < t.size() {
            t.labels().remove(i as int)
        } else {
            t.labels()
        },
{
    lemma_focus_at(t, i);
    let z = focus_at(t, i);
    if i < t.size() {
        let z2 = zip_delete(z);
        lemma_labels_plug(z.path, z.focus);
        lemma_labels_plug(z2.path, z2.focus);
        match z.focus {
            Lcrs::Node(_, c, s) => {
                lemma_concat(*c, *s);
            },
            Lcrs::Empty => {},
        }
        assert(restored(z2).labels() =~= t.labels().remove(i as int));
    }
}

/// Inserting a parent labelled `label` above the node at index `i` puts
/// `label` at index `i` in pre-order and returns `i`.
pub proof fn law_insert_parent(t: Lcrs, i: nat, label: Seq<char>)
    ensures
        restored_with_index(zip_insert_parent(focus_at(t, i), label)) == if i < t.size() {
            (restored(zip_insert_parent(focus_at(t, i), label)), i)
        } else {
            (t, t.size())
        },
        i < t.size() ==> restored(zip_insert_parent(focus_at(t, i), label)).labels()
            == t.labels().insert(i as int, label),
{
    lemma_focus_at(t, i);
    let z = focus_at(t, i);
    if i < t.size() {
        let z2 = zip_insert_parent(z, label);
        lemma_labels_plug(z.path, z.focus);
        lemma_labels_plug(z2.path, z2.focus);
        match z.focus {
            Lcrs::Node(l, c, s) => {
                lemma_node_labels(l, *c, Lcrs::Empty);
                lemma_node_labels(label, Lcrs::node(l, *c, Lcrs::Empty), *s);
            },
            Lcrs::Empty => {},
        }
        assert(restored(z2).labels() =~= t.labels().insert(i as int, label));
    }
}

/// Deleting the parent that `insert_parent` inserted gives back the forest.
pub proof fn law_delete_undoes_insert_parent(t: Lcrs, i: nat, label: Seq<char>)
    requires
        i < t.size(),
    ensures
        ({
            let r = restored_with_index(zip_insert_parent(focus_at(t, i), label));
            restored(zip_delete(focus_at(r.0, r.1))) == t
        }),
{
    lemma_focus_at(t, i);
    let z = focus_at(t, i);
    let z1 = zip_insert_parent(z, label);
    law_focus_after_restore(z1);
    match z.focus {
        Lcrs::Node(l, c, s) => {
            lemma_node_labels(l, *c, *s);
            assert(Lcrs::node(l, *c, Lcrs::Empty).concat(*s) == Lcrs::node(l, *c, *s));
        },
        Lcrs::Empty => {},
    }
}

/// Deleting the first node of a forest that `prepend` created gives back
/// the forest.
pub proof fn law_delete_undoes_prepend(t: Lcrs, label: Seq<char>)
    ensures
        restored(zip_delete(focus_at(Lcrs::node(label, Lcrs::Empty, t), 0))) == t,
{
}

/// Moving the node at `i` forward rearranges the forest and keeps the index
/// on the moved node.
pub proof fn law_move_forward_rearranges(t: Lcrs, i: nat)
    ensures
        rearranges(t, i, restored_with_index(zip_move_forward(focus_at(t, i)))),
{
    lemma_focus_at(t, i);
    let z = focus_at(t, i);
    if i < t.size() {
        let z2 = zip_move_forward(z);
        lemma_focus_label(z2);
        lemma_labels_plug(z.path, z.focus);
        match z.focus {
            Lcrs::Node(l, c, s) => match *s {
                Lcrs::Node(l2, c2, s2) => {
                    lemma_node_labels(l2, *c2, *s2);
                    lemma_node_labels(l, *c, *s);
                    lemma_node_labels(l, *c, *s2);
                    lemma_node_labels(l2, *c2, z2.focus);
                    lemma_plug_push(z.path, Step::Right(l2, *c2), z2.focus);
                    lemma_labels_plug(z.path, Lcrs::node(l2, *c2, z2.focus));
                    let b = before(z.path);
                    let a = after(z.path);
                    assert(t.labels() =~= b + seq![l] + c.labels() + (seq![l2] + c2.labels()) + s2.labels() + a);
                    assert(restored(z2).labels() =~= b + (seq![l2] + c2.labels()) + seq![l] + c.labels() + s2.labels() + a);
                    assert(restored(z2).labels().to_multiset() =~= t.labels().to_multiset());
                },
                Lcrs::Empty => {},
            },
            Lcrs::Empty => {},
        }
    }
}

/// Moving the node at `i` backward rearranges the forest and keeps the index
/// on the moved node.
pub proof fn law_move_backward_rearranges(t: Lcrs, i: nat)
    ensures
        rearranges(t, i, restored_with_index(zip_move_backward(focus_at(t, i)))),
{
    lemma_focus_at(t, i);
    let z = focus_at(t, i);
    if i < t.size() {
        let z2 = zip_move_backward(z);
        lemma_focus_label(z2);
        if z.path.len() > 0 {
            let p = z.path.drop_last();
            assert(p.push(z.path.last()) =~= z.path);
            lemma_plug_push(p, z.path.last(), z.focus);
            match z.path.last() {
                Step::Right(l, c) => match z.focus {
                    Lcrs::Node(l2, c2, s2) => {
                        lemma_node_labels(l2, *c2, *s2);
                        lemma_node_labels(l, c, z.focus);
                        lemma_node_labels(l, c, *s2);
                        lemma_node_labels(l2, *c2, Lcrs::node(l, c, *s2));
                        lemma_labels_plug(p, Lcrs::node(l, c, z.focus));
                        lemma_labels_plug(p, z2.focus);
                        let b = before(p);
                        let a = after(p);
                        assert(t.labels() =~= b + (seq![l] + c.labels()) + seq![l2] + c2.labels() + s2.labels() + a);
                        assert(restored(z2).labels() =~= b + seq![l2] + c2.labels() + (seq![l] + c.labels()) + s2.labels() + a);
                        assert(restored(z2).labels().to_multiset() =~= t.labels().to_multiset());
                    },
                    Lcrs::Empty => {},
                },
                Step::Down(_, _) => {},
            }
        }
    }
}

pub proof fn lemma_promote_up_labels(path: Seq<Step>, f: Lcrs, rl: Seq<char>, rc: Lcrs)
    ensures
        restored(promote_up(path, f, rl, rc)).labels().to_multiset()
            == (plug(path, f).labels() + seq![rl] + rc.labels()).to_multiset(),
        promote_up(path, f, rl, rc).focus->Node_0 == rl,
        promote_up(path, f, rl, rc).focus is Node,
    decreases path.len(),
{
    if path.len() == 0 {
        lemma_node_labels(rl, rc, f);
        assert(restored(promote_up(path, f, rl, rc)).labels() =~= seq![rl] + rc.labels() + f.labels());
        assert((seq![rl] + rc.labels() + f.labels()).to_multiset() =~= (f.labels() + seq![rl]
            + rc.labels()).to_multiset());
    } else {
        let p = path.drop_last();
        assert(p.push(path.last()) =~= path);
        lemma_plug_push(p, path.last(), f);
        match path.last() {
            Step::Right(l, c) => {
                lemma_promote_up_labels(p, Lcrs::node(l, c, f), rl, rc);
            },
            Step::Down(l, s) => {
                let g = Lcrs::node(rl, rc, s);
                lemma_node_labels(rl, rc, s);
                lemma_node_labels(l, f, g);
                lemma_node_labels(l, f, s);
                lemma_plug_push(p, Step::Right(l, f), g);
                lemma_labels_plug(p, Lcrs::node(l, f, g));
                lemma_labels_plug(p, Lcrs::node(l, f, s));
                let b = before(p);
                let a = after(p);
                assert(restored(promote_up(path, f, rl, rc)).labels() =~= b + seq![l] + f.labels()
                    + (seq![rl] + rc.labels()) + s.labels() + a);
                assert(plug(path, f).labels() + seq![rl] + rc.labels() =~= b + seq![l] + f.labels()
                    + s.labels() + a + (seq![rl] + rc.labels()));
                assert(restored(promote_up(path, f, rl, rc)).labels().to_multiset() =~= (
                plug(path, f).labels() + seq![rl] + rc.labels()).to_multiset());
            },
        }
    }
}

/// Promoting the node at `i` rearranges the forest and keeps the index on
/// the moved node.
pub proof fn law_promote_rearranges(t: Lcrs, i: nat)
    ensures
        rearranges(t, i, restored_with_index(zip_promote(focus_at(t, i)))),
{
    lemma_focus_at(t, i);
    let z = focus_at(t, i);
    if i < t.size() {
        let z2 = zip_promote(z);
        match z.focus {
            Lcrs::Node(l, c, s) => {
                lemma_promote_up_labels(z.path, *s, l, *c);
                lemma_node_labels(l, *c, *s);
                lemma_focus_label(z2);
                lemma_labels_plug(z.path, z.focus);
                lemma_labels_plug(z.path, *s);
                let b = before(z.path);
                let a = after(z.path);
                assert(t.labels() =~= b + (seq![l] + c.labels()) + s.labels() + a);
                assert(plug(z.path, *s).labels() + seq![l] + c.labels() =~= b + s.labels() + a + (
                seq![l] + c.labels()));
                assert(restored(z2).labels().to_multiset() =~= t.labels().to_multiset());
            },
            Lcrs::Empty => {},
        }
    }
}

/// Demoting the node at `i` keeps the pre-order sequence of labels and
/// keeps the index on the moved node.
pub proof fn law_demote_keeps_order(t: Lcrs, i: nat)
    ensures
        rearranges(t, i, restored_with_index(zip_demote(focus_at(t, i)))),
        restored(zip_demote(focus_at(t, i))).labels() == t.labels(),
{
    lemma_focus_at(t, i);
    let z = focus_at(t, i);
    if i < t.size() {
        let z2 = zip_demote(z);
        lemma_focus_label(z2);
        match z.focus {
            Lcrs::Node(rl, rc, rest) => {
                if z.path.len() > 0 {
                    let p = z.path.drop_last();
                    assert(p.push(z.path.last()) =~= z.path);
                    match z.path.last() {
                        Step::Right(l, c) => {
                            let last = Lcrs::node(rl, *rc, Lcrs::Empty);
                            lemma_along_siblings(p.push(Step::Down(l, *rest)), c, last);
                            lemma_plug_push(p, Step::Down(l, *rest), c.concat(last));
                            lemma_plug_push(p, Step::Right(l, c), z.focus);
                            lemma_concat(c, last);
                            lemma_node_labels(rl, *rc, Lcrs::Empty);
                            lemma_node_labels(rl, *rc, *rest);
                            lemma_node_labels(l, c.concat(last), *rest);
                            lemma_node_labels(l, c, z.focus);
                            lemma_labels_plug(p, Lcrs::node(l, c.concat(last), *rest));
                            lemma_labels_plug(p, Lcrs::node(l, c, z.focus));
                            assert(restored(z2).labels() =~= t.labels());
                        },
                        Step::Down(_, _) => {},
                    }
                }
            },
            Lcrs::Empty => {},
        }
    }
}

pub proof fn lemma_up_siblings_stable(path: Seq<Step>, f: Lcrs, g: Lcrs)
    ensures
        up_siblings(up_siblings(path, f).path, g) == (Zip { path: up_siblings(path, f).path, focus: g }),
    decreases path.len(),
{
    if path.len() > 0 {
        match path.last() {
            Step::Right(l, c) => {
                lemma_up_siblings_stable(path.drop_last(), Lcrs::node(l, c, f), g);
            },
            Step::Down(_, _) => {},
        }
    }
}

/// Raising the node at `i` rearranges the forest and keeps the index on the
/// raised node.
pub proof fn law_raise_rearranges(t: Lcrs, i: nat)
    ensures
        rearranges(t, i, restored_with_index(zip_raise(focus_at(t, i)))),
{
    lemma_focus_at(t, i);
    let z = focus_at(t, i);
    if i < t.size() {
        let z2 = zip_raise(z);
        lemma_focus_label(z2);
        match z.focus {
            Lcrs::Node(l, c, s) => {
                let u = up_siblings(z.path, c.concat(*s));
                lemma_up_siblings(z.path, c.concat(*s));
                lemma_concat(*c, *s);
                lemma_node_labels(l, *c, *s);
                lemma_node_labels(l, u.focus, Lcrs::Empty);
                lemma_labels_plug(u.path, u.focus);
                lemma_labels_plug(u.path, z2.focus);
                lemma_labels_plug(z.path, c.concat(*s));
                lemma_labels_plug(z.path, z.focus);
                let b = before(z.path);
                let a = after(z.path);
                let bu = before(u.path);
                let au = after(u.path);
                assert(t.labels() =~= b + seq![l] + (c.labels() + s.labels()) + a);
                assert(b + (c.labels() + s.labels()) + a =~= bu + u.focus.labels() + au);
                assert(restored(z2).labels() =~= bu + seq![l] + u.focus.labels() + au);
                assert(restored(z2).labels().to_multiset() =~= (seq![l] + (bu + u.focus.labels() + au)).to_multiset());
                assert(t.labels().to_multiset() =~= (seq![l] + (b + (c.labels() + s.labels()) + a)).to_multiset());
            },
            Lcrs::Empty => {},
        }
    }
}

/// Flattening the node at `i` keeps the pre-order sequence of labels and
/// keeps the index on the node.
pub proof fn law_flatten_keeps_order(t: Lcrs, i: nat)
    ensures
        rearranges(t, i, restored_with_index(zip_flatten(focus_at(t, i)))),
        restored(zip_flatten(focus_at(t, i))).labels() == t.labels(),
{
    lemma_focus_at(t, i);
    let z = focus_at(t, i);
    if i < t.size() {
        let z2 = zip_flatten(z);
        lemma_focus_label(z2);
        match z.focus {
            Lcrs::Node(l, c, s) => {
                lemma_concat(*c, *s);
                lemma_node_labels(l, *c, *s);
                lemma_node_labels(l, Lcrs::Empty, c.concat(*s));
                lemma_labels_plug(z.path, z.focus);
                lemma_labels_plug(z.path, z2.focus);
                assert(restored(z2).labels() =~= t.labels());
            },
            Lcrs::Empty => {},
        }
    }
}

/// Raising the node at the index that `raise` returns changes nothing more.
pub proof fn law_raise_idempotent(t: Lcrs, i: nat)
    ensures
        ({
            let r = restored_with_index(zip_raise(focus_at(t, i)));
            restored_with_index(zip_raise(focus_at(r.0, r.1))) == r
        }),
{
    lemma_focus_at(t, i);
    let z = focus_at(t, i);
    match z.focus {
        Lcrs::Node(l, c, s) => {
            let z1 = zip_raise(z);
            law_focus_after_restore(z1);
            let u = up_siblings(z.path, c.concat(*s));
            lemma_up_siblings_stable(z.path, c.concat(*s), u.focus);
            lemma_concat_empty(u.focus);
        },
        Lcrs::Empty => {
            lemma_focus_at(t, t.size());
        },
    }
}

/// Flattening the node at the index that `flatten` returns changes nothing
/// more.
pub proof fn law_flatten_idempotent(t: Lcrs, i: nat)
    ensures
        ({
            let r = restored_with_index(zip_flatten(focus_at(t, i)));
            restored_with_index(zip_flatten(focus_at(r.0, r.1))) == r
        }),
{
    lemma_focus_at(t, i);
    let z = focus_at(t, i);
    match z.focus {
        Lcrs::Node(l, c, s) => {
            let z1 = zip_flatten(z);
            law_focus_after_restore(z1);
        },
        Lcrs::Empty => {
            lemma_focus_at(t, t.size());
        },
    }
}

/// Whether the node at index `i` has a next sibling.
pub open spec fn has_next_sibling(t: Lcrs, i: nat) -> bool {
    match focus_at(t, i).focus {
        Lcrs::Node(_, _, s) => *s is Node,
        Lcrs::Empty => false,
    }
}

/// Whether the node at index `i` has a previous sibling.
pub open spec fn has_prev_sibling(t: Lcrs, i: nat) -> bool {
    &&& focus_at(t, i).focus is Node
    &&& focus_at(t, i).path.len() > 0
    &&& focus_at(t, i).path.last() is Right
}

/// Moving a node backward right after moving it forward restores the forest
/// and the index.
pub proof fn law_move_backward_undoes_move_forward(t: Lcrs, i: nat)
    requires
        has_next_sibling(t, i),
    ensures
        ({
            let r = restored_with_index(zip_move_forward(focus_at(t, i)));
            restored_with_index(zip_move_backward(focus_at(r.0, r.1))) == (t, i)
        }),
{
    lemma_focus_at(t, i);
    lemma_focus_at(t, i);
    let z = focus_at(t, i);
    lemma_descend_size(t, i);
    law_focus_after_restore(zip_move_forward(z));
    let z2 = zip_move_forward(z);
    assert(z2.path.drop_last() =~= z.path);
}

/// Moving a node forward right after moving it backward restores the forest
/// and the index.
pub proof fn law_move_forward_undoes_move_backward(t: Lcrs, i: nat)
    requires
        has_prev_sibling(t, i),
    ensures
        ({
            let r = restored_with_index(zip_move_backward(focus_at(t, i)));
            restored_with_index(zip_move_forward(focus_at(r.0, r.1))) == (t, i)
        }),
{
    let z = focus_at(t, i);
    lemma_descend_size(t, i);
    lemma_focus_at(t, i);
    law_focus_after_restore(zip_move_backward(z));
    let p = z.path.drop_last();
    assert(p.push(z.path.last()) =~= z.path);
}

pub proof fn lemma_promote_up_along(q: Seq<Step>, chain: Lcrs, g: Lcrs, rl: Seq<char>, rc: Lcrs)
    ensures
        promote_up(along_siblings(q, chain), g, rl, rc) == promote_up(q, chain.concat(g), rl, rc),
    decreases chain,
{
    match chain {
        Lcrs::Node(l, c, s) => {
            lemma_promote_up_along(q.push(Step::Right(l, *c)), *s, g, rl, rc);
            assert(q.push(Step::Right(l, *c)).drop_last() =~= q);
        },
        Lcrs::Empty => {},
    }
}

/// Promoting a node right after demoting it restores the forest and the
/// index.
pub proof fn law_promote_undoes_demote(t: Lcrs, i: nat)
    requires
        has_prev_sibling(t, i),
    ensures
        ({
            let r = restored_with_index(zip_demote(focus_at(t, i)));
            restored_with_index(zip_promote(focus_at(r.0, r.1))) == (t, i)
        }),
{
    let z = focus_at(t, i);
    lemma_descend_size(t, i);
    lemma_focus_at(t, i);
    let z1 = zip_demote(z);
    law_focus_after_restore(z1);
    let p = z.path.drop_last();
    assert(p.push(z.path.last()) =~= z.path);
    match z.focus {
        Lcrs::Node(rl, rc, rest) => match z.path.last() {
            Step::Right(l, c) => {
                let q = p.push(Step::Down(l, *rest));
                lemma_promote_up_along(q, c, Lcrs::Empty, rl, *rc);
                lemma_concat_empty(c);
                assert(q.drop_last() =~= p);
            },
            Step::Down(_, _) => {},
        },
        Lcrs::Empty => {},
    }
}

/// A focus that is a node lies at an index below the size of the forest.
proof fn lemma_descend_size(t: Lcrs, i: nat)
    ensures
        focus_at(t, i).focus is Node ==> i < t.size(),
{
    lemma_focus_at(t, i);
}

/// The trees that the trailing sibling steps of a path pass, furthest first:
/// the previous siblings of the sub-forest at the end of the path.
pub open spec fn prev_trees(path: Seq<Step>) -> Seq<(Seq<char>, Lcrs)>
    decreases path.len(),
{
    if path.len() > 0 {
        match path.last() {
            Step::Right(l, c) => prev_trees(path.drop_last()).push((l, c)),
            Step::Down(_, _) => Seq::empty(),
        }
    } else {
        Seq::empty()
    }
}

pub(crate) proof fn lemma_roots_concat(a: Lcrs, b: Lcrs)
    ensures
        roots(a.concat(b)) == roots(a) + roots(b),
    decreases a,
{
    match a {
        Lcrs::Empty => {
            assert(roots(a) + roots(b) =~= roots(b));
        },
        Lcrs::Node(l, c, s) => {
            lemma_roots_concat(*s, b);
            assert(roots(a.concat(b)) =~= roots(a) + roots(b));
        },
    }
}

proof fn lemma_up_siblings_roots(path: Seq<Step>, f: Lcrs)
    ensures
        roots(up_siblings(path, f).focus) == prev_trees(path) + roots(f),
        up_siblings(path, f).path.len() == 0 || up_siblings(path, f).path.last() is Down,
    decreases path.len(),
{
    if path.len() > 0 {
        match path.last() {
            Step::Right(l, c) => {
                lemma_up_siblings_roots(path.drop_last(), Lcrs::node(l, c, f));
                assert(roots(Lcrs::node(l, c, f)) == seq![(l, c)] + roots(f));
                assert(prev_trees(path.drop_last()) + (seq![(l, c)] + roots(f)) =~= prev_trees(path)
                    + roots(f));
            },
            Step::Down(_, _) => {
                assert(prev_trees(path) + roots(f) =~= roots(f));
            },
        }
    } else {
        assert(prev_trees(path) + roots(f) =~= roots(f));
    }
}

/// Raising the node at `i`: at the returned index stands that node, with no
/// siblings before or after it, and its children are its former previous
/// siblings, then its former children, then its former next siblings, in
/// order.
pub proof fn law_raise_structure(t: Lcrs, i: nat)
    requires
        i < t.size(),
    ensures
        ({
            let z = focus_at(t, i);
            let r = restored_with_index(zip_raise(z));
            let w = focus_at(r.0, r.1);
            &&& w.focus matches Lcrs::Node(l, c, s) && l == t.labels()[i as int] && *s is Empty
                && roots(*c) == prev_trees(z.path) + roots(*z.focus->Node_1) + roots(
                *z.focus->Node_2,
            )
            &&& w.path.len() == 0 || w.path.last() is Down
        }),
{
    lemma_focus_at(t, i);
    let z = focus_at(t, i);
    match z.focus {
        Lcrs::Node(l, c, s) => {
            let z2 = zip_raise(z);
            law_focus_after_restore(z2);
            lemma_up_siblings_roots(z.path, c.concat(*s));
            lemma_roots_concat(*c, *s);
            assert(prev_trees(z.path) + (roots(*c) + roots(*s)) =~= prev_trees(z.path) + roots(*c)
                + roots(*s));
        },
        Lcrs::Empty => {},
    }
}

} // verus!
