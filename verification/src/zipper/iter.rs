use vstd::prelude::*;

use crate::lcrs::{Lcrs, lemma_node_labels};
use crate::zipper::{
    FocusNode, FocusView, Frame, Node, PathNode, RevNode, TreeView, chain, join, lemma_cons,
    level, path_chain, rev_chain, to_forest, up,
};

verus! {

/// Indicates a node's structural position within the forest.
#[derive(Clone, Copy, PartialEq, Eq, Debug)]
pub enum NodePosition {
    Root,
    FirstChild,
    SubsequentChild,
}

/// Information required to render each node.
pub struct NodeInfo<'a> {
    pub label: &'a str,
    pub position: NodePosition,
    pub is_last_sibling: bool,
    pub is_focused: bool,
}

/// A node's label, position, and whether it is the last of its siblings.
pub type Info = (Seq<char>, NodePosition, bool);

/// The position of the siblings that follow a node at position `p`.
pub open spec fn next_position(p: NodePosition) -> NodePosition {
    match p {
        NodePosition::Root => NodePosition::Root,
        _ => NodePosition::SubsequentChild,
    }
}

/// Pre-order information of the forest `t`, whose first root is at `p`.
pub open spec fn info(t: Lcrs, p: NodePosition) -> Seq<Info>
    decreases t,
{
    match t {
        Lcrs::Empty => Seq::empty(),
        Lcrs::Node(l, c, s) => seq![(l, p, *s is Empty)] + info(*c, NodePosition::FirstChild)
            + info(*s, next_position(p)),
    }
}

/// The position of the node that follows the previous siblings `prev` in a
/// sibling list whose first node is at `p`.
pub open spec fn pos_after(prev: Seq<TreeView>, p: NodePosition) -> NodePosition {
    if prev.len() == 0 {
        p
    } else {
        next_position(p)
    }
}

/// Pre-order information of previous siblings (nearest first in `prev`,
/// yielded furthest first) that are followed by at least one more node.
pub open spec fn prev_info(prev: Seq<TreeView>, p: NodePosition) -> Seq<Info>
    decreases prev.len(),
{
    if prev.len() == 0 {
        Seq::empty()
    } else {
        prev_info(prev.drop_first(), p) + seq![(prev[0].0, pos_after(prev.drop_first(), p), false)]
            + info(prev[0].1, NodePosition::FirstChild)
    }
}

impl<'a> NodeInfo<'a> {
    pub open spec fn item(&self) -> Info {
        (self.label@, self.position, self.is_last_sibling)
    }
}

/// The information items of a sequence of node infos.
pub open spec fn items_of<'a>(v: Seq<NodeInfo<'a>>) -> Seq<Info> {
    v.map_values(|n: NodeInfo<'a>| n.item())
}

/// Whether no node info in `v` is marked as focused.
pub open spec fn none_focused<'a>(v: Seq<NodeInfo<'a>>) -> bool {
    forall|k: int| 0 <= k < v.len() ==> !(#[trigger] v[k]).is_focused
}

/// Number of nodes in the previous siblings `prev`.
pub open spec fn prev_count(prev: Seq<TreeView>) -> nat
    decreases prev.len(),
{
    if prev.len() == 0 {
        0
    } else {
        1 + prev[0].1.size() + prev_count(prev.drop_first())
    }
}

/// Number of nodes that precede a level in pre-order, given its ancestors.
pub open spec fn parents_count(ps: Seq<Frame>) -> nat
    decreases ps.len(),
{
    if ps.len() == 0 {
        0
    } else {
        prev_count(ps[0].prev) + 1 + parents_count(ps.drop_first())
    }
}

/// The pre-order index of the focused node in its forest.
pub open spec fn focus_index(v: FocusView) -> nat {
    prev_count(v.prev) + parents_count(v.parents)
}

/// The forest that starts at a node and continues with its next siblings.
pub open spec fn node_model(n: &Node) -> Lcrs {
    Lcrs::node(n.label@, chain(n.child), chain(n.next))
}

/// The position of the first node of a level with the given ancestors.
pub open spec fn level_position(parents: Seq<Frame>) -> NodePosition {
    if parents.len() == 0 {
        NodePosition::Root
    } else {
        NodePosition::FirstChild
    }
}

pub proof fn lemma_info_len(t: Lcrs, p: NodePosition)
    ensures
        info(t, p).len() == t.size(),
    decreases t,
{
    match t {
        Lcrs::Empty => {},
        Lcrs::Node(l, c, s) => {
            lemma_info_len(*c, NodePosition::FirstChild);
            lemma_info_len(*s, next_position(p));
        },
    }
}

pub proof fn lemma_prev_info_len(prev: Seq<TreeView>, p: NodePosition)
    ensures
        prev_info(prev, p).len() == prev_count(prev),
    decreases prev.len(),
{
    if prev.len() > 0 {
        lemma_prev_info_len(prev.drop_first(), p);
        lemma_info_len(prev[0].1, NodePosition::FirstChild);
    }
}

/// The information of previous siblings joined in front of a non-empty
/// forest `r`.
pub proof fn lemma_join_info(prev: Seq<TreeView>, r: Lcrs, p: NodePosition)
    requires
        r is Node,
    ensures
        info(join(prev, r), p) == prev_info(prev, p) + info(r, pos_after(prev, p)),
    decreases prev.len(),
{
    if prev.len() == 0 {
        assert(prev_info(prev, p) + info(r, pos_after(prev, p)) =~= info(r, p));
    } else {
        let rest = prev.drop_first();
        let a = prev[0];
        let n = Lcrs::node(a.0, a.1, r);
        lemma_join_info(rest, n, p);
        lemma_node_labels(a.0, a.1, r);
        assert(next_position(pos_after(rest, p)) == pos_after(prev, p));
        assert(info(n, pos_after(rest, p)) == seq![(a.0, pos_after(rest, p), false)] + info(
            a.1,
            NodePosition::FirstChild,
        ) + info(r, next_position(pos_after(rest, p))));
        assert(info(join(prev, r), p) =~= prev_info(prev, p) + info(r, pos_after(prev, p)));
    }
}

/// Information items still to come from a stack of nodes (top first).
pub open spec fn stack_info<'a>(stack: Seq<(&'a Node, NodePosition)>) -> Seq<Info>
    decreases stack.len(),
{
    if stack.len() == 0 {
        Seq::empty()
    } else {
        info(node_model(stack.last().0), stack.last().1) + stack_info(stack.drop_last())
    }
}

proof fn lemma_stack_info_push<'a>(stack: Seq<(&'a Node, NodePosition)>, e: (&'a Node, NodePosition))
    ensures
        stack_info(stack.push(e)) == info(node_model(e.0), e.1) + stack_info(stack),
{
    assert(stack.push(e).drop_last() =~= stack);
}

proof fn lemma_items_push<'a>(v: Seq<NodeInfo<'a>>, n: NodeInfo<'a>)
    ensures
        items_of(v.push(n)) == items_of(v) + seq![n.item()],
{
    assert(items_of(v.push(n)) =~= items_of(v) + seq![n.item()]);
}

proof fn lemma_items_append<'a>(v: Seq<NodeInfo<'a>>, w: Seq<NodeInfo<'a>>)
    ensures
        items_of(v + w) == items_of(v) + items_of(w),
{
    assert(items_of(v + w) =~= items_of(v) + items_of(w));
}

/// Borrow the node of an optional boxed node.
fn as_node_ref(n: &Option<Box<Node>>) -> (res: Option<&Node>)
    ensures
        match res {
            None => chain(*n) is Empty,
            Some(r) => node_model(r) == chain(*n),
        },
{
    match n {
        Some(b) => Some(&**b),
        None => None,
    }
}

/// Pre-order information of the subtree, if any, and its subsequent siblings.
pub fn node_iter<'a>(maybe_node: Option<&'a Node>, position: NodePosition) -> (res: Vec<
    NodeInfo<'a>,
>)
    ensures
        items_of(res@) == match maybe_node {
            None => Seq::<Info>::empty(),
            Some(n) => info(node_model(n), position),
        },
        none_focused(res@),
{
    let mut out: Vec<NodeInfo<'a>> = Vec::new();
    let mut stack: Vec<(&'a Node, NodePosition)> = Vec::new();
    let ghost target = match maybe_node {
        None => Seq::<Info>::empty(),
        Some(n) => info(node_model(n), position),
    };
    if let Some(node) = maybe_node {
        proof {
            lemma_stack_info_push(stack@, (node, position));
        }
        stack.push((node, position));
    }
    proof {
        assert(items_of(out@) =~= Seq::<Info>::empty());
        assert(items_of(out@) + stack_info(stack@) =~= target);
    }
    while stack.len() > 0
        invariant
            items_of(out@) + stack_info(stack@) == target,
            target == match maybe_node {
                None => Seq::<Info>::empty(),
                Some(n) => info(node_model(n), position),
            },
            none_focused(out@),
        decreases stack_info(stack@).len(),
    {
        let ghost before_pop = stack@;
        let (node, pos) = stack.pop().unwrap();
        let ghost base = stack@;
        proof {
            assert(before_pop =~= base.push((node, pos)));
            lemma_stack_info_push(base, (node, pos));
            lemma_node_labels(node.label@, chain(node.child), chain(node.next));
        }
        let is_last_sibling = match as_node_ref(&node.next) {
            Some(next) => {
                let next_pos = match pos {
                    NodePosition::Root => NodePosition::Root,
                    _ => NodePosition::SubsequentChild,
                };
                proof {
                    lemma_stack_info_push(base, (next, next_pos));
                }
                stack.push((next, next_pos));
                false
            },
            None => true,
        };
        let ghost mid = stack@;
        proof {
            assert(stack_info(mid) == info(chain(node.next), next_position(pos)) + stack_info(base));
        }
        if let Some(child) = as_node_ref(&node.child) {
            proof {
                lemma_stack_info_push(mid, (child, NodePosition::FirstChild));
            }
            stack.push((child, NodePosition::FirstChild));
        }
        let node_info = NodeInfo {
            label: node.label.as_str(),
            position: pos,
            is_last_sibling,
            is_focused: false,
        };
        proof {
            lemma_items_push(out@, node_info);
            assert(stack_info(stack@) == info(chain(node.child), NodePosition::FirstChild) + stack_info(mid));
            assert(items_of(out@.push(node_info)) + stack_info(stack@) =~= items_of(out@) + stack_info(before_pop));
        }
        out.push(node_info);
    }
    proof {
        assert(stack_info(stack@) =~= Seq::<Info>::empty());
        assert(items_of(out@) =~= target);
    }
    out
}

/// The previous siblings of a chain, nearest first, as a sequence.
pub open spec fn rev_model(r: &RevNode) -> Seq<TreeView> {
    seq![(r.label@, chain(r.child))] + rev_chain(r.prev)
}

/// Borrow the node of an optional boxed previous sibling.
fn as_rev_ref(r: &Option<Box<RevNode>>) -> (res: Option<&RevNode>)
    ensures
        match res {
            None => rev_chain(*r) == Seq::<TreeView>::empty(),
            Some(x) => rev_model(x) == rev_chain(*r),
        },
{
    match r {
        Some(b) => Some(&**b),
        None => {
            assert(rev_chain(*r) =~= Seq::<TreeView>::empty());
            None
        },
    }
}

/// Pre-order information of the previous siblings (furthest first), with
/// their subtrees; the first of them is a root when `is_root` holds and a
/// first child otherwise.
pub fn rev_node_iter<'a>(prev: Option<&'a RevNode>, is_root: bool) -> (res: Vec<NodeInfo<'a>>)
    ensures
        items_of(res@) == prev_info(
            match prev {
                None => Seq::<TreeView>::empty(),
                Some(r) => rev_model(r),
            },
            if is_root {
                NodePosition::Root
            } else {
                NodePosition::FirstChild
            },
        ),
        none_focused(res@),
{
    let ghost all = match prev {
        None => Seq::<TreeView>::empty(),
        Some(r) => rev_model(r),
    };
    let ghost p = if is_root {
        NodePosition::Root
    } else {
        NodePosition::FirstChild
    };
    let mut stack: Vec<&'a RevNode> = Vec::new();
    let mut cursor = prev;
    while cursor.is_some()
        invariant
            stack@.len() <= all.len(),
            match cursor {
                None => all.skip(stack@.len() as int) =~= Seq::<TreeView>::empty(),
                Some(r) => rev_model(r) == all.skip(stack@.len() as int),
            },
            forall|j: int| 0 <= j < stack@.len() ==> rev_model(#[trigger] stack@[j]) == all.skip(j),
            all == match prev {
                None => Seq::<TreeView>::empty(),
                Some(r) => rev_model(r),
            },
        decreases all.len() - stack@.len(),
    {
        let rev_node = cursor.unwrap();
        let ghost k = stack@.len();
        proof {
            lemma_cons((rev_node.label@, chain(rev_node.child)), rev_chain(rev_node.prev));
            assert(all.skip(k as int + 1) =~= all.skip(k as int).drop_first());
        }
        stack.push(rev_node);
        cursor = as_rev_ref(&rev_node.prev);
    }
    let mut out: Vec<NodeInfo<'a>> = Vec::new();
    proof {
        assert(all.skip(stack@.len() as int) =~= Seq::<TreeView>::empty());
        assert(items_of(out@) =~= prev_info(all.skip(stack@.len() as int), p));
    }
    while stack.len() > 0
        invariant
            forall|j: int| 0 <= j < stack@.len() ==> rev_model(#[trigger] stack@[j]) == all.skip(j),
            stack@.len() <= all.len(),
            items_of(out@) == prev_info(all.skip(stack@.len() as int), p),
            none_focused(out@),
            p == if is_root {
                NodePosition::Root
            } else {
                NodePosition::FirstChild
            },
        decreases stack@.len(),
    {
        let rev_node = stack.pop().unwrap();
        let ghost k = stack@.len();
        let ghost rest = all.skip(k as int + 1);
        proof {
            assert(rev_model(rev_node) == all.skip(k as int));
            lemma_cons((rev_node.label@, chain(rev_node.child)), rev_chain(rev_node.prev));
            assert(all.skip(k as int).drop_first() =~= rest);
        }
        let position = if is_root {
            NodePosition::Root
        } else if rev_node.prev.is_none() {
            NodePosition::FirstChild
        } else {
            NodePosition::SubsequentChild
        };
        proof {
            assert(rev_chain(rev_node.prev) == rest);
            if rev_node.prev.is_none() {
                assert(rest.len() == 0);
            } else {
                assert(rest.len() > 0);
            }
            assert(position == pos_after(rest, p));
        }
        let info_item = NodeInfo {
            label: rev_node.label.as_str(),
            position,
            is_last_sibling: false,
            is_focused: false,
        };
        let mut child_items = node_iter(as_node_ref(&rev_node.child), NodePosition::FirstChild);
        proof {
            lemma_items_push(out@, info_item);
            lemma_items_append(out@.push(info_item), child_items@);
        }
        out.push(info_item);
        out.append(&mut child_items);
    }
    proof {
        assert(all.skip(0) =~= all);
    }
    out
}

/// The ancestors that a path starts with, nearest first.
pub open spec fn path_model(p: Option<&PathNode>) -> Seq<Frame> {
    match p {
        None => Seq::empty(),
        Some(n) => seq![Frame { prev: rev_chain(n.prev), next: chain(n.next), label: n.label@ }]
            + path_chain(n.parent),
    }
}

/// Borrow the node of an optional boxed path node.
fn as_path_ref(p: &Option<Box<PathNode>>) -> (res: Option<&PathNode>)
    ensures
        path_model(res) == path_chain(*p),
{
    match p {
        Some(b) => Some(&**b),
        None => None,
    }
}

/// Pre-order information of the focused node and its siblings' subtrees;
/// the focused node is the only one marked as focused.
pub fn siblings_iter<'a>(focus: &'a FocusNode) -> (res: Vec<NodeInfo<'a>>)
    ensures
        items_of(res@) == info(level(focus@), level_position(focus@.parents)),
        forall|k: int| 0 <= k < res@.len() ==> ((#[trigger] res@[k]).is_focused <==> k == prev_count(focus@.prev)),
        prev_count(focus@.prev) < res@.len(),
        res@[prev_count(focus@.prev) as int].label@ == focus@.label,
{
    let ghost v = focus@;
    let ghost p0 = level_position(v.parents);
    let is_root = focus.parent.is_none();
    let (position, next_pos) = if is_root {
        (NodePosition::Root, NodePosition::Root)
    } else if focus.prev.is_none() {
        (NodePosition::FirstChild, NodePosition::SubsequentChild)
    } else {
        (NodePosition::SubsequentChild, NodePosition::SubsequentChild)
    };
    proof {
        lemma_join_info(v.prev, Lcrs::node(v.label, v.child, v.next), p0);
        lemma_node_labels(v.label, v.child, v.next);
        lemma_prev_info_len(v.prev, p0);
        if focus.prev.is_some() {
            assert(v.prev.len() > 0);
        }
        assert(position == pos_after(v.prev, p0));
        assert(next_pos == next_position(position));
    }
    let focus_info = NodeInfo {
        label: focus.label.as_str(),
        position,
        is_last_sibling: focus.next.is_none(),
        is_focused: true,
    };
    let mut items = rev_node_iter(as_rev_ref(&focus.prev), is_root);
    let ghost a = items@;
    proof {
        lemma_items_push(items@, focus_info);
    }
    items.push(focus_info);
    let mut child_items = node_iter(as_node_ref(&focus.child), NodePosition::FirstChild);
    let ghost b = child_items@;
    proof {
        lemma_items_append(items@, child_items@);
    }
    items.append(&mut child_items);
    let mut next_items = node_iter(as_node_ref(&focus.next), next_pos);
    let ghost c = next_items@;
    proof {
        lemma_items_append(items@, next_items@);
    }
    items.append(&mut next_items);
    proof {
        assert(items_of(a) == prev_info(v.prev, p0));
        assert(items_of(b) == info(v.child, NodePosition::FirstChild));
        assert(items_of(c) == info(v.next, next_pos));
        assert(info(Lcrs::node(v.label, v.child, v.next), position) == seq![(v.label, position, v.next is Empty)]
            + info(v.child, NodePosition::FirstChild) + info(v.next, next_position(position)));
        assert(items_of(items@) =~= info(level(focus@), level_position(focus@.parents)));
        assert(items@ =~= a.push(focus_info) + b + c);
        assert(items_of(a).len() == a.len());
        assert(items@[a.len() as int] == focus_info);
        assert forall|k: int| 0 <= k < items@.len() implies ((#[trigger] items@[k]).is_focused
            <==> k == prev_count(focus@.prev)) by {
            if k < a.len() {
                assert(items@[k] == a[k]);
            } else if k == a.len() {
            } else if k < a.len() + 1 + b.len() {
                assert(items@[k] == b[k - a.len() - 1]);
            } else {
                assert(items@[k] == c[k - a.len() - 1 - b.len()]);
            }
        }
    }
    items
}

/// Pre-order information of all nodes in the forest; the focused node is
/// the only one marked as focused.
pub fn focus_iter<'a>(focus: &'a FocusNode) -> (res: Vec<NodeInfo<'a>>)
    ensures
        items_of(res@) == info(to_forest(focus@), NodePosition::Root),
        forall|k: int| 0 <= k < res@.len() ==> ((#[trigger] res@[k]).is_focused <==> k == focus_index(focus@)),
        focus_index(focus@) < res@.len(),
        res@[focus_index(focus@) as int].label@ == focus@.label,
{
    let mut items = siblings_iter(focus);
    let mut path = as_path_ref(&focus.parent);
    let ghost mut lvl = level(focus@);
    let ghost mut fi = prev_count(focus@.prev);
    while path.is_some()
        invariant
            up(path_model(path), lvl) == to_forest(focus@),
            items_of(items@) == info(lvl, level_position(path_model(path))),
            forall|k: int| 0 <= k < items@.len() ==> ((#[trigger] items@[k]).is_focused <==> k == fi),
            fi < items@.len(),
            items@[fi as int].label@ == focus@.label,
            fi + parents_count(path_model(path)) == focus_index(focus@),
        decreases path_model(path).len(),
    {
        let path_node = path.unwrap();
        let ghost f = Frame {
            prev: rev_chain(path_node.prev),
            next: chain(path_node.next),
            label: path_node.label@,
        };
        let ghost rest = path_chain(path_node.parent);
        let ghost p_new = level_position(rest);
        let is_root = path_node.parent.is_none();
        let (position, next_pos) = if is_root {
            (NodePosition::Root, NodePosition::Root)
        } else if path_node.prev.is_none() {
            (NodePosition::FirstChild, NodePosition::SubsequentChild)
        } else {
            (NodePosition::SubsequentChild, NodePosition::SubsequentChild)
        };
        proof {
            lemma_cons(f, rest);
            let node = Lcrs::node(f.label, lvl, f.next);
            lemma_join_info(f.prev, node, p_new);
            lemma_node_labels(f.label, lvl, f.next);
            lemma_prev_info_len(f.prev, p_new);
            if path_node.prev.is_some() {
                assert(f.prev.len() > 0);
            }
            if path_node.parent.is_some() {
                assert(rest.len() > 0);
            }
            assert(position == pos_after(f.prev, p_new));
            assert(next_pos == next_position(position));
        }
        let path_node_info = NodeInfo {
            label: path_node.label.as_str(),
            position,
            is_last_sibling: path_node.next.is_none(),
            is_focused: false,
        };
        let mut new_items = rev_node_iter(as_rev_ref(&path_node.prev), is_root);
        let ghost a = new_items@;
        let ghost b = items@;
        proof {
            lemma_items_push(new_items@, path_node_info);
            assert forall|j: int| 0 <= j < b.len() implies ((#[trigger] b[j]).is_focused <==> j == fi) by {
                assert(b[j] == items@[j]);
            }
        }
        new_items.push(path_node_info);
        proof {
            lemma_items_append(new_items@, items@);
        }
        new_items.append(&mut items);
        let mut next_items = node_iter(as_node_ref(&path_node.next), next_pos);
        let ghost c = next_items@;
        proof {
            lemma_items_append(new_items@, next_items@);
        }
        new_items.append(&mut next_items);
        items = new_items;
        proof {
            let new_lvl = join(f.prev, Lcrs::node(f.label, lvl, f.next));
            assert(items_of(a) == prev_info(f.prev, p_new));
            assert(items_of(b) == info(lvl, NodePosition::FirstChild));
            assert(items_of(c) == info(f.next, next_pos));
            assert(info(Lcrs::node(f.label, lvl, f.next), position) == seq![(f.label, position, f.next is Empty)]
                + info(lvl, NodePosition::FirstChild) + info(f.next, next_position(position)));
            assert(items_of(items@) =~= info(new_lvl, p_new));
            assert(items@ =~= a.push(path_node_info) + b + c);
            let new_fi = prev_count(f.prev) + 1 + fi;
            assert(items_of(a).len() == a.len());
            assert(a.len() == prev_count(f.prev));
            assert forall|k: int| 0 <= k < items@.len() implies ((#[trigger] items@[k]).is_focused
                <==> k == new_fi) by {
                if k < a.len() {
                    assert(items@[k] == a[k]);
                    assert(!a[k].is_focused);
                    assert(k != new_fi);
                } else if k == a.len() {
                    assert(items@[k] == path_node_info);
                    assert(k != new_fi);
                } else if k < a.len() + 1 + b.len() {
                    assert(items@[k] == b[k - a.len() - 1]);
                    assert(b[k - a.len() - 1].is_focused <==> k - a.len() - 1 == fi);
                } else {
                    assert(items@[k] == c[k - a.len() - 1 - b.len()]);
                    assert(!c[k - a.len() - 1 - b.len()].is_focused);
                    assert(k != new_fi);
                }
            }
            assert(items@[new_fi as int] == b[fi as int]);
            lvl = new_lvl;
            fi = new_fi;
        }
        path = as_path_ref(&path_node.parent);
    }
    proof {
        assert(path_model(path) =~= Seq::<Frame>::empty());
    }
    items
}

} // verus!
