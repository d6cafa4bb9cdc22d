use vstd::prelude::*;

use crate::forest::laws::{
    law_delete, law_demote_keeps_order, law_flatten_keeps_order, law_insert_parent,
    law_move_backward_rearranges, law_move_forward_rearranges, law_promote_rearranges,
    law_raise_rearranges, law_set_label,
};
use crate::forest::{
    Node, NodeType, pre_order, restored, zip_delete, zip_demote, zip_flatten, zip_insert_parent,
    zip_move_backward, zip_move_forward, zip_promote, zip_raise, zip_set_label,
};
use crate::lcrs::{Lcrs, focus_at, lemma_node_labels, lemma_size_labels};

verus! {

/// An operation on a forest, at a pre-order index where it takes one.
pub enum ForestOp {
    Prepend(String),
    SetLabel(usize, String),
    MoveForward(usize),
    MoveBackward(usize),
    Promote(usize),
    Demote(usize),
    Raise(usize),
    Flatten(usize),
    InsertParent(usize, String),
    Delete(usize),
}

/// The forest after the operation `op` on `t`.
pub open spec fn op_result(t: Lcrs, op: ForestOp) -> Lcrs {
    match op {
        ForestOp::Prepend(label) => Lcrs::node(label@, Lcrs::Empty, t),
        ForestOp::SetLabel(i, label) => restored(zip_set_label(focus_at(t, i as nat), label@)),
        ForestOp::MoveForward(i) => restored(zip_move_forward(focus_at(t, i as nat))),
        ForestOp::MoveBackward(i) => restored(zip_move_backward(focus_at(t, i as nat))),
        ForestOp::Promote(i) => restored(zip_promote(focus_at(t, i as nat))),
        ForestOp::Demote(i) => restored(zip_demote(focus_at(t, i as nat))),
        ForestOp::Raise(i) => restored(zip_raise(focus_at(t, i as nat))),
        ForestOp::Flatten(i) => restored(zip_flatten(focus_at(t, i as nat))),
        ForestOp::InsertParent(i, label) => restored(
            zip_insert_parent(focus_at(t, i as nat), label@),
        ),
        ForestOp::Delete(i) => restored(zip_delete(focus_at(t, i as nat))),
    }
}

/// The forest after the operations `ops` on `t`, in order.
pub open spec fn ops_result(t: Lcrs, ops: Seq<ForestOp>) -> Lcrs
    decreases ops.len(),
{
    if ops.len() == 0 {
        t
    } else {
        ops_result(op_result(t, ops[0]), ops.drop_first())
    }
}

/// A forest has as many nodes as labels and as pre-order items, and none
/// exactly when it is empty.
pub proof fn law_size_counts_nodes(t: Lcrs, ty: NodeType)
    ensures
        pre_order(t, ty).len() == t.size(),
        t.labels().len() == t.size(),
        t.size() == 0 <==> t is Empty,
    decreases t,
{
    lemma_size_labels(t);
    match t {
        Lcrs::Empty => {},
        Lcrs::Node(l, c, s) => {
            law_size_counts_nodes(*c, NodeType::Child);
            law_size_counts_nodes(*s, crate::forest::sibling_type(ty));
        },
    }
}

/// An operation adds at most one node.
proof fn lemma_op_size(t: Lcrs, op: ForestOp)
    ensures
        op_result(t, op).size() <= t.size() + 1,
{
    let r = op_result(t, op);
    lemma_size_labels(t);
    lemma_size_labels(r);
    match op {
        ForestOp::Prepend(label) => {
            lemma_node_labels(label@, Lcrs::Empty, t);
        },
        ForestOp::SetLabel(i, label) => law_set_label(t, i as nat, label@),
        ForestOp::MoveForward(i) => law_move_forward_rearranges(t, i as nat),
        ForestOp::MoveBackward(i) => law_move_backward_rearranges(t, i as nat),
        ForestOp::Promote(i) => law_promote_rearranges(t, i as nat),
        ForestOp::Demote(i) => law_demote_keeps_order(t, i as nat),
        ForestOp::Raise(i) => law_raise_rearranges(t, i as nat),
        ForestOp::Flatten(i) => law_flatten_keeps_order(t, i as nat),
        ForestOp::InsertParent(i, label) => law_insert_parent(t, i as nat, label@),
        ForestOp::Delete(i) => law_delete(t, i as nat),
    }
    if r.labels().to_multiset() == t.labels().to_multiset() {
        r.labels().to_multiset_ensures();
        t.labels().to_multiset_ensures();
    }
}

impl Node {
    /// Perform the operation `op` on the forest.
    pub fn apply(self, op: ForestOp) -> (res: Node)
        requires
            self.wf(),
            self@.size() < usize::MAX,
        ensures
            res.wf(),
            res@ == op_result(self@, op),
    {
        match op {
            ForestOp::Prepend(label) => self.prepend(label),
            ForestOp::SetLabel(i, label) => self.set_label(i, label),
            ForestOp::MoveForward(i) => self.move_forward(i).0,
            ForestOp::MoveBackward(i) => self.move_backward(i).0,
            ForestOp::Promote(i) => self.promote(i).0,
            ForestOp::Demote(i) => self.demote(i).0,
            ForestOp::Raise(i) => self.raise(i).0,
            ForestOp::Flatten(i) => self.flatten(i).0,
            ForestOp::InsertParent(i, label) => self.insert_parent(i, label).0,
            ForestOp::Delete(i) => self.delete(i),
        }
    }

    /// Perform the operations `ops` in order. Whatever they are, every node
    /// of the result stores the size of its binary subtree, so `size` counts
    /// the nodes and the pre-order walk yields that many items.
    pub fn apply_all(self, ops: Vec<ForestOp>) -> (res: Node)
        requires
            self.wf(),
            self@.size() + ops@.len() < usize::MAX,
        ensures
            res.wf(),
            res@ == ops_result(self@, ops@),
            pre_order(res@, NodeType::Root).len() == res@.size(),
            res@.size() == 0 <==> res@ is Empty,
    {
        let mut forest = self;
        let mut ops = ops;
        let ghost all = ops@;
        let ghost start = self@;
        let mut done: usize = 0;
        assert(all.subrange(0, all.len() as int) == all);
        while ops.len() > 0
            invariant
                forest.wf(),
                0 <= done <= all.len(),
                all.len() < usize::MAX,
                ops@ == all.subrange(done as int, all.len() as int),
                ops_result(start, all) == ops_result(forest@, all.subrange(done as int, all.len() as int)),
                forest@.size() + (all.len() - done) < usize::MAX,
            decreases ops@.len(),
        {
            let op = ops.remove(0);
            proof {
                let rest = all.subrange(done as int, all.len() as int);
                assert(op == rest[0]);
                assert(rest.drop_first() == all.subrange(done + 1, all.len() as int));
                lemma_op_size(forest@, op);
            }
            forest = forest.apply(op);
            done = done + 1;
        }
        proof {
            assert(all.subrange(done as int, all.len() as int).len() == 0);
            law_size_counts_nodes(forest@, NodeType::Root);
        }
        forest
    }
}

} // verus!
