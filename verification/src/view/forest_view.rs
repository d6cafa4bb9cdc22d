use vstd::prelude::*;

use crate::forest::{Node, NodePosition as ForestPosition, NodeType, pre_order};
use crate::lcrs::Lcrs;
use crate::view::forest::{
    IndentBlock, child_prefix, lemma_run_concat, lemma_run_roots, lemma_run_single,
    pop_trailing_spacers, prefix_run, prefix_step, tree_prefixes,
};
use crate::zipper::iter::{Info, NodePosition, info, next_position};

verus! {

/// The display position of a node of type `ty`.
pub open spec fn position_of(ty: NodeType) -> NodePosition {
    match ty {
        NodeType::Root => NodePosition::Root,
        NodeType::Child => NodePosition::FirstChild,
        NodeType::Sibling => NodePosition::SubsequentChild,
    }
}

/// The display information of an item of the pre-order walk.
pub open spec fn as_info(x: (Seq<char>, ForestPosition)) -> Info {
    (x.0, position_of(x.1.node_type), x.1.is_last)
}

proof fn lemma_pre_order_info(t: Lcrs, ty: NodeType)
    ensures
        pre_order(t, ty).map_values(|x: (Seq<char>, ForestPosition)| as_info(x)) == info(
            t,
            position_of(ty),
        ),
    decreases t,
{
    match t {
        Lcrs::Empty => {
            assert(pre_order(t, ty).map_values(|x: (Seq<char>, ForestPosition)| as_info(x))
                =~= info(t, position_of(ty)));
        },
        Lcrs::Node(l, c, s) => {
            let sib = match ty {
                NodeType::Root => NodeType::Root,
                _ => NodeType::Sibling,
            };
            lemma_pre_order_info(*c, NodeType::Child);
            lemma_pre_order_info(*s, sib);
            assert(position_of(sib) == next_position(position_of(ty)));
            assert(pre_order(t, ty).map_values(|x: (Seq<char>, ForestPosition)| as_info(x))
                =~= info(t, position_of(ty)));
        },
    }
}

/// Return the rows that display the forest of `root`, in pre-order: the tree
/// drawn in front of each node, and its label.
pub fn forest_rows<'a>(root: &'a Node) -> (res: Vec<(String, &'a str)>)
    ensures
        res@.len() == root@.size(),
        forall|k: int|
            0 <= k < res@.len() ==> {
                &&& (#[trigger] res@[k]).0@ == tree_prefixes(
                    root@,
                    NodePosition::Root,
                    Seq::empty(),
                )[k]
                &&& res@[k].1@ == info(root@, NodePosition::Root)[k].0
            },
{
    let ghost all = pre_order(root@, NodeType::Root);
    let ghost items = all.map_values(|x: (Seq<char>, ForestPosition)| as_info(x));
    proof {
        lemma_pre_order_info(root@, NodeType::Root);
    }
    let mut iter = root.iter();
    let mut rows: Vec<(String, &'a str)> = Vec::new();
    let mut stack: Vec<IndentBlock> = Vec::new();
    loop
        invariant
            items == all.map_values(|x: (Seq<char>, ForestPosition)| as_info(x)),
            items == info(root@, NodePosition::Root),
            rows@.len() <= all.len(),
            iter.remaining() == all.skip(rows@.len() as int),
            stack@ == prefix_run(Seq::empty(), items.take(rows@.len() as int)).0,
            prefix_run(Seq::empty(), items.take(rows@.len() as int)).1.len() == rows@.len(),
            forall|k: int|
                0 <= k < rows@.len() ==> {
                    &&& (#[trigger] rows@[k]).0@ == prefix_run(
                        Seq::empty(),
                        items.take(rows@.len() as int),
                    ).1[k]
                    &&& rows@[k].1@ == all[k].0
                },
        ensures
            rows@.len() == all.len(),
            stack@ == prefix_run(Seq::empty(), items.take(rows@.len() as int)).0,
            prefix_run(Seq::empty(), items.take(rows@.len() as int)).1.len() == rows@.len(),
            forall|k: int|
                0 <= k < rows@.len() ==> {
                    &&& (#[trigger] rows@[k]).0@ == prefix_run(
                        Seq::empty(),
                        items.take(rows@.len() as int),
                    ).1[k]
                    &&& rows@[k].1@ == all[k].0
                },
        decreases all.len() - rows@.len(),
    {
        let ghost i = rows@.len() as int;
        let next = iter.next();
        let (label, pos) = match next {
            Some(item) => item,
            None => {
                assert(all.skip(i).len() == 0);
                break;
            },
        };
        let ghost before = prefix_run(Seq::empty(), items.take(i));
        proof {
            assert(all.skip(i)[0] == all[i]);
            assert(items[i] == as_info(all[i]));
            assert(items.take(i + 1) == items.take(i) + seq![items[i]]);
            lemma_run_concat(Seq::empty(), items.take(i), seq![items[i]]);
            lemma_run_single(before.0, items[i]);
            assert(all.skip(i).drop_first() == all.skip(i + 1));
        }
        let ghost step = prefix_step(stack@, position_of(pos.node_type), pos.is_last);
        let is_last = pos.is_last;
        let tree_row = match pos.node_type {
            NodeType::Root => {
                stack.clear();
                String::new()
            },
            NodeType::Child => child_prefix(&mut stack, is_last),
            NodeType::Sibling => {
                pop_trailing_spacers(&mut stack);
                child_prefix(&mut stack, is_last)
            },
        };
        assert(stack@ == step.0);
        assert(tree_row@ == step.1);
        rows.push((tree_row, label));
    }
    proof {
        assert(items.take(rows@.len() as int) == items);
        lemma_run_roots(root@, Seq::empty());
        crate::zipper::iter::lemma_info_len(root@, NodePosition::Root);
    }
    rows
}

} // verus!
