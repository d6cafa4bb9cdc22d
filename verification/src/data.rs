use vstd::prelude::*;

use crate::lcrs::Lcrs;

verus! {

/// A forest in left-child right-sibling form: empty, or a boxed root node.
pub type Heap = Option<Box<Node>>;

/// A node in a left-child right-sibling binary tree.
pub struct Node {
    pub label: String,
    pub child: Heap,
    pub sibling: Heap,
    pub size: usize,
}

/// The forest that a heap encodes.
pub open spec fn heap_model(heap: Heap) -> Lcrs
    decreases heap,
{
    match heap {
        None => Lcrs::Empty,
        Some(node) => Lcrs::node(node.label@, heap_model(node.child), heap_model(node.sibling)),
    }
}

/// Every stored `size` is the number of nodes of its binary subtree.
pub open spec fn heap_wf(heap: Heap) -> bool
    decreases heap,
{
    match heap {
        None => true,
        Some(node) => {
            &&& heap_wf(node.child)
            &&& heap_wf(node.sibling)
            &&& node.size == 1 + heap_model(node.child).size() + heap_model(node.sibling).size()
        },
    }
}

/// Return the number of nodes in the heap.
pub fn heap_size(heap: &Heap) -> (res: usize)
    requires
        heap_wf(*heap),
    ensures
        res == heap_model(*heap).size(),
{
    match heap {
        Some(ref node) => node.size,
        None => 0,
    }
}

/// A node with the given `label`, `child` and `sibling`.
pub fn new(label: String, child: Heap, sibling: Heap) -> (res: Box<Node>)
    requires
        heap_wf(child),
        heap_wf(sibling),
        1 + heap_model(child).size() + heap_model(sibling).size() <= usize::MAX,
    ensures
        heap_wf(Some(res)),
        heap_model(Some(res)) == Lcrs::node(label@, heap_model(child), heap_model(sibling)),
{
    let size = 1 + heap_size(&child) + heap_size(&sibling);
    let node = Node { label, child, sibling, size };
    Box::new(node)
}

/// Insert a node with the `label` before the first tree of the heap.
pub fn prepend(root: Heap, label: String) -> (res: Heap)
    requires
        heap_wf(root),
        heap_model(root).size() < usize::MAX,
    ensures
        heap_wf(res),
        heap_model(res) == Lcrs::node(label@, Lcrs::Empty, heap_model(root)),
{
    Some(new(label, None, root))
}

} // verus!
