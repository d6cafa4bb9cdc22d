use vstd::prelude::*;

use crate::lcrs::{
    Lcrs, Step, Zip, before, focus_at, plug, descend, lemma_concat, lemma_concat_empty, lemma_concat_roots, lemma_focus_at, lemma_labels_plug,
    lemma_descend_index, lemma_node_labels, lemma_plug_bound, lemma_plug_descend,
    lemma_plug_push, lemma_size_labels, lemma_size_plug,
};

verus! {

/// A node in a left-child right-sibling binary tree containing a string.
///
/// This represents an ordered forest of multi-way trees, where each node can
/// have any number of children and siblings (the roots are siblings of each
/// other).  `size` is the number of nodes in a node's (binary) subtree.
/// When referring to a forest, "the root" is the root of its left-most tree,
/// which is also the root node of its binary tree representation.
#[derive(PartialEq, Eq, Debug)]
pub enum Heap {
    Empty,
    Node { label: String, child: Box<Heap>, sibling: Box<Heap>, size: usize },
}

/// A heap with a single tree.
pub struct Tree {
    pub label: String,
    pub child: Heap,
}

/// The direction taken through a node in a path through a heap.
pub enum Direction {
    Child { label: String, sibling: Heap },
    Sibling { label: String, child: Heap },
}

/// A path to a subheap within a heap.
pub struct PathToSubheap {
    pub path: Vec<Direction>,
    pub subheap: Heap,
}

/// An attempt to separate the first two trees from a heap.
pub enum TwoTrees {
    Success { tree_1: Tree, tree_2: Tree, rest: Heap },
    Fail(Heap),
}

/// The number of roots in a heap (zero, one, or multiple).
///
/// When there is one root, a reference to its label is included.
pub enum HeapStatus<'a> {
    Empty,
    SingleRoot(&'a str),
    MultiRoot,
}

impl View for Heap {
    type V = Lcrs;

    open spec fn view(&self) -> Lcrs {
        self.model()
    }
}

impl Heap {
    /// The forest that this binary tree encodes.
    pub open spec fn model(&self) -> Lcrs
        decreases self,
    {
        match self {
            Heap::Empty => Lcrs::Empty,
            Heap::Node { label, child, sibling, .. } => Lcrs::node(
                label@,
                child.model(),
                sibling.model(),
            ),
        }
    }

    /// Every stored `size` is the number of nodes of its binary subtree.
    pub open spec fn wf(&self) -> bool
        decreases self,
    {
        match self {
            Heap::Empty => true,
            Heap::Node { child, sibling, size, .. } => {
                &&& child.wf()
                &&& sibling.wf()
                &&& *size == 1 + child.model().size() + sibling.model().size()
            },
        }
    }
}

impl Direction {
    pub open spec fn step(&self) -> Step {
        match self {
            Direction::Child { label, sibling } => Step::Down(label@, sibling@),
            Direction::Sibling { label, child } => Step::Right(label@, child@),
        }
    }

    pub open spec fn wf(&self) -> bool {
        match self {
            Direction::Child { sibling, .. } => sibling.wf(),
            Direction::Sibling { child, .. } => child.wf(),
        }
    }
}

/// The steps of a path of directions.
pub open spec fn steps(path: Seq<Direction>) -> Seq<Step> {
    path.map_values(|d: Direction| d.step())
}

impl View for PathToSubheap {
    type V = Zip;

    open spec fn view(&self) -> Zip {
        Zip { path: steps(self.path@), focus: self.subheap@ }
    }
}

impl PathToSubheap {
    pub open spec fn wf(&self) -> bool {
        &&& forall|k: int| 0 <= k < self.path@.len() ==> (#[trigger] self.path@[k]).wf()
        &&& self.subheap.wf()
        &&& plug(self@.path, self@.focus).size() <= usize::MAX
    }
}

impl View for Tree {
    type V = (Seq<char>, Lcrs);

    open spec fn view(&self) -> (Seq<char>, Lcrs) {
        (self.label@, self.child@)
    }
}

/// The heap after merging its first two trees: the root of one becomes the
/// first child of the other, and the merged tree goes to the end.
pub open spec fn merged_pair(h: Lcrs, promote_first: bool) -> Lcrs {
    match h {
        Lcrs::Node(l1, c1, s1) => match *s1 {
            Lcrs::Node(l2, c2, s2) => {
                let merged = if promote_first {
                    Lcrs::node(l1, Lcrs::node(l2, *c2, *c1), Lcrs::Empty)
                } else {
                    Lcrs::node(l2, Lcrs::node(l1, *c1, *c2), Lcrs::Empty)
                };
                s2.concat(merged)
            },
            Lcrs::Empty => h,
        },
        Lcrs::Empty => h,
    }
}

/// The heap without the node at pre-order `index` (its children take its
/// place); unchanged when there is no such node.
pub open spec fn deleted(h: Lcrs, index: nat) -> Lcrs {
    let z = focus_at(h, index);
    match z.focus {
        Lcrs::Node(_, c, s) => plug(z.path, c.concat(*s)),
        Lcrs::Empty => h,
    }
}

proof fn lemma_steps_push(path: Seq<Direction>, d: Direction)
    ensures
        steps(path.push(d)) == steps(path).push(d.step()),
        steps(path.push(d)).drop_last() == steps(path),
{
    assert(steps(path.push(d)) =~= steps(path).push(d.step()));
    assert(steps(path).push(d.step()).drop_last() =~= steps(path));
}

/// Return a path to the subheap at the pre-order `index` in the `heap`.
///
/// If the index is invalid, a path to an empty sub-heap is returned.
pub fn find_subheap(heap: Heap, index: usize) -> (res: PathToSubheap)
    requires
        heap.wf(),
    ensures
        res.wf(),
        res@ == focus_at(heap@, index as nat),
{
    let ghost whole = heap@;
    let mut i = index;
    let mut path: Vec<Direction> = Vec::new();
    let mut current_heap = heap;
    proof {
        assert(steps(path@) =~= Seq::<Step>::empty());
    }
    while i > 0 && current_heap.is_node()
        invariant
            current_heap.wf(),
            forall|k: int| 0 <= k < path@.len() ==> (#[trigger] path@[k]).wf(),
            descend(current_heap@, i as nat, steps(path@)) == focus_at(whole, index as nat),
            plug(steps(path@), current_heap@) == whole,
            whole.size() <= usize::MAX,
            whole == heap@,
        decreases i,
    {
        proof {
            lemma_size_labels(whole);
        }
        match current_heap {
            Heap::Node { label, child, sibling, .. } => {
                if i <= child.size() {
                    i -= 1;
                    let d = Direction::Child { label, sibling: *sibling };
                    proof {
                        lemma_steps_push(path@, d);
                        lemma_plug_push(steps(path@), d.step(), child@);
                    }
                    path.push(d);
                    current_heap = *child;
                } else {
                    i -= 1 + child.size();
                    let d = Direction::Sibling { label, child: *child };
                    proof {
                        lemma_steps_push(path@, d);
                        lemma_plug_push(steps(path@), d.step(), sibling@);
                    }
                    path.push(d);
                    current_heap = *sibling;
                }
            },
            Heap::Empty => {
                current_heap = Heap::Empty;
            },
        }
    }
    proof {
        lemma_size_labels(whole);
    }
    PathToSubheap { path, subheap: current_heap }
}

/// Reconstruct a heap given a path to a subheap.
pub fn reconstruct_heap(path_to_subheap: PathToSubheap) -> (res: Heap)
    requires
        path_to_subheap.wf(),
    ensures
        res.wf(),
        res@ == plug(path_to_subheap@.path, path_to_subheap@.focus),
{
    let ghost whole = plug(path_to_subheap@.path, path_to_subheap@.focus);
    let PathToSubheap { mut path, subheap } = path_to_subheap;
    let mut current_heap = subheap;
    while path.len() > 0
        invariant
            current_heap.wf(),
            forall|k: int| 0 <= k < path@.len() ==> (#[trigger] path@[k]).wf(),
            plug(steps(path@), current_heap@) == whole,
            whole.size() <= usize::MAX,
        decreases path.len(),
    {
        let ghost before_pop = path@;
        let direction = path.pop().unwrap();
        proof {
            assert(before_pop =~= path@.push(direction));
            lemma_steps_push(path@, direction);
            lemma_plug_push(steps(path@), direction.step(), current_heap@);
            assert(direction.wf());
        }
        current_heap = match direction {
            Direction::Child { label, sibling } => {
                proof {
                    lemma_plug_bound(steps(path@), Lcrs::node(label@, current_heap@, sibling@));
                }
                Heap::new(label, current_heap, sibling)
            },
            Direction::Sibling { label, child } => {
                proof {
                    lemma_plug_bound(steps(path@), Lcrs::node(label@, child@, current_heap@));
                }
                Heap::new(label, child, current_heap)
            },
        };
    }
    proof {
        assert(steps(path@) =~= Seq::<Step>::empty());
    }
    current_heap
}

/// Concatenate two heaps, making their roots siblings.
pub fn concat(left_heap: Heap, right_heap: Heap) -> (res: Heap)
    requires
        left_heap.wf(),
        right_heap.wf(),
        left_heap@.size() + right_heap@.size() <= usize::MAX,
    ensures
        res.wf(),
        res@ == left_heap@.concat(right_heap@),
{
    if !right_heap.is_node() {
        proof {
            lemma_concat_empty(left_heap@);
        }
        return left_heap;
    }
    let ghost target = left_heap@.concat(right_heap@);
    proof {
        lemma_concat(left_heap@, right_heap@);
    }
    let mut path: Vec<Direction> = Vec::new();
    let mut current_heap = left_heap;
    proof {
        assert(steps(path@) =~= Seq::<Step>::empty());
    }
    loop
        invariant
            current_heap.wf(),
            right_heap.wf(),
            forall|k: int| 0 <= k < path@.len() ==> (#[trigger] path@[k]).wf(),
            plug(steps(path@), current_heap@.concat(right_heap@)) == target,
            target.size() <= usize::MAX,
        ensures
            current_heap@ is Empty,
            forall|k: int| 0 <= k < path@.len() ==> (#[trigger] path@[k]).wf(),
            plug(steps(path@), current_heap@.concat(right_heap@)) == target,
        decreases current_heap@,
    {
        match current_heap {
            Heap::Node { label, child, sibling, .. } => {
                let d = Direction::Sibling { label, child: *child };
                proof {
                    lemma_steps_push(path@, d);
                    lemma_plug_push(steps(path@), d.step(), sibling@.concat(right_heap@));
                }
                path.push(d);
                current_heap = *sibling;
            },
            Heap::Empty => {
                current_heap = Heap::Empty;
                break;
            },
        }
    }
    let new_heap = PathToSubheap { path, subheap: right_heap };
    reconstruct_heap(new_heap)
}

/// Attempt to separate the first two trees from a heap.
pub fn pop_two_trees(heap: Heap) -> (res: TwoTrees)
    requires
        heap.wf(),
    ensures
        match res {
            TwoTrees::Success { tree_1, tree_2, rest } => {
                &&& tree_1.child.wf()
                &&& tree_2.child.wf()
                &&& rest.wf()
                &&& heap@ == Lcrs::node(
                    tree_1.label@,
                    tree_1.child@,
                    Lcrs::node(tree_2.label@, tree_2.child@, rest@),
                )
            },
            TwoTrees::Fail(h) => {
                &&& h.wf()
                &&& h@ == heap@
                &&& heap@.root_count() < 2
            },
        },
{
    match heap {
        Heap::Node { label: label_1, child: child_1, sibling: sibling_1, .. } => match *sibling_1 {
            Heap::Node { label: label_2, child: child_2, sibling: sibling_2, .. } => {
                proof {
                    assert(sibling_1.wf());
                    assert(child_2.wf() && sibling_2.wf());
                }
                let tree_1 = Tree { label: label_1, child: *child_1 };
                let tree_2 = Tree { label: label_2, child: *child_2 };
                TwoTrees::Success { tree_1, tree_2, rest: *sibling_2 }
            },
            Heap::Empty => {
                proof {
                    assert(Lcrs::Empty.root_count() == 0);
                }
                let old_heap = Heap::new(label_1, *child_1, Heap::Empty);
                TwoTrees::Fail(old_heap)
            },
        },
        Heap::Empty => TwoTrees::Fail(Heap::Empty),
    }
}

impl Heap {
    /// Construct a heap given the `label`, `child`, and `sibling` of its root.
    pub fn new(label: String, child: Self, sibling: Self) -> (res: Self)
        requires
            child.wf(),
            sibling.wf(),
            1 + child@.size() + sibling@.size() <= usize::MAX,
        ensures
            res.wf(),
            res@ == Lcrs::node(label@, child@, sibling@),
    {
        let size = 1 + child.size() + sibling.size();
        Self::Node { label, child: Box::new(child), sibling: Box::new(sibling), size }
    }

    /// Whether this is a node rather than the empty heap.
    pub fn is_node(&self) -> (res: bool)
        ensures
            res == (self@ is Node),
    {
        match self {
            Heap::Empty => false,
            Heap::Node { .. } => true,
        }
    }

    /// Return the number of nodes in the heap.
    pub fn size(&self) -> (res: usize)
        requires
            self.wf(),
        ensures
            res == self@.size(),
    {
        match self {
            Self::Empty => 0,
            Self::Node { size, .. } => *size,
        }
    }

    /// Return the number of roots in the heap.
    pub fn root_count(&self) -> (res: usize)
        requires
            self.wf(),
        ensures
            res == self@.root_count(),
    {
        let mut heap = self;
        let mut count: usize = 0;
        proof {
            lemma_root_count_size(self@);
        }
        while heap.is_node()
            invariant
                heap.wf(),
                count + heap@.root_count() == self@.root_count(),
                heap@.root_count() <= heap@.size(),
                self@.size() <= usize::MAX,
                count + heap@.size() <= self@.size(),
            decreases heap@.size(),
        {
            match heap {
                Heap::Node { sibling, .. } => {
                    proof {
                        lemma_root_count_size(sibling@);
                    }
                    count += 1;
                    heap = &**sibling;
                },
                Heap::Empty => {},
            }
        }
        count
    }

    /// Insert a node with the given `label` before the first tree in the heap.
    pub fn prepend(self, label: String) -> (res: Self)
        requires
            self.wf(),
            self@.size() < usize::MAX,
        ensures
            res.wf(),
            res@ == Lcrs::node(label@, Lcrs::Empty, self@),
    {
        Self::new(label, Self::Empty, self)
    }

    /// Delete the node with the pre-order `index` from the heap.
    pub fn delete(self, index: usize) -> (res: Self)
        requires
            self.wf(),
        ensures
            res.wf(),
            res@ == deleted(self@, index as nat),
    {
        proof {
            lemma_plug_descend(self@, index as nat, Seq::empty());
        }
        let PathToSubheap { path, subheap } = find_subheap(self, index);
        let ghost z = Zip { path: steps(path@), focus: subheap@ };
        let new_subheap = match subheap {
            Self::Node { child, sibling, .. } => {
                proof {
                    lemma_concat(child@, sibling@);
                    lemma_plug_bound(z.path, z.focus);
                    lemma_size_plug(z.path, z.focus);
                    lemma_size_plug(z.path, child@.concat(sibling@));
                }
                concat(*child, *sibling)
            },
            Self::Empty => Self::Empty,
        };
        let new_heap = PathToSubheap { path, subheap: new_subheap };
        reconstruct_heap(new_heap)
    }

    /// Merge the first two trees, appending the result as the final tree.
    pub fn merge_pair(self, promote_first: bool) -> (res: Self)
        requires
            self.wf(),
        ensures
            res.wf(),
            res@ == merged_pair(self@, promote_first),
    {
        let ghost h = self@;
        match pop_two_trees(self) {
            TwoTrees::Success { tree_1, tree_2, rest } => {
                let ghost (l1, c1, l2, c2) = (tree_1.label@, tree_1.child@, tree_2.label@, tree_2.child@);
                proof {
                    lemma_node_labels(l2, c2, rest@);
                    lemma_node_labels(l1, c1, Lcrs::node(l2, c2, rest@));
                }
                let (parent, child) = match promote_first {
                    true => (tree_1, tree_2),
                    false => (tree_2, tree_1),
                };
                let Tree { label: parent_label, child: old_child } = parent;
                let Tree { label: child_label, child: grandchild } = child;
                let new_child = Heap::new(child_label, grandchild, old_child);
                let merged = Heap::new(parent_label, new_child, Heap::Empty);
                proof {
                    lemma_node_labels(parent_label@, new_child@, Lcrs::Empty);
                }
                concat(rest, merged)
            },
            TwoTrees::Fail(heap) => {
                proof {
                    match h {
                        Lcrs::Node(_, _, s) => {
                            assert(s.root_count() == 0 ==> *s is Empty);
                        },
                        Lcrs::Empty => {},
                    }
                }
                heap
            },
        }
    }

    /// Return the status of the heap (if there is one root, include its label).
    pub fn status(&self) -> (res: HeapStatus<'_>)
        ensures
            match res {
                HeapStatus::Empty => self@.root_count() == 0,
                HeapStatus::SingleRoot(label) => {
                    &&& self@.root_count() == 1
                    &&& label@ == self@->Node_0
                },
                HeapStatus::MultiRoot => self@.root_count() >= 2,
            },
    {
        match self {
            Self::Empty => HeapStatus::Empty,
            Self::Node { label, sibling, .. } => {
                if sibling.is_node() {
                    proof {
                        assert(sibling@.root_count() >= 1);
                    }
                    HeapStatus::MultiRoot
                } else {
                    proof {
                        assert(sibling@.root_count() == 0);
                    }
                    HeapStatus::SingleRoot(label.as_str())
                }
            },
        }
    }
}

proof fn lemma_root_count_size(h: Lcrs)
    ensures
        h.root_count() <= h.size(),
        h is Node ==> h.root_count() >= 1,
    decreases h,
{
    match h {
        Lcrs::Node(_, _, s) => {
            lemma_root_count_size(*s);
        },
        Lcrs::Empty => {},
    }
}

/// Describes whether a node is a root, first child, or non-root right sibling.
#[derive(PartialEq, Eq, Debug)]
pub enum NodeType {
    Root,
    Child,
    Sibling,
}

/// Describes the position of a node in a heap (used for display).
#[derive(PartialEq, Eq, Debug)]
pub struct NodePosition {
    pub node_type: NodeType,
    pub is_last: bool,
}

/// A node with additional positional information for display.
pub struct Node<'a> {
    label: &'a str,
    child: &'a Heap,
    sibling: &'a Heap,
    pos: NodePosition,
}

/// Iterator type for iterating over node labels in pre-order.
pub struct PreOrderIter<'a> {
    stack: Vec<Node<'a>>,
}

/// The type of the siblings that follow a node of type `t`.
pub open spec fn sibling_type(t: NodeType) -> NodeType {
    match t {
        NodeType::Root => NodeType::Root,
        _ => NodeType::Sibling,
    }
}

/// Labels and positions of the nodes of `t` in pre-order, where the first
/// root of `t` has node type `ty`.
pub open spec fn pre_order(t: Lcrs, ty: NodeType) -> Seq<(Seq<char>, NodePosition)>
    decreases t,
{
    match t {
        Lcrs::Empty => Seq::empty(),
        Lcrs::Node(l, c, s) => seq![(l, NodePosition { node_type: ty, is_last: *s is Empty })]
            + pre_order(*c, NodeType::Child) + pre_order(*s, sibling_type(ty)),
    }
}

impl<'a> Node<'a> {
    pub closed spec fn items(&self) -> Seq<(Seq<char>, NodePosition)> {
        seq![(self.label@, self.pos)] + pre_order(self.child@, NodeType::Child)
            + pre_order(self.sibling@, sibling_type(self.pos.node_type))
    }
}

pub closed spec fn stack_items<'a>(stack: Seq<Node<'a>>) -> Seq<(Seq<char>, NodePosition)>
    decreases stack.len(),
{
    if stack.len() == 0 {
        Seq::empty()
    } else {
        stack.last().items() + stack_items(stack.drop_last())
    }
}

proof fn lemma_stack_push<'a>(stack: Seq<Node<'a>>, r: Node<'a>)
    ensures
        stack_items(stack.push(r)) == r.items() + stack_items(stack),
        stack_items(Seq::<Node<'a>>::empty()) == Seq::<(Seq<char>, NodePosition)>::empty(),
{
    assert(stack.push(r).drop_last() =~= stack);
}

impl<'a> PreOrderIter<'a> {
    /// The items that remain to be yielded.
    pub closed spec fn remaining(&self) -> Seq<(Seq<char>, NodePosition)> {
        stack_items(self.stack@)
    }

    /// Return the next label and position in pre-order.
    pub fn next(&mut self) -> (res: Option<(&'a str, NodePosition)>)
        ensures
            match res {
                None => old(self).remaining().len() == 0 && final(self).remaining() == old(self).remaining(),
                Some(item) => {
                    &&& old(self).remaining().len() > 0
                    &&& (item.0@, item.1) == old(self).remaining()[0]
                    &&& final(self).remaining() == old(self).remaining().drop_first()
                },
            },
    {
        let ghost old_stack = self.stack@;
        if let Some(node) = self.stack.pop() {
            let ghost top_ghost = node;
            let Node { label, child, sibling, pos } = node;
            let next_type = match pos.node_type {
                NodeType::Root => NodeType::Root,
                _ => NodeType::Sibling,
            };
            let ghost base = self.stack@;
            assert(base =~= old_stack.drop_last());
            proof {
                lemma_stack_push(base, top_ghost);
            }
            let ghost sib_items = pre_order(sibling@, sibling_type(pos.node_type));
            let ghost child_items = pre_order(child@, NodeType::Child);
            assert(next_type == sibling_type(pos.node_type));
            if let Some(node) = sibling.to_node(next_type) {
                proof {
                    lemma_stack_push(base, node);
                }
                self.stack.push(node);
            } else {
                assert(sib_items =~= Seq::empty());
                assert(stack_items(self.stack@) =~= sib_items + stack_items(base));
            }
            let ghost mid = self.stack@;
            if let Some(node) = child.to_node(NodeType::Child) {
                proof {
                    lemma_stack_push(mid, node);
                }
                self.stack.push(node);
            } else {
                assert(child_items =~= Seq::empty());
                assert(stack_items(self.stack@) =~= child_items + stack_items(mid));
            }
            proof {
                let rest = child_items + sib_items + stack_items(base);
                assert(old_stack =~= base.push(top_ghost));
                assert(stack_items(old_stack) =~= seq![(label@, pos)] + rest);
                assert(stack_items(self.stack@) =~= rest);
            }
            return Some((label, pos));
        }
        proof {
            assert(old_stack.len() == 0);
        }
        None
    }
}

impl Heap {
    /// Convert a Heap into a Node if non-empty.
    fn to_node<'a>(&'a self, node_type: NodeType) -> (res: Option<Node<'a>>)
        ensures
            match res {
                None => self@ is Empty,
                Some(r) => r.items() == pre_order(self@, node_type),
            },
    {
        match self {
            Heap::Empty => None,
            Heap::Node { label, child, sibling, .. } => {
                let is_last = !sibling.is_node();
                let pos = NodePosition { node_type, is_last };
                Some(Node { label: label.as_str(), child: &**child, sibling: &**sibling, pos })
            },
        }
    }

    /// Return an iterator over node labels in pre-order.
    pub fn iter(&self) -> (res: PreOrderIter<'_>)
        ensures
            res.remaining() == pre_order(self@, NodeType::Root),
    {
        let mut stack = Vec::new();
        if let Some(node) = self.to_node(NodeType::Root) {
            stack.push(node);
        }
        let res = PreOrderIter { stack };
        proof {
            if res.stack@.len() == 1 {
                lemma_stack_push(Seq::empty(), res.stack@.last());
                assert(res.stack@ =~= Seq::<Node>::empty().push(res.stack@.last()));
                assert(stack_items(res.stack@) =~= res.stack@.last().items());
            } else {
                assert(stack_items(res.stack@) =~= Seq::empty());
            }
        }
        res
    }
}

broadcast use vstd::seq_lib::lemma_multiset_commutative;

/// Merging the first two trees keeps every label and leaves one tree fewer;
/// with fewer than two trees nothing changes.
pub proof fn law_merge_pair(h: Lcrs, promote_first: bool)
    ensures
        merged_pair(h, promote_first).labels().to_multiset() == h.labels().to_multiset(),
        h.root_count() >= 2 ==> merged_pair(h, promote_first).root_count() == h.root_count() - 1,
        h.root_count() < 2 ==> merged_pair(h, promote_first) == h,
{
    match h {
        Lcrs::Node(l1, c1, s1) => match *s1 {
            Lcrs::Node(l2, c2, s2) => {
                let merged = if promote_first {
                    Lcrs::node(l1, Lcrs::node(l2, *c2, *c1), Lcrs::Empty)
                } else {
                    Lcrs::node(l2, Lcrs::node(l1, *c1, *c2), Lcrs::Empty)
                };
                lemma_concat(*s2, merged);
                lemma_concat_roots(*s2, merged);
                assert(s1.root_count() == 1 + s2.root_count());
                assert(h.root_count() == 2 + s2.root_count());
                lemma_node_labels(l1, *c1, *s1);
                lemma_node_labels(l2, *c2, *s2);
                lemma_node_labels(l2, *c2, *c1);
                lemma_node_labels(l1, *c1, *c2);
                lemma_node_labels(l1, Lcrs::node(l2, *c2, *c1), Lcrs::Empty);
                lemma_node_labels(l2, Lcrs::node(l1, *c1, *c2), Lcrs::Empty);
                assert(Lcrs::Empty.root_count() == 0);
                assert(merged.root_count() == 1);
                assert(h.labels() =~= seq![l1] + c1.labels() + (seq![l2] + c2.labels()) + s2.labels());
                if promote_first {
                    assert(merged.labels() =~= seq![l1] + (seq![l2] + c2.labels()) + c1.labels());
                } else {
                    assert(merged.labels() =~= seq![l2] + (seq![l1] + c1.labels()) + c2.labels());
                }
                assert(merged_pair(h, promote_first).labels().to_multiset() =~= h.labels().to_multiset());
            },
            Lcrs::Empty => {
                assert(Lcrs::Empty.root_count() == 0);
            },
        },
        Lcrs::Empty => {},
    }
}

/// Deleting the node at index `i` removes exactly its label from the
/// pre-order sequence (nothing changes when there is no node at `i`).
pub proof fn law_delete(h: Lcrs, i: nat)
    ensures
        deleted(h, i).labels() == if i < h.size() {
            h.labels().remove(i as int)
        } else {
            h.labels()
        },
{
    lemma_focus_at(h, i);
    let z = focus_at(h, i);
    if i < h.size() {
        match z.focus {
            Lcrs::Node(l, c, s) => {
                lemma_concat(*c, *s);
                lemma_node_labels(l, *c, *s);
                lemma_labels_plug(z.path, z.focus);
                lemma_labels_plug(z.path, c.concat(*s));
                assert(deleted(h, i).labels() =~= h.labels().remove(i as int));
            },
            Lcrs::Empty => {},
        }
    }
}

/// Iterating yields the labels of the heap in pre-order.
pub proof fn law_iter_labels(t: Lcrs, ty: NodeType)
    ensures
        pre_order(t, ty).map_values(|x: (Seq<char>, NodePosition)| x.0) == t.labels(),
    decreases t,
{
    match t {
        Lcrs::Empty => {
            assert(pre_order(t, ty).map_values(|x: (Seq<char>, NodePosition)| x.0) =~= t.labels());
        },
        Lcrs::Node(l, c, s) => {
            law_iter_labels(*c, NodeType::Child);
            law_iter_labels(*s, sibling_type(ty));
            assert(pre_order(t, ty).map_values(|x: (Seq<char>, NodePosition)| x.0) =~= t.labels());
        },
    }
}

} // verus!
