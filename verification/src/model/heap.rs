use vstd::prelude::*;

use crate::heap::deleted;
use crate::lcrs::{
    Lcrs, Step, Zip, focus_at, plug, descend, lemma_concat, lemma_concat_empty,
    lemma_plug_bound, lemma_plug_descend, lemma_plug_push, lemma_size_labels, lemma_size_plug,
};

verus! {

/// A node in a left-child right-sibling binary tree containing a string.
///
/// This represents an ordered forest of multi-way trees, where each node can
/// have any number of children and siblings (the roots are siblings of each
/// other).  `size` is the number of nodes in a node's (binary) subtree.
/// When referring to a forest, "the root" is the root of its left-most tree,
/// which is also the root node of its binary tree representation.
#[derive(PartialEq, Eq, Debug)]
pub enum Heap {
    Empty,
    Node { label: String, child: Box<Heap>, sibling: Box<Heap>, size: usize },
}

/// The direction taken through a node in a path through a heap.
pub enum Direction {
    Child { label: String, sibling: Heap },
    Sibling { label: String, child: Heap },
}

/// A path to a subheap within a heap.
pub struct PathToSubheap {
    pub path: Vec<Direction>,
    pub subheap: Heap,
}

/// The number of roots in a heap (zero, one, or multiple).
///
/// When there is one root, a reference to its label is included.
pub enum HeapStatus<'a> {
    Empty,
    SingleRoot(&'a str),
    MultiRoot,
}

impl View for Heap {
    type V = Lcrs;

    open spec fn view(&self) -> Lcrs {
        self.model()
    }
}

impl Heap {
    /// The forest that this binary tree encodes.
    pub open spec fn model(&self) -> Lcrs
        decreases self,
    {
        match self {
            Heap::Empty => Lcrs::Empty,
            Heap::Node { label, child, sibling, .. } => Lcrs::node(
                label@,
                child.model(),
                sibling.model(),
            ),
        }
    }

    /// Every stored `size` is the number of nodes of its binary subtree.
    pub open spec fn wf(&self) -> bool
        decreases self,
    {
        match self {
            Heap::Empty => true,
            Heap::Node { child, sibling, size, .. } => {
                &&& child.wf()
                &&& sibling.wf()
                &&& *size == 1 + child.model().size() + sibling.model().size()
            },
        }
    }
}

impl Direction {
    pub open spec fn step(&self) -> Step {
        match self {
            Direction::Child { label, sibling } => Step::Down(label@, sibling@),
            Direction::Sibling { label, child } => Step::Right(label@, child@),
        }
    }

    pub open spec fn wf(&self) -> bool {
        match self {
            Direction::Child { sibling, .. } => sibling.wf(),
            Direction::Sibling { child, .. } => child.wf(),
        }
    }
}

/// The steps of a path of directions.
pub open spec fn steps(path: Seq<Direction>) -> Seq<Step> {
    path.map_values(|d: Direction| d.step())
}

impl View for PathToSubheap {
    type V = Zip;

    open spec fn view(&self) -> Zip {
        Zip { path: steps(self.path@), focus: self.subheap@ }
    }
}

impl PathToSubheap {
    pub open spec fn wf(&self) -> bool {
        &&& forall|k: int| 0 <= k < self.path@.len() ==> (#[trigger] self.path@[k]).wf()
        &&& self.subheap.wf()
        &&& plug(self@.path, self@.focus).size() <= usize::MAX
    }
}

proof fn lemma_steps_push(path: Seq<Direction>, d: Direction)
    ensures
        steps(path.push(d)) == steps(path).push(d.step()),
        steps(path.push(d)).drop_last() == steps(path),
{
    assert(steps(path.push(d)) =~= steps(path).push(d.step()));
    assert(steps(path).push(d.step()).drop_last() =~= steps(path));
}

/// Return a path to the subheap at the pre-order `index` in the `heap`.
///
/// If the index is invalid, a path to an empty sub-heap is returned.
pub fn find_subheap(heap: Heap, index: usize) -> (res: PathToSubheap)
    requires
        heap.wf(),
    ensures
        res.wf(),
        res@ == focus_at(heap@, index as nat),
{
    let ghost whole = heap@;
    let mut i = index;
    let mut path: Vec<Direction> = Vec::new();
    let mut current_heap = heap;
    proof {
        assert(steps(path@) =~= Seq::<Step>::empty());
    }
    while i > 0 && current_heap.is_node()
        invariant
            current_heap.wf(),
            forall|k: int| 0 <= k < path@.len() ==> (#[trigger] path@[k]).wf(),
            descend(current_heap@, i as nat, steps(path@)) == focus_at(whole, index as nat),
            plug(steps(path@), current_heap@) == whole,
            whole.size() <= usize::MAX,
            whole == heap@,
        decreases i,
    {
        proof {
            lemma_size_labels(whole);
        }
        match current_heap {
            Heap::Node { label, child, sibling, .. } => {
                if i <= child.size() {
                    i -= 1;
                    let d = Direction::Child { label, sibling: *sibling };
                    proof {
                        lemma_steps_push(path@, d);
                        lemma_plug_push(steps(path@), d.step(), child@);
                    }
                    path.push(d);
                    current_heap = *child;
                } else {
                    i -= 1 + child.size();
                    let d = Direction::Sibling { label, child: *child };
                    proof {
                        lemma_steps_push(path@, d);
                        lemma_plug_push(steps(path@), d.step(), sibling@);
                    }
                    path.push(d);
                    current_heap = *sibling;
                }
            },
            Heap::Empty => {
                current_heap = Heap::Empty;
            },
        }
    }
    proof {
        lemma_size_labels(whole);
    }
    PathToSubheap { path, subheap: current_heap }
}

/// Reconstruct a heap given a path to a subheap.
pub fn reconstruct_heap(path_to_subheap: PathToSubheap) -> (res: Heap)
    requires
        path_to_subheap.wf(),
    ensures
        res.wf(),
        res@ == plug(path_to_subheap@.path, path_to_subheap@.focus),
{
    let ghost whole = plug(path_to_subheap@.path, path_to_subheap@.focus);
    let PathToSubheap { mut path, subheap } = path_to_subheap;
    let mut current_heap = subheap;
    while path.len() > 0
        invariant
            current_heap.wf(),
            forall|k: int| 0 <= k < path@.len() ==> (#[trigger] path@[k]).wf(),
            plug(steps(path@), current_heap@) == whole,
            whole.size() <= usize::MAX,
        decreases path.len(),
    {
        let ghost before_pop = path@;
        let direction = path.pop().unwrap();
        proof {
            assert(before_pop =~= path@.push(direction));
            lemma_steps_push(path@, direction);
            lemma_plug_push(steps(path@), direction.step(), current_heap@);
            assert(direction.wf());
        }
        current_heap = match direction {
            Direction::Child { label, sibling } => {
                proof {
                    lemma_plug_bound(steps(path@), Lcrs::node(label@, current_heap@, sibling@));
                }
                Heap::new(label, current_heap, sibling)
            },
            Direction::Sibling { label, child } => {
                proof {
                    lemma_plug_bound(steps(path@), Lcrs::node(label@, child@, current_heap@));
                }
                Heap::new(label, child, current_heap)
            },
        };
    }
    proof {
        assert(steps(path@) =~= Seq::<Step>::empty());
    }
    current_heap
}

/// Concatenate two heaps, making their roots siblings.
pub fn concat(left_heap: Heap, right_heap: Heap) -> (res: Heap)
    requires
        left_heap.wf(),
        right_heap.wf(),
        left_heap@.size() + right_heap@.size() <= usize::MAX,
    ensures
        res.wf(),
        res@ == left_heap@.concat(right_heap@),
{
    if !right_heap.is_node() {
        proof {
            lemma_concat_empty(left_heap@);
        }
        return left_heap;
    }
    let ghost target = left_heap@.concat(right_heap@);
    proof {
        lemma_concat(left_heap@, right_heap@);
    }
    let mut path: Vec<Direction> = Vec::new();
    let mut current_heap = left_heap;
    proof {
        assert(steps(path@) =~= Seq::<Step>::empty());
    }
    loop
        invariant
            current_heap.wf(),
            right_heap.wf(),
            forall|k: int| 0 <= k < path@.len() ==> (#[trigger] path@[k]).wf(),
            plug(steps(path@), current_heap@.concat(right_heap@)) == target,
            target.size() <= usize::MAX,
        ensures
            current_heap@ is Empty,
            forall|k: int| 0 <= k < path@.len() ==> (#[trigger] path@[k]).wf(),
            plug(steps(path@), current_heap@.concat(right_heap@)) == target,
        decreases current_heap@,
    {
        match current_heap {
            Heap::Node { label, child, sibling, .. } => {
                let d = Direction::Sibling { label, child: *child };
                proof {
                    lemma_steps_push(path@, d);
                    lemma_plug_push(steps(path@), d.step(), sibling@.concat(right_heap@));
                }
                path.push(d);
                current_heap = *sibling;
            },
            Heap::Empty => {
                current_heap = Heap::Empty;
                break;
            },
        }
    }
    let new_heap = PathToSubheap { path, subheap: right_heap };
    reconstruct_heap(new_heap)
}

impl Heap {
    /// Construct a heap given the `label`, `child`, and `sibling` of its root.
    pub fn new(label: String, child: Self, sibling: Self) -> (res: Self)
        requires
            child.wf(),
            sibling.wf(),
            1 + child@.size() + sibling@.size() <= usize::MAX,
        ensures
            res.wf(),
            res@ == Lcrs::node(label@, child@, sibling@),
    {
        let size = 1 + child.size() + sibling.size();
        Self::Node { label, child: Box::new(child), sibling: Box::new(sibling), size }
    }

    /// Whether this is a node rather than the empty heap.
    pub fn is_node(&self) -> (res: bool)
        ensures
            res == (self@ is Node),
    {
        match self {
            Heap::Empty => false,
            Heap::Node { .. } => true,
        }
    }

    /// Return the number of nodes in the heap.
    pub fn size(&self) -> (res: usize)
        requires
            self.wf(),
        ensures
            res == self@.size(),
    {
        match self {
            Self::Empty => 0,
            Self::Node { size, .. } => *size,
        }
    }

    /// Insert a node with the given `label` before the first tree in the heap.
    pub fn prepend(self, label: String) -> (res: Self)
        requires
            self.wf(),
            self@.size() < usize::MAX,
        ensures
            res.wf(),
            res@ == Lcrs::node(label@, Lcrs::Empty, self@),
    {
        Self::new(label, Self::Empty, self)
    }

    /// Delete the node with the pre-order `index` from the heap.
    pub fn delete(self, index: usize) -> (res: Self)
        requires
            self.wf(),
        ensures
            res.wf(),
            res@ == deleted(self@, index as nat),
    {
        proof {
            lemma_plug_descend(self@, index as nat, Seq::empty());
        }
        let PathToSubheap { path, subheap } = find_subheap(self, index);
        let ghost z = Zip { path: steps(path@), focus: subheap@ };
        let new_subheap = match subheap {
            Self::Node { child, sibling, .. } => {
                proof {
                    lemma_concat(child@, sibling@);
                    lemma_plug_bound(z.path, z.focus);
                    lemma_size_plug(z.path, z.focus);
                    lemma_size_plug(z.path, child@.concat(sibling@));
                }
                concat(*child, *sibling)
            },
            Self::Empty => Self::Empty,
        };
        let new_heap = PathToSubheap { path, subheap: new_subheap };
        reconstruct_heap(new_heap)
    }

    /// Return the status of the heap (if there is one root, include its label).
    pub fn status(&self) -> (res: HeapStatus<'_>)
        ensures
            match res {
                HeapStatus::Empty => self@.root_count() == 0,
                HeapStatus::SingleRoot(label) => {
                    &&& self@.root_count() == 1
                    &&& label@ == self@->Node_0
                },
                HeapStatus::MultiRoot => self@.root_count() >= 2,
            },
    {
        match self {
            Self::Empty => HeapStatus::Empty,
            Self::Node { label, sibling, .. } => {
                if sibling.is_node() {
                    proof {
                        assert(sibling@.root_count() >= 1);
                    }
                    HeapStatus::MultiRoot
                } else {
                    proof {
                        assert(sibling@.root_count() == 0);
                    }
                    HeapStatus::SingleRoot(label.as_str())
                }
            },
        }
    }
}


/// Iterator type for iterating over a heap's labels in pre-order.
pub struct PreOrderIter<'a> {
    stack: Vec<&'a Heap>,
}

/// The labels of a stack of heaps, top of the stack first.
pub closed spec fn stack_labels<'a>(stack: Seq<&'a Heap>) -> Seq<Seq<char>>
    decreases stack.len(),
{
    if stack.len() == 0 {
        Seq::empty()
    } else {
        stack.last()@.labels() + stack_labels(stack.drop_last())
    }
}

proof fn lemma_stack_push<'a>(stack: Seq<&'a Heap>, h: &'a Heap)
    ensures
        stack_labels(stack.push(h)) == h@.labels() + stack_labels(stack),
{
    assert(stack.push(h).drop_last() =~= stack);
}

impl<'a> PreOrderIter<'a> {
    /// The labels that remain to be yielded.
    pub closed spec fn remaining(&self) -> Seq<Seq<char>> {
        stack_labels(self.stack@)
    }

    /// Return the next label in pre-order.
    pub fn next(&mut self) -> (res: Option<&'a str>)
        ensures
            match res {
                None => old(self).remaining().len() == 0,
                Some(label) => {
                    &&& old(self).remaining().len() > 0
                    &&& label@ == old(self).remaining()[0]
                    &&& final(self).remaining() == old(self).remaining().drop_first()
                },
            },
    {
        let ghost start = self.remaining();
        while self.stack.len() > 0
            invariant
                self.remaining() == start,
                start == old(self).remaining(),
            decreases self.stack@.len(),
        {
            let ghost before_pop = self.stack@;
            let heap = self.stack.pop().unwrap();
            proof {
                assert(before_pop =~= self.stack@.push(heap));
                lemma_stack_push(self.stack@, heap);
            }
            match heap {
                Heap::Empty => {},
                Heap::Node { label, child, sibling, .. } => {
                    let ghost base = self.stack@;
                    proof {
                        lemma_stack_push(base, &**sibling);
                        lemma_stack_push(base.push(&**sibling), &**child);
                    }
                    self.stack.push(&**sibling);
                    self.stack.push(&**child);
                    proof {
                        assert(start =~= seq![label@] + self.remaining());
                    }
                    return Some(label.as_str());
                },
            }
        }
        proof {
            assert(self.stack@.len() == 0);
        }
        None
    }
}

impl Heap {
    /// Return an iterator over the heap's labels in pre-order.
    pub fn iter(&self) -> (res: PreOrderIter<'_>)
        ensures
            res.remaining() == self@.labels(),
    {
        let res = PreOrderIter { stack: vec![self] };
        proof {
            lemma_stack_push(Seq::empty(), self);
            assert(res.stack@ =~= Seq::<&Heap>::empty().push(self));
            assert(self@.labels() + Seq::<Seq<char>>::empty() =~= self@.labels());
        }
        res
    }
}

} // verus!
