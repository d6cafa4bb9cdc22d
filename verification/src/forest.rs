pub mod laws;
pub mod ops;

use vstd::prelude::*;

use crate::lcrs::{
    Lcrs, Step, Zip, after, before, descend, focus_at, plug, step_before, wrap,
    lemma_concat, lemma_concat_empty, lemma_plug_bound, lemma_plug_descend, lemma_plug_push, lemma_plug_same_size, lemma_size_labels,
    lemma_size_plug,
};

verus! {

/// A node in a left-child right-sibling binary tree, containing a string.
///
/// The `size` field stores the size of the node's binary subtree.
/// The binary tree represents a forest of multi-way trees, where each node can
/// have any number of children and siblings (the roots are siblings).
#[derive(PartialEq, Eq, Debug)]
pub enum Node {
    Empty,
    Node { label: String, child: Box<Node>, sibling: Box<Node>, size: usize },
}

/// A node in the path from the focused node to the root.
#[derive(PartialEq, Eq, Debug)]
pub enum ReturnNode {
    Parent { label: String, prev: Box<ReturnNode>, sibling: Node },
    Sibling { label: String, prev: Box<ReturnNode>, child: Node },
    Empty,
}

/// Zipper representation of a forest focused on a node.
#[derive(PartialEq, Eq, Debug)]
pub struct ForestZipper {
    pub focus: Node,
    pub prev: ReturnNode,
}

/// The root of a single tree.
pub enum Tree {
    Root { label: String, child: Node },
    Empty,
}

impl View for Node {
    type V = Lcrs;

    open spec fn view(&self) -> Lcrs {
        self.model()
    }
}

impl Node {
    /// The forest that this binary tree encodes.
    pub open spec fn model(&self) -> Lcrs
        decreases self,
    {
        match self {
            Node::Empty => Lcrs::Empty,
            Node::Node { label, child, sibling, .. } => Lcrs::node(
                label@,
                child.model(),
                sibling.model(),
            ),
        }
    }

    /// Every stored `size` is the number of nodes of its binary subtree.
    pub open spec fn wf(&self) -> bool
        decreases self,
    {
        match self {
            Node::Empty => true,
            Node::Node { child, sibling, size, .. } => {
                &&& child.wf()
                &&& sibling.wf()
                &&& *size == 1 + child.model().size() + sibling.model().size()
            },
        }
    }
}

impl ReturnNode {
    /// The path from the top of the forest down to the focus.
    pub open spec fn path(&self) -> Seq<Step>
        decreases self,
    {
        match self {
            ReturnNode::Parent { label, prev, sibling } => prev.path().push(
                Step::Down(label@, sibling.model()),
            ),
            ReturnNode::Sibling { label, prev, child } => prev.path().push(
                Step::Right(label@, child.model()),
            ),
            ReturnNode::Empty => Seq::empty(),
        }
    }

    pub open spec fn wf(&self) -> bool
        decreases self,
    {
        match self {
            ReturnNode::Parent { prev, sibling, .. } => prev.wf() && sibling.wf(),
            ReturnNode::Sibling { prev, child, .. } => prev.wf() && child.wf(),
            ReturnNode::Empty => true,
        }
    }
}

impl View for ForestZipper {
    type V = Zip;

    open spec fn view(&self) -> Zip {
        Zip { path: self.prev.path(), focus: self.focus@ }
    }
}

impl ForestZipper {
    pub open spec fn wf(&self) -> bool {
        &&& self.focus.wf()
        &&& self.prev.wf()
        &&& plug(self@.path, self@.focus).size() <= usize::MAX
    }
}

impl View for Tree {
    type V = Option<(Seq<char>, Lcrs)>;

    open spec fn view(&self) -> Option<(Seq<char>, Lcrs)> {
        match self {
            Tree::Root { label, child } => Some((label@, child@)),
            Tree::Empty => None,
        }
    }
}

/// The forest that a zipper represents.
pub open spec fn restored(z: Zip) -> Lcrs {
    plug(z.path, z.focus)
}

/// The pre-order index of a zipper's focus within the forest.
pub open spec fn focus_index(z: Zip) -> nat {
    before(z.path).len()
}

/// The forest and focus index after an operation on the zipper.
pub open spec fn restored_with_index(z: Zip) -> (Lcrs, nat) {
    (restored(z), focus_index(z))
}

/// Swap the focused subtree with its next sibling.
pub open spec fn zip_move_forward(z: Zip) -> Zip {
    match z.focus {
        Lcrs::Node(l, c, s) => match *s {
            Lcrs::Node(l2, c2, s2) => Zip {
                path: z.path.push(Step::Right(l2, *c2)),
                focus: Lcrs::node(l, *c, *s2),
            },
            Lcrs::Empty => z,
        },
        Lcrs::Empty => z,
    }
}

/// Swap the focused subtree with its previous sibling.
pub open spec fn zip_move_backward(z: Zip) -> Zip {
    if z.path.len() > 0 {
        match z.path.last() {
            Step::Right(l, c) => match z.focus {
                Lcrs::Node(l2, c2, s2) => Zip {
                    path: z.path.drop_last(),
                    focus: Lcrs::node(l2, *c2, Lcrs::node(l, c, *s2)),
                },
                Lcrs::Empty => z,
            },
            Step::Down(_, _) => z,
        }
    } else {
        z
    }
}

/// Remove the focused tree, leaving its next siblings in focus.
pub open spec fn zip_extract(z: Zip) -> (Zip, Option<(Seq<char>, Lcrs)>) {
    match z.focus {
        Lcrs::Node(l, c, s) => (Zip { path: z.path, focus: *s }, Some((l, *c))),
        Lcrs::Empty => (z, None),
    }
}

/// Climb over previous siblings; place the tree `(rl, rc)` right after the
/// parent, or first in the forest if there is no parent.
pub open spec fn promote_up(path: Seq<Step>, f: Lcrs, rl: Seq<char>, rc: Lcrs) -> Zip
    decreases path.len(),
{
    if path.len() == 0 {
        Zip { path, focus: Lcrs::node(rl, rc, f) }
    } else {
        match path.last() {
            Step::Right(l, c) => promote_up(path.drop_last(), Lcrs::node(l, c, f), rl, rc),
            Step::Down(l, s) => Zip {
                path: path.drop_last().push(Step::Right(l, f)),
                focus: Lcrs::node(rl, rc, s),
            },
        }
    }
}

/// Move the focused tree to be its parent's next sibling (or the first tree).
pub open spec fn zip_promote(z: Zip) -> Zip {
    match z.focus {
        Lcrs::Node(l, c, s) => promote_up(z.path, *s, l, *c),
        Lcrs::Empty => z,
    }
}

/// Extend `path` through the whole sibling chain `chain`.
pub open spec fn along_siblings(path: Seq<Step>, chain: Lcrs) -> Seq<Step>
    decreases chain,
{
    match chain {
        Lcrs::Empty => path,
        Lcrs::Node(l, c, s) => along_siblings(path.push(Step::Right(l, *c)), *s),
    }
}

/// Move the focused tree to be its previous sibling's last child.
pub open spec fn zip_demote(z: Zip) -> Zip {
    match z.focus {
        Lcrs::Node(rl, rc, rest) => {
            if z.path.len() > 0 {
                match z.path.last() {
                    Step::Right(l, c) => Zip {
                        path: along_siblings(z.path.drop_last().push(Step::Down(l, *rest)), c),
                        focus: Lcrs::node(rl, *rc, Lcrs::Empty),
                    },
                    Step::Down(_, _) => z,
                }
            } else {
                z
            }
        },
        Lcrs::Empty => z,
    }
}

/// Climb over previous siblings, so the focus is the first of its siblings.
pub open spec fn up_siblings(path: Seq<Step>, f: Lcrs) -> Zip
    decreases path.len(),
{
    if path.len() > 0 {
        match path.last() {
            Step::Right(l, c) => up_siblings(path.drop_last(), Lcrs::node(l, c, f)),
            Step::Down(_, _) => Zip { path, focus: f },
        }
    } else {
        Zip { path, focus: f }
    }
}

/// Make all siblings of the focused node (and its children) its children.
pub open spec fn zip_raise(z: Zip) -> Zip {
    match z.focus {
        Lcrs::Node(l, c, s) => {
            let u = up_siblings(z.path, c.concat(*s));
            Zip { path: u.path, focus: Lcrs::node(l, u.focus, Lcrs::Empty) }
        },
        Lcrs::Empty => z,
    }
}

/// Make the children of the focused node its next siblings.
pub open spec fn zip_flatten(z: Zip) -> Zip {
    match z.focus {
        Lcrs::Node(l, c, s) => Zip { path: z.path, focus: Lcrs::node(l, Lcrs::Empty, c.concat(*s)) },
        Lcrs::Empty => z,
    }
}

/// Put a new node labelled `label` in place of the focused node, which
/// becomes its only child.
pub open spec fn zip_insert_parent(z: Zip, label: Seq<char>) -> Zip {
    match z.focus {
        Lcrs::Node(l, c, s) => Zip {
            path: z.path,
            focus: Lcrs::node(label, Lcrs::node(l, *c, Lcrs::Empty), *s),
        },
        Lcrs::Empty => z,
    }
}

/// Remove the focused node; its children take its place.
pub open spec fn zip_delete(z: Zip) -> Zip {
    match z.focus {
        Lcrs::Node(_, c, s) => Zip { path: z.path, focus: c.concat(*s) },
        Lcrs::Empty => z,
    }
}

/// Replace the label of the focused node.
pub open spec fn zip_set_label(z: Zip, label: Seq<char>) -> Zip {
    match z.focus {
        Lcrs::Node(_, c, s) => Zip { path: z.path, focus: Lcrs::node(label, *c, *s) },
        Lcrs::Empty => z,
    }
}

impl Node {
    /// Construct a node given the `label`, `child`, and `sibling` of its root.
    pub fn new(label: String, child: Self, sibling: Self) -> (res: Self)
        requires
            child.wf(),
            sibling.wf(),
            1 + child@.size() + sibling@.size() <= usize::MAX,
        ensures
            res.wf(),
            res@ == Lcrs::node(label@, child@, sibling@),
    {
        let size = 1 + child.size() + sibling.size();
        Self::Node { label, child: Box::new(child), sibling: Box::new(sibling), size }
    }

    /// Return the number of nodes in the forest.
    pub fn size(&self) -> (res: usize)
        requires
            self.wf(),
        ensures
            res == self@.size(),
    {
        match self {
            Self::Empty => 0,
            Self::Node { size, .. } => *size,
        }
    }
}

impl Clone for Node {
    fn clone(&self) -> (res: Self)
        ensures
            res == *self,
        decreases self,
    {
        match self {
            Node::Empty => Node::Empty,
            Node::Node { label, child, sibling, size } => {
                let child = (**child).clone();
                let sibling = (**sibling).clone();
                Node::Node {
                    label: label.clone(),
                    child: Box::new(child),
                    sibling: Box::new(sibling),
                    size: *size,
                }
            },
        }
    }
}

impl ReturnNode {
    pub fn new_parent(label: String, prev: Self, sibling: Node) -> (res: Self)
        requires
            prev.wf(),
            sibling.wf(),
        ensures
            res.wf(),
            res.path() == prev.path().push(Step::Down(label@, sibling@)),
    {
        Self::Parent { label, prev: Box::new(prev), sibling }
    }

    pub fn new_sibling(label: String, prev: Self, child: Node) -> (res: Self)
        requires
            prev.wf(),
            child.wf(),
        ensures
            res.wf(),
            res.path() == prev.path().push(Step::Right(label@, child@)),
    {
        Self::Sibling { label, prev: Box::new(prev), child }
    }
}

pub proof fn lemma_promote_up_size(path: Seq<Step>, f: Lcrs, rl: Seq<char>, rc: Lcrs)
    ensures
        restored(promote_up(path, f, rl, rc)).size() == plug(path, f).size() + 1 + rc.size(),
    decreases path.len(),
{
    if path.len() == 0 {
    } else {
        let p = path.drop_last();
        lemma_plug_push(p, path.last(), f);
        assert(p.push(path.last()) =~= path);
        match path.last() {
            Step::Right(l, c) => {
                lemma_promote_up_size(p, Lcrs::node(l, c, f), rl, rc);
            },
            Step::Down(l, s) => {
                assert(Lcrs::node(rl, rc, s).size() == 1 + rc.size() + s.size());
                lemma_plug_push(p, Step::Right(l, f), Lcrs::node(rl, rc, s));
                lemma_size_plug(p, Lcrs::node(l, f, s));
                lemma_size_plug(p, Lcrs::node(l, f, Lcrs::node(rl, rc, s)));
            },
        }
    }
}

pub proof fn lemma_along_siblings(path: Seq<Step>, chain: Lcrs, g: Lcrs)
    ensures
        plug(along_siblings(path, chain), g) == plug(path, chain.concat(g)),
    decreases chain,
{
    match chain {
        Lcrs::Empty => {},
        Lcrs::Node(l, c, s) => {
            lemma_along_siblings(path.push(Step::Right(l, *c)), *s, g);
            lemma_plug_push(path, Step::Right(l, *c), s.concat(g));
        },
    }
}

pub proof fn lemma_up_siblings(path: Seq<Step>, f: Lcrs)
    ensures
        restored(up_siblings(path, f)) == plug(path, f),
    decreases path.len(),
{
    if path.len() > 0 {
        let p = path.drop_last();
        assert(p.push(path.last()) =~= path);
        lemma_plug_push(p, path.last(), f);
        match path.last() {
            Step::Right(l, c) => {
                lemma_up_siblings(p, Lcrs::node(l, c, f));
            },
            Step::Down(_, _) => {},
        }
    }
}

impl Node {
    /// Return a zipper focused on the node of pre-order `index` in the forest.
    /// If the index is invalid, the zipper is focused on the empty sub-forest
    /// at the end of the forest's roots.
    pub fn focus_node(self, index: usize) -> (res: ForestZipper)
        requires
            self.wf(),
        ensures
            res.wf(),
            res@ == focus_at(self@, index as nat),
    {
        let ghost whole = self@;
        let mut i = index;
        let mut focus = self;
        let mut prev = ReturnNode::Empty;
        proof {
            assert(prev.path() =~= Seq::<Step>::empty());
        }
        while i > 0 && focus.is_node()
            invariant
                focus.wf(),
                prev.wf(),
                descend(focus@, i as nat, prev.path()) == focus_at(whole, index as nat),
                plug(prev.path(), focus@) == whole,
                whole.size() <= usize::MAX,
            decreases i,
        {
            proof {
                lemma_size_labels(whole);
            }
            match focus {
                Node::Node { label, child, sibling, .. } => {
                    proof {
                        lemma_plug_push(prev.path(), Step::Down(label@, sibling@), child@);
                        lemma_plug_push(prev.path(), Step::Right(label@, child@), sibling@);
                    }
                    if i <= child.size() {
                        i -= 1;
                        focus = *child;
                        prev = ReturnNode::new_parent(label, prev, *sibling);
                    } else {
                        i -= 1 + child.size();
                        focus = *sibling;
                        prev = ReturnNode::new_sibling(label, prev, *child);
                    }
                },
                Node::Empty => {
                    focus = Node::Empty;
                },
            }
        }
        proof {
            lemma_size_labels(whole);
        }
        ForestZipper { focus, prev }
    }

    /// Whether this is a node rather than the empty forest.
    pub fn is_node(&self) -> (res: bool)
        ensures
            res == (self@ is Node),
    {
        match self {
            Node::Empty => false,
            Node::Node { .. } => true,
        }
    }

    /// Return the label at pre-order `index` (panic if invalid).
    pub fn find_label(&self, index: usize) -> (res: String)
        requires
            self.wf(),
            index < self@.size(),
        ensures
            res@ == self@.labels()[index as int],
    {
        let mut i = index;
        let mut node = self;
        while i > 0
            invariant
                node.wf(),
                i < node@.size(),
                node@.labels()[i as int] == self@.labels()[index as int],
            decreases i,
        {
            match node {
                Node::Node { child, sibling, .. } => {
                    proof {
                        lemma_size_labels(child@);
                        lemma_size_labels(sibling@);
                    }
                    if i <= child.size() {
                        i -= 1;
                        node = &**child;
                    } else {
                        i -= 1 + child.size();
                        node = &**sibling;
                    }
                },
                Node::Empty => {
                    assert(false);
                },
            }
        }
        match node {
            Node::Node { label, .. } => label.clone(),
            Node::Empty => {
                assert(false);
                String::new()
            },
        }
    }
}

impl ForestZipper {
    /// Restore the zipper's corresponding forest.
    pub fn restore(self) -> (res: Node)
        requires
            self.wf(),
        ensures
            res.wf(),
            res@ == restored(self@),
    {
        let ghost whole = restored(self@);
        let ForestZipper { mut focus, mut prev } = self;
        loop
            invariant
                focus.wf(),
                prev.wf(),
                plug(prev.path(), focus@) == whole,
                whole == restored(self@),
                whole.size() <= usize::MAX,
            decreases prev.path().len(),
        {
            let ghost cur = prev;
            prev = match prev {
                ReturnNode::Parent { label, prev, sibling } => {
                    proof {
                        lemma_plug_push(prev.path(), Step::Down(label@, sibling@), focus@);
                        lemma_plug_bound(prev.path(), Lcrs::node(label@, focus@, sibling@));
                    }
                    focus = Node::new(label, focus, sibling);
                    *prev
                },
                ReturnNode::Sibling { label, prev, child } => {
                    proof {
                        lemma_plug_push(prev.path(), Step::Right(label@, child@), focus@);
                        lemma_plug_bound(prev.path(), Lcrs::node(label@, child@, focus@));
                    }
                    focus = Node::new(label, child, focus);
                    *prev
                },
                ReturnNode::Empty => {
                    assert(cur.path() =~= Seq::empty());
                    assert(plug(Seq::empty(), focus@) == focus@);
                    return focus;
                },
            }
        }
    }

    /// Restore the forest and return the focused node's pre-order index.
    pub fn restore_with_index(self) -> (res: (Node, usize))
        requires
            self.wf(),
        ensures
            res.0.wf(),
            (res.0@, res.1 as nat) == restored_with_index(self@),
    {
        let ghost whole = restored(self@);
        let ghost idx = focus_index(self@);
        let ForestZipper { mut focus, mut prev } = self;
        let mut i: usize = 0;
        proof {
            lemma_plug_bound(prev.path(), focus@);
        }
        loop
            invariant
                focus.wf(),
                prev.wf(),
                plug(prev.path(), focus@) == whole,
                whole.size() <= usize::MAX,
                i + before(prev.path()).len() == idx,
                whole == restored(self@),
                idx == focus_index(self@),
                idx <= whole.size(),
            decreases prev.path().len(),
        {
            let ghost cur = prev;
            prev = match prev {
                ReturnNode::Parent { label, prev, sibling } => {
                    proof {
                        lemma_plug_push(prev.path(), Step::Down(label@, sibling@), focus@);
                        lemma_plug_bound(prev.path(), Lcrs::node(label@, focus@, sibling@));
                    }
                    i += 1;
                    focus = Node::new(label, focus, sibling);
                    *prev
                },
                ReturnNode::Sibling { label, prev, child } => {
                    proof {
                        lemma_plug_push(prev.path(), Step::Right(label@, child@), focus@);
                        lemma_plug_bound(prev.path(), Lcrs::node(label@, child@, focus@));
                        lemma_size_labels(child@);
                    }
                    i += 1 + child.size();
                    focus = Node::new(label, child, focus);
                    *prev
                },
                ReturnNode::Empty => {
                    assert(cur.path() =~= Seq::empty());
                    assert(plug(Seq::empty(), focus@) == focus@);
                    assert(before(Seq::empty()).len() == 0);
                    return (focus, i);
                },
            }
        }
    }
}

impl ForestZipper {
    /// Swap the focused node's subtree with its next sibling (if present).
    pub fn move_forward(self) -> (res: Self)
        requires
            self.wf(),
        ensures
            res.wf(),
            res@ == zip_move_forward(self@),
    {
        let ghost z = self@;
        let ForestZipper { focus, prev } = self;
        match focus {
            Node::Node { label, child, sibling, .. } => match *sibling {
                Node::Node { label: label2, child: child2, sibling: sibling2, .. } => {
                    proof {
                        assert(sibling.wf());
                        assert(sibling@.size() == 1 + child2@.size() + sibling2@.size());
                        let f = Lcrs::node(label@, child@, sibling2@);
                        assert(f.size() == 1 + child@.size() + sibling2@.size());
                        lemma_plug_push(prev.path(), Step::Right(label2@, child2@), f);
                        lemma_plug_same_size(prev.path(), Lcrs::node(label2@, child2@, f), z.focus);
                        lemma_plug_bound(prev.path(), z.focus);
                    }
                    let focus = Node::new(label, *child, *sibling2);
                    let prev = ReturnNode::new_sibling(label2, prev, *child2);
                    ForestZipper { focus, prev }
                },
                Node::Empty => {
                    proof {
                        lemma_plug_bound(prev.path(), z.focus);
                    }
                    ForestZipper { focus: Node::new(label, *child, Node::Empty), prev }
                },
            },
            Node::Empty => ForestZipper { focus: Node::Empty, prev },
        }
    }

    /// Swap the focused node's subtree with its previous sibling (if present).
    pub fn move_backward(self) -> (res: Self)
        requires
            self.wf(),
        ensures
            res.wf(),
            res@ == zip_move_backward(self@),
    {
        let ghost z = self@;
        let ForestZipper { focus, prev } = self;
        match prev {
            ReturnNode::Sibling { label, prev, child } => {
                proof {
                    lemma_plug_push(prev.path(), Step::Right(label@, child@), focus@);
                    assert(prev.path().push(Step::Right(label@, child@)).drop_last() =~= prev.path());
                }
                match focus {
                    Node::Node { label: label2, child: child2, sibling: sibling2, .. } => {
                        proof {
                            assert(Lcrs::node(label@, child@, sibling2@).size() == 1 + child@.size() + sibling2@.size());
                            assert(Lcrs::node(label@, child@, focus@).size() == 1 + child@.size() + focus@.size());
                            let g = Lcrs::node(label2@, child2@, Lcrs::node(label@, child@, sibling2@));
                            lemma_plug_same_size(prev.path(), g, Lcrs::node(label@, child@, focus@));
                            lemma_plug_bound(prev.path(), g);
                        }
                        let sibling = Node::new(label, child, *sibling2);
                        let focus = Node::new(label2, *child2, sibling);
                        ForestZipper { focus, prev: *prev }
                    },
                    Node::Empty => ForestZipper {
                        focus: Node::Empty,
                        prev: ReturnNode::new_sibling(label, *prev, child),
                    },
                }
            },
            ReturnNode::Parent { label, prev, sibling } => ForestZipper {
                focus,
                prev: ReturnNode::new_parent(label, *prev, sibling),
            },
            ReturnNode::Empty => ForestZipper { focus, prev: ReturnNode::Empty },
        }
    }

    /// Extract the subtree of the focused node from the forest.
    pub fn extract_tree(self) -> (res: (Self, Tree))
        requires
            self.wf(),
        ensures
            res.0.focus.wf(),
            res.0.prev.wf(),
            res.1 is Root ==> res.1->Root_child.wf(),
            (res.0@, res.1@) == zip_extract(self@),
    {
        let ForestZipper { focus, prev } = self;
        match focus {
            Node::Node { label, child, sibling, .. } => {
                let zipper = ForestZipper { focus: *sibling, prev };
                let tree = Tree::Root { label, child: *child };
                (zipper, tree)
            },
            Node::Empty => (ForestZipper { focus: Node::Empty, prev }, Tree::Empty),
        }
    }

    /// Move the focused node's subtree to be its parent's next sibling.
    /// If it has no parent, move it to be the first tree in the forest.
    pub fn promote(self) -> (res: Self)
        requires
            self.wf(),
        ensures
            res.wf(),
            res@ == zip_promote(self@),
    {
        let ghost z = self@;
        proof {
            lemma_plug_bound(z.path, z.focus);
        }
        let (zipper, tree) = self.extract_tree();
        let (root_label, root_child) = match tree {
            Tree::Root { label, child } => (label, child),
            Tree::Empty => {
                return ForestZipper { focus: zipper.focus, prev: zipper.prev };
            },
        };
        let ghost target = zip_promote(z);
        let ForestZipper { mut focus, mut prev } = zipper;
        proof {
            match z.focus {
                Lcrs::Node(l, c, s) => {
                    lemma_plug_same_size(z.path, z.focus, Lcrs::node(l, *c, *s));
                    lemma_size_plug(z.path, *s);
                    lemma_size_plug(z.path, z.focus);
                },
                Lcrs::Empty => {},
            }
        }
        loop
            invariant
                focus.wf(),
                prev.wf(),
                root_child.wf(),
                promote_up(prev.path(), focus@, root_label@, root_child@) == target,
                plug(prev.path(), focus@).size() + 1 + root_child@.size() <= usize::MAX,
                target == zip_promote(self@),
            decreases prev.path().len(),
        {
            proof {
                lemma_promote_up_size(prev.path(), focus@, root_label@, root_child@);
            }
            let ghost cur = prev;
            match prev {
                ReturnNode::Sibling { label, prev: prev2, child } => {
                    proof {
                        lemma_plug_push(prev2.path(), Step::Right(label@, child@), focus@);
                        lemma_plug_bound(prev2.path(), Lcrs::node(label@, child@, focus@));
                        assert(cur.path().drop_last() =~= prev2.path());
                    }
                    focus = Node::new(label, child, focus);
                    prev = *prev2;
                },
                ReturnNode::Parent { label, prev, sibling } => {
                    proof {
                        assert(cur.path().drop_last() =~= prev.path());
                        lemma_plug_push(prev.path(), Step::Down(label@, sibling@), focus@);
                        lemma_plug_bound(prev.path(), Lcrs::node(label@, focus@, sibling@));
                        lemma_plug_push(prev.path(), Step::Right(label@, focus@), Lcrs::node(root_label@, root_child@, sibling@));
                        lemma_plug_bound(prev.path().push(Step::Right(label@, focus@)), Lcrs::node(root_label@, root_child@, sibling@));
                    }
                    let prev = ReturnNode::new_sibling(label, *prev, focus);
                    let focus = Node::new(root_label, root_child, sibling);
                    return ForestZipper { focus, prev };
                },
                ReturnNode::Empty => {
                    proof {
                        assert(cur.path() =~= Seq::<Step>::empty());
                    }
                    let focus = Node::new(root_label, root_child, focus);
                    return ForestZipper { focus, prev: ReturnNode::Empty };
                },
            }
        }
    }

    /// Move the focused node's subtree to be its previous sibling's last child.
    pub fn demote(self) -> (res: Self)
        requires
            self.wf(),
        ensures
            res.wf(),
            res@ == zip_demote(self@),
    {
        let ghost z = self@;
        proof {
            lemma_plug_bound(z.path, z.focus);
        }
        let (zipper, tree) = self.extract_tree();
        let (root_label, root_child) = match tree {
            Tree::Root { label, child } => (label, child),
            Tree::Empty => {
                return ForestZipper { focus: zipper.focus, prev: zipper.prev };
            },
        };
        let ForestZipper { focus, prev } = zipper;
        match prev {
            ReturnNode::Sibling { label, prev, child } => {
                let ghost p0 = prev.path();
                let ghost start = p0.push(Step::Down(label@, focus@));
                let ghost last = Lcrs::node(root_label@, root_child@, Lcrs::Empty);
                proof {
                    assert(z.path.drop_last() =~= p0);
                    lemma_along_siblings(start, child@, last);
                    lemma_plug_push(p0, Step::Down(label@, focus@), child@.concat(last));
                    lemma_plug_push(p0, Step::Right(label@, child@), z.focus);
                    lemma_concat(child@, last);
                    assert(Lcrs::Empty.size() == 0);
                    assert(last.size() == 1 + root_child@.size());
                    assert(Lcrs::node(label@, child@, z.focus).size() == 1 + child@.size() + z.focus.size());
                    lemma_plug_same_size(
                        p0,
                        Lcrs::node(label@, child@.concat(last), focus@),
                        Lcrs::node(label@, child@, z.focus),
                    );
                    lemma_plug_bound(p0, Lcrs::node(label@, child@, z.focus));
                }
                let mut prev = ReturnNode::new_parent(label, *prev, focus);
                let mut focus = child;
                loop
                    invariant
                        focus.wf(),
                        prev.wf(),
                        root_child.wf(),
                        along_siblings(prev.path(), focus@) == along_siblings(start, child@),
                        plug(prev.path(), focus@.concat(last)) == plug(start, child@.concat(last)),
                        last == Lcrs::node(root_label@, root_child@, Lcrs::Empty),
                        plug(start, child@.concat(last)).size() <= usize::MAX,
                    ensures
                        focus@ is Empty,
                        prev.wf(),
                        root_child.wf(),
                        along_siblings(prev.path(), focus@) == along_siblings(start, child@),
                        plug(prev.path(), focus@.concat(last)) == plug(start, child@.concat(last)),
                    decreases focus@,
                {
                    match focus {
                        Node::Node { label, child, sibling, .. } => {
                            proof {
                                lemma_plug_push(prev.path(), Step::Right(label@, child@), sibling@.concat(last));
                            }
                            prev = ReturnNode::new_sibling(label, prev, *child);
                            focus = *sibling;
                        },
                        Node::Empty => {
                            focus = Node::Empty;
                            break;
                        },
                    }
                }
                proof {
                    lemma_plug_bound(prev.path(), last);
                }
                let focus = Node::new(root_label, root_child, Node::Empty);
                ForestZipper { focus, prev }
            },
            ReturnNode::Parent { label, prev, sibling } => {
                proof {
                    lemma_plug_bound(z.path, z.focus);
                }
                let prev = ReturnNode::new_parent(label, *prev, sibling);
                let focus = Node::new(root_label, root_child, focus);
                ForestZipper { focus, prev }
            },
            ReturnNode::Empty => {
                proof {
                    lemma_plug_bound(z.path, z.focus);
                }
                let focus = Node::new(root_label, root_child, focus);
                ForestZipper { focus, prev: ReturnNode::Empty }
            },
        }
    }

    /// Return a zipper focused on the first sibling of the focused node.
    pub fn focus_first_sibling(self) -> (res: Self)
        requires
            self.wf(),
        ensures
            res.wf(),
            res@ == up_siblings(self@.path, self@.focus),
    {
        let ghost z = self@;
        let ForestZipper { mut focus, mut prev } = self;
        loop
            invariant
                focus.wf(),
                prev.wf(),
                up_siblings(prev.path(), focus@) == up_siblings(z.path, z.focus),
                plug(prev.path(), focus@) == plug(z.path, z.focus),
                plug(z.path, z.focus).size() <= usize::MAX,
                z == self@,
            decreases prev.path().len(),
        {
            let ghost cur = prev;
            match prev {
                ReturnNode::Sibling { label, prev: prev2, child } => {
                    proof {
                        assert(cur.path().drop_last() =~= prev2.path());
                        lemma_plug_push(prev2.path(), Step::Right(label@, child@), focus@);
                        lemma_plug_bound(prev2.path(), Lcrs::node(label@, child@, focus@));
                    }
                    focus = Node::new(label, child, focus);
                    prev = *prev2;
                },
                ReturnNode::Parent { label, prev, sibling } => {
                    let prev = ReturnNode::new_parent(label, *prev, sibling);
                    return ForestZipper { focus, prev };
                },
                ReturnNode::Empty => {
                    return ForestZipper { focus, prev: ReturnNode::Empty };
                },
            }
        }
    }

    /// Move the siblings of the focused node to be its children.
    pub fn raise(self) -> (res: Self)
        requires
            self.wf(),
        ensures
            res.wf(),
            res@ == zip_raise(self@),
    {
        let ghost z = self@;
        let ForestZipper { focus, prev } = self;
        match focus {
            Node::Node { label, child, sibling, .. } => {
                proof {
                    lemma_concat(child@, sibling@);
                    lemma_plug_bound(prev.path(), z.focus);
                    lemma_size_plug(prev.path(), z.focus);
                    lemma_size_plug(prev.path(), child@.concat(sibling@));
                    lemma_up_siblings(prev.path(), child@.concat(sibling@));
                }
                let focus = (*child).concat(*sibling);
                let ForestZipper { focus, prev } = ForestZipper { focus, prev }.focus_first_sibling();
                proof {
                    lemma_size_plug(prev.path(), focus@);
                    lemma_size_plug(prev.path(), Lcrs::node(label@, focus@, Lcrs::Empty));
                    assert(Lcrs::Empty.size() == 0);
                    assert(Lcrs::node(label@, focus@, Lcrs::Empty).size() == 1 + focus@.size());
                }
                let focus = Node::new(label, focus, Node::Empty);
                ForestZipper { focus, prev }
            },
            Node::Empty => ForestZipper { focus: Node::Empty, prev },
        }
    }

    /// Move the children of the focused node to be its subsequent siblings.
    pub fn flatten(self) -> (res: Self)
        requires
            self.wf(),
        ensures
            res.wf(),
            res@ == zip_flatten(self@),
    {
        let ghost z = self@;
        let ForestZipper { focus, prev } = self;
        match focus {
            Node::Node { label, child, sibling, .. } => {
                proof {
                    lemma_concat(child@, sibling@);
                    lemma_plug_bound(prev.path(), z.focus);
                    assert(Lcrs::Empty.size() == 0);
                    assert(Lcrs::node(label@, Lcrs::Empty, child@.concat(sibling@)).size()
                        == 1 + child@.concat(sibling@).size());
                    lemma_plug_same_size(
                        prev.path(),
                        z.focus,
                        Lcrs::node(label@, Lcrs::Empty, child@.concat(sibling@)),
                    );
                }
                let rest = (*child).concat(*sibling);
                let focus = Node::new(label, Node::Empty, rest);
                ForestZipper { focus, prev }
            },
            Node::Empty => ForestZipper { focus: Node::Empty, prev },
        }
    }

    /// Insert a node with `label` as the parent of the focused node.
    pub fn insert_parent(self, label: String) -> (res: Self)
        requires
            self.wf(),
            restored(self@).size() < usize::MAX,
        ensures
            res.wf(),
            res@ == zip_insert_parent(self@, label@),
    {
        let ghost z = self@;
        let ForestZipper { focus, prev } = self;
        match focus {
            Node::Node { label: old_label, child, sibling, .. } => {
                proof {
                    lemma_size_plug(prev.path(), z.focus);
                    lemma_size_plug(
                        prev.path(),
                        Lcrs::node(label@, Lcrs::node(old_label@, child@, Lcrs::Empty), sibling@),
                    );
                }
                let node = Node::new(old_label, *child, Node::Empty);
                let focus = Node::new(label, node, *sibling);
                ForestZipper { focus, prev }
            },
            Node::Empty => ForestZipper { focus: Node::Empty, prev },
        }
    }
}

impl Node {
    /// Assign the `label` to the node at `index`.
    pub fn set_label(self, index: usize, label: String) -> (res: Self)
        requires
            self.wf(),
        ensures
            res.wf(),
            res@ == restored(zip_set_label(focus_at(self@, index as nat), label@)),
    {
        let ForestZipper { focus, prev } = self.focus_node(index);
        let ghost z = Zip { path: prev.path(), focus: focus@ };
        let focus = match focus {
            Self::Node { child, sibling, size, .. } => Self::Node { label, child, sibling, size },
            Self::Empty => Self::Empty,
        };
        proof {
            lemma_plug_same_size(z.path, z.focus, focus@);
        }
        ForestZipper { focus, prev }.restore()
    }

    /// Insert a Node with the `label` at the start of the forest.
    pub fn prepend(self, label: String) -> (res: Self)
        requires
            self.wf(),
            self@.size() < usize::MAX,
        ensures
            res.wf(),
            res@ == Lcrs::node(label@, Lcrs::Empty, self@),
    {
        Self::new(label, Self::Empty, self)
    }

    /// Swap the subtree at `index` with its next sibling.
    pub fn move_forward(self, index: usize) -> (res: (Self, usize))
        requires
            self.wf(),
        ensures
            res.0.wf(),
            (res.0@, res.1 as nat) == restored_with_index(zip_move_forward(focus_at(self@, index as nat))),
    {
        self.focus_node(index).move_forward().restore_with_index()
    }

    /// Swap the subtree at `index` with its previous sibling.
    pub fn move_backward(self, index: usize) -> (res: (Self, usize))
        requires
            self.wf(),
        ensures
            res.0.wf(),
            (res.0@, res.1 as nat) == restored_with_index(zip_move_backward(focus_at(self@, index as nat))),
    {
        self.focus_node(index).move_backward().restore_with_index()
    }

    /// Move subtree at `index` to be its parent's next sibling.
    ///
    /// If it has no parent, move it to be the first tree in the forest.
    pub fn promote(self, index: usize) -> (res: (Self, usize))
        requires
            self.wf(),
        ensures
            res.0.wf(),
            (res.0@, res.1 as nat) == restored_with_index(zip_promote(focus_at(self@, index as nat))),
    {
        self.focus_node(index).promote().restore_with_index()
    }

    /// Move subtree at `index` to be its previous sibling's last child.
    pub fn demote(self, index: usize) -> (res: (Self, usize))
        requires
            self.wf(),
        ensures
            res.0.wf(),
            (res.0@, res.1 as nat) == restored_with_index(zip_demote(focus_at(self@, index as nat))),
    {
        self.focus_node(index).demote().restore_with_index()
    }

    /// Move the siblings of the node at `index` to be its children.
    pub fn raise(self, index: usize) -> (res: (Self, usize))
        requires
            self.wf(),
        ensures
            res.0.wf(),
            (res.0@, res.1 as nat) == restored_with_index(zip_raise(focus_at(self@, index as nat))),
    {
        self.focus_node(index).raise().restore_with_index()
    }

    /// Move the children of the node at `index` to be its subsequent siblings.
    pub fn flatten(self, index: usize) -> (res: (Self, usize))
        requires
            self.wf(),
        ensures
            res.0.wf(),
            (res.0@, res.1 as nat) == restored_with_index(zip_flatten(focus_at(self@, index as nat))),
    {
        self.focus_node(index).flatten().restore_with_index()
    }

    /// Insert a node with `label` as the parent of the node at `index`.
    pub fn insert_parent(self, index: usize, label: String) -> (res: (Self, usize))
        requires
            self.wf(),
            self@.size() < usize::MAX,
        ensures
            res.0.wf(),
            (res.0@, res.1 as nat) == restored_with_index(
                zip_insert_parent(focus_at(self@, index as nat), label@),
            ),
    {
        proof {
            lemma_plug_descend(self@, index as nat, Seq::empty());
        }
        self.focus_node(index).insert_parent(label).restore_with_index()
    }

    /// Concatenate the roots of a forest as siblings of the roots of `self`.
    pub fn concat(self, root: Node) -> (res: Node)
        requires
            self.wf(),
            root.wf(),
            self@.size() + root@.size() <= usize::MAX,
        ensures
            res.wf(),
            res@ == self@.concat(root@),
    {
        if !root.is_node() {
            proof {
                lemma_concat_empty(self@);
            }
            return self;
        }
        let ghost target = self@.concat(root@);
        proof {
            lemma_concat(self@, root@);
        }
        let mut focus = self;
        let mut prev = ReturnNode::Empty;
        loop
            invariant
                focus.wf(),
                prev.wf(),
                root.wf(),
                plug(prev.path(), focus@.concat(root@)) == target,
                target.size() <= usize::MAX,
            ensures
                focus@ is Empty,
                prev.wf(),
                plug(prev.path(), focus@.concat(root@)) == target,
            decreases focus@,
        {
            match focus {
                Node::Node { label, child, sibling, .. } => {
                    proof {
                        lemma_plug_push(prev.path(), Step::Right(label@, child@), sibling@.concat(root@));
                    }
                    focus = *sibling;
                    prev = ReturnNode::new_sibling(label, prev, *child);
                },
                Node::Empty => {
                    focus = Node::Empty;
                    break;
                },
            }
        }
        ForestZipper { focus: root, prev }.restore()
    }

    /// Delete the node of pre-order `index` from the forest.
    pub fn delete(self, index: usize) -> (res: Self)
        requires
            self.wf(),
        ensures
            res.wf(),
            res@ == restored(zip_delete(focus_at(self@, index as nat))),
    {
        let ForestZipper { focus, prev } = self.focus_node(index);
        let ghost z = Zip { path: prev.path(), focus: focus@ };
        let new_focus = match focus {
            Self::Node { child, sibling, .. } => {
                proof {
                    lemma_concat(child@, sibling@);
                    lemma_plug_bound(z.path, z.focus);
                    lemma_size_plug(z.path, z.focus);
                    lemma_size_plug(z.path, child@.concat(sibling@));
                }
                (*child).concat(*sibling)
            },
            Self::Empty => Self::Empty,
        };
        ForestZipper { focus: new_focus, prev }.restore()
    }
}

/// Describes whether a node is a root, first child, or non-root right sibling.
#[derive(PartialEq, Eq, Debug)]
pub enum NodeType {
    Root,
    Child,
    Sibling,
}

/// Describes the position of a node in a forest (used for display).
#[derive(PartialEq, Eq, Debug)]
pub struct NodePosition {
    pub node_type: NodeType,
    pub is_last: bool,
}

/// A node's label and subtrees, with its position in the forest.
pub struct NodeRef<'a> {
    pub label: &'a str,
    pub child: &'a Node,
    pub sibling: &'a Node,
    pub pos: NodePosition,
}

/// Iterator over node labels and positions in pre-order.
pub struct PreOrderIter<'a> {
    pub stack: Vec<NodeRef<'a>>,
}

/// The type of the siblings that follow a node of type `t`.
pub open spec fn sibling_type(t: NodeType) -> NodeType {
    match t {
        NodeType::Root => NodeType::Root,
        _ => NodeType::Sibling,
    }
}

/// Labels and positions of the nodes of `t` in pre-order, where the first
/// root of `t` has node type `ty`.
pub open spec fn pre_order(t: Lcrs, ty: NodeType) -> Seq<(Seq<char>, NodePosition)>
    decreases t,
{
    match t {
        Lcrs::Empty => Seq::empty(),
        Lcrs::Node(l, c, s) => seq![(l, NodePosition { node_type: ty, is_last: *s is Empty })]
            + pre_order(*c, NodeType::Child) + pre_order(*s, sibling_type(ty)),
    }
}

impl<'a> NodeRef<'a> {
    /// The items that this node and the rest of its subtree and siblings yield.
    pub open spec fn items(&self) -> Seq<(Seq<char>, NodePosition)> {
        seq![(self.label@, self.pos)] + pre_order(self.child@, NodeType::Child)
            + pre_order(self.sibling@, sibling_type(self.pos.node_type))
    }
}

/// The items yielded by a stack of nodes, top of the stack first.
pub open spec fn stack_items<'a>(stack: Seq<NodeRef<'a>>) -> Seq<(Seq<char>, NodePosition)>
    decreases stack.len(),
{
    if stack.len() == 0 {
        Seq::empty()
    } else {
        stack.last().items() + stack_items(stack.drop_last())
    }
}

pub proof fn lemma_stack_push<'a>(stack: Seq<NodeRef<'a>>, r: NodeRef<'a>)
    ensures
        stack_items(stack.push(r)) == r.items() + stack_items(stack),
        stack_items(Seq::<NodeRef<'a>>::empty()) == Seq::<(Seq<char>, NodePosition)>::empty(),
{
    assert(stack.push(r).drop_last() =~= stack);
}

impl<'a> PreOrderIter<'a> {
    /// The items that remain to be yielded.
    pub open spec fn remaining(&self) -> Seq<(Seq<char>, NodePosition)> {
        stack_items(self.stack@)
    }

    /// Return the next label and position in pre-order.
    pub fn next(&mut self) -> (res: Option<(&'a str, NodePosition)>)
        ensures
            match res {
                None => old(self).remaining().len() == 0 && final(self).remaining() == old(self).remaining(),
                Some(item) => {
                    &&& old(self).remaining().len() > 0
                    &&& (item.0@, item.1) == old(self).remaining()[0]
                    &&& final(self).remaining() == old(self).remaining().drop_first()
                },
            },
    {
        let ghost old_stack = self.stack@;
        match self.stack.pop() {
            None => {
                proof {
                    assert(old_stack.len() == 0);
                }
                None
            },
            Some(top) => {
                let ghost top_ghost = top;
                let NodeRef { label, child, sibling, pos } = top;
                let next_type = match pos.node_type {
                    NodeType::Root => NodeType::Root,
                    _ => NodeType::Sibling,
                };
                let ghost base = self.stack@;
                assert(base =~= old_stack.drop_last());
                proof {
                    lemma_stack_push(base, top_ghost);
                }
                let ghost sib_items = pre_order(sibling@, sibling_type(pos.node_type));
                let ghost child_items = pre_order(child@, NodeType::Child);
                assert(next_type == sibling_type(pos.node_type));
                if let Some(node) = sibling.to_node(next_type) {
                    proof {
                        lemma_stack_push(base, node);
                    }
                    self.stack.push(node);
                } else {
                    assert(sib_items =~= Seq::empty());
                    assert(stack_items(self.stack@) =~= sib_items + stack_items(base));
                }
                let ghost mid = self.stack@;
                if let Some(node) = child.to_node(NodeType::Child) {
                    proof {
                        lemma_stack_push(mid, node);
                    }
                    self.stack.push(node);
                } else {
                    assert(child_items =~= Seq::empty());
                    assert(stack_items(self.stack@) =~= child_items + stack_items(mid));
                }
                proof {
                    let rest = child_items + sib_items + stack_items(base);
                    assert(old_stack =~= base.push(top_ghost));
                    assert(stack_items(old_stack) =~= seq![(label@, pos)] + rest);
                    assert(stack_items(self.stack@) =~= rest);
                }
                Some((label, pos))
            },
        }
    }
}

impl Node {
    /// Create a corresponding NodeRef from a Node if non-empty.
    pub fn to_node(&self, node_type: NodeType) -> (res: Option<NodeRef<'_>>)
        ensures
            match res {
                None => self@ is Empty,
                Some(r) => r.items() == pre_order(self@, node_type),
            },
    {
        match self {
            Self::Empty => None,
            Self::Node { label, child, sibling, .. } => {
                let is_last = !sibling.is_node();
                let pos = NodePosition { node_type, is_last };
                Some(NodeRef { label: label.as_str(), child: &**child, sibling: &**sibling, pos })
            },
        }
    }

    /// Return an iterator over node labels in pre-order.
    pub fn iter(&self) -> (res: PreOrderIter<'_>)
        ensures
            res.remaining() == pre_order(self@, NodeType::Root),
    {
        let mut stack = Vec::new();
        if let Some(node) = self.to_node(NodeType::Root) {
            stack.push(node);
        }
        let res = PreOrderIter { stack };
        proof {
            if res.stack@.len() == 1 {
                lemma_stack_push(Seq::empty(), res.stack@.last());
                assert(res.stack@ =~= Seq::<NodeRef>::empty().push(res.stack@.last()));
                assert(stack_items(res.stack@) =~= res.stack@.last().items());
            } else {
                assert(stack_items(res.stack@) =~= Seq::empty());
            }
        }
        res
    }
}

} // verus!
