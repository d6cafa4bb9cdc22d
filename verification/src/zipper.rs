pub mod items;
pub mod iter;
pub mod laws;

use vstd::prelude::*;

use crate::lcrs::{Lcrs, lemma_concat_empty, lemma_node_labels};

verus! {

/// A node in a multi-way forest stored using child-sibling representation.
pub struct Node {
    pub child: Option<Box<Node>>,
    pub next: Option<Box<Node>>,
    pub label: String,
}

/// A node with a reversed sibling chain for leftward traversal.
pub struct RevNode {
    pub child: Option<Box<Node>>,
    pub prev: Option<Box<RevNode>>,
    pub label: String,
}

/// A node in the path from the focused node up to the root of its tree.
pub struct PathNode {
    pub parent: Option<Box<PathNode>>,
    pub prev: Option<Box<RevNode>>,
    pub next: Option<Box<Node>>,
    pub label: String,
}

/// The focused node in a zipper for a multi-way forest.
pub struct FocusNode {
    pub parent: Option<Box<PathNode>>,
    pub child: Option<Box<Node>>,
    pub prev: Option<Box<RevNode>>,
    pub next: Option<Box<Node>>,
    pub label: String,
}

/// A tree of the forest given by its root's label and its children.
pub type TreeView = (Seq<char>, Lcrs);

/// An ancestor of the focus: its label, its previous siblings (nearest
/// first) and its next siblings.
pub struct Frame {
    pub prev: Seq<TreeView>,
    pub next: Lcrs,
    pub label: Seq<char>,
}

/// The mathematical content of a zipper: the ancestors of the focus
/// (nearest first), its previous siblings (nearest first), its label, its
/// children and its next siblings.
pub struct FocusView {
    pub parents: Seq<Frame>,
    pub prev: Seq<TreeView>,
    pub label: Seq<char>,
    pub child: Lcrs,
    pub next: Lcrs,
}

/// The forest of a chain of next siblings.
pub open spec fn chain(n: Option<Box<Node>>) -> Lcrs
    decreases n,
{
    match n {
        None => Lcrs::Empty,
        Some(b) => Lcrs::node(b.label@, chain(b.child), chain(b.next)),
    }
}

/// The trees of a chain of previous siblings, nearest first.
pub open spec fn rev_chain(r: Option<Box<RevNode>>) -> Seq<TreeView>
    decreases r,
{
    match r {
        None => Seq::empty(),
        Some(b) => seq![(b.label@, chain(b.child))] + rev_chain(b.prev),
    }
}

/// The ancestors on a path, nearest first.
pub open spec fn path_chain(p: Option<Box<PathNode>>) -> Seq<Frame>
    decreases p,
{
    match p {
        None => Seq::empty(),
        Some(b) => seq![Frame { prev: rev_chain(b.prev), next: chain(b.next), label: b.label@ }]
            + path_chain(b.parent),
    }
}

impl View for FocusNode {
    type V = FocusView;

    open spec fn view(&self) -> FocusView {
        FocusView {
            parents: path_chain(self.parent),
            prev: rev_chain(self.prev),
            label: self.label@,
            child: chain(self.child),
            next: chain(self.next),
        }
    }
}

/// The trees of a forest, in order.
pub open spec fn roots(t: Lcrs) -> Seq<TreeView>
    decreases t,
{
    match t {
        Lcrs::Empty => Seq::empty(),
        Lcrs::Node(l, c, s) => seq![(l, *c)] + roots(*s),
    }
}

/// Put previous siblings (nearest first) in front of the forest `right`.
pub open spec fn join(left: Seq<TreeView>, right: Lcrs) -> Lcrs
    decreases left.len(),
{
    if left.len() == 0 {
        right
    } else {
        join(left.drop_first(), Lcrs::node(left[0].0, left[0].1, right))
    }
}

/// The forest of the focus and its siblings.
pub open spec fn level(v: FocusView) -> Lcrs {
    join(v.prev, Lcrs::node(v.label, v.child, v.next))
}

/// Rebuild the forest above a level, given the ancestors nearest first.
pub open spec fn up(parents: Seq<Frame>, lvl: Lcrs) -> Lcrs
    decreases parents.len(),
{
    if parents.len() == 0 {
        lvl
    } else {
        up(
            parents.drop_first(),
            join(parents[0].prev, Lcrs::node(parents[0].label, lvl, parents[0].next)),
        )
    }
}

/// The whole forest that a zipper represents.
pub open spec fn to_forest(v: FocusView) -> Lcrs {
    up(v.parents, level(v))
}

pub open spec fn focus_parent_v(v: FocusView) -> FocusView {
    if v.parents.len() == 0 {
        v
    } else {
        let p = v.parents[0];
        FocusView {
            parents: v.parents.drop_first(),
            prev: p.prev,
            label: p.label,
            child: level(v),
            next: p.next,
        }
    }
}

pub open spec fn focus_child_v(v: FocusView) -> FocusView {
    match v.child {
        Lcrs::Empty => v,
        Lcrs::Node(l, c, s) => FocusView {
            parents: seq![Frame { prev: v.prev, next: v.next, label: v.label }] + v.parents,
            prev: Seq::empty(),
            label: l,
            child: *c,
            next: *s,
        },
    }
}

pub open spec fn focus_prev_v(v: FocusView) -> FocusView {
    if v.prev.len() == 0 {
        v
    } else {
        FocusView {
            parents: v.parents,
            prev: v.prev.drop_first(),
            label: v.prev[0].0,
            child: v.prev[0].1,
            next: Lcrs::node(v.label, v.child, v.next),
        }
    }
}

pub open spec fn focus_next_v(v: FocusView) -> FocusView {
    match v.next {
        Lcrs::Empty => v,
        Lcrs::Node(l, c, s) => FocusView {
            parents: v.parents,
            prev: seq![(v.label, v.child)] + v.prev,
            label: l,
            child: *c,
            next: *s,
        },
    }
}

pub open spec fn promote_v(v: FocusView) -> FocusView {
    if v.parents.len() == 0 {
        v
    } else {
        let p = v.parents[0];
        FocusView {
            parents: v.parents.drop_first(),
            prev: p.prev,
            label: v.label,
            child: v.child,
            next: Lcrs::node(p.label, join(v.prev, v.next), p.next),
        }
    }
}

pub open spec fn demote_v(v: FocusView) -> FocusView {
    match v.next {
        Lcrs::Empty => v,
        Lcrs::Node(l, c, s) => FocusView {
            parents: seq![Frame { prev: v.prev, next: *s, label: l }] + v.parents,
            prev: Seq::empty(),
            label: v.label,
            child: v.child,
            next: *c,
        },
    }
}

pub open spec fn swap_prev_v(v: FocusView) -> FocusView {
    if v.prev.len() == 0 {
        v
    } else {
        FocusView {
            prev: v.prev.drop_first(),
            next: Lcrs::node(v.prev[0].0, v.prev[0].1, v.next),
            ..v
        }
    }
}

pub open spec fn swap_next_v(v: FocusView) -> FocusView {
    match v.next {
        Lcrs::Empty => v,
        Lcrs::Node(l, c, s) => FocusView { prev: seq![(l, *c)] + v.prev, next: *s, ..v },
    }
}

pub open spec fn nest_v(v: FocusView) -> FocusView {
    FocusView {
        child: join(v.prev, v.child.concat(v.next)),
        prev: Seq::empty(),
        next: Lcrs::Empty,
        ..v
    }
}

pub open spec fn flatten_v(v: FocusView) -> FocusView {
    FocusView { child: Lcrs::Empty, next: v.child.concat(v.next), ..v }
}

pub open spec fn insert_parent_v(v: FocusView) -> FocusView {
    FocusView {
        child: Lcrs::node(v.label, v.child, Lcrs::Empty),
        label: Seq::empty(),
        ..v
    }
}

pub open spec fn insert_child_v(v: FocusView) -> FocusView {
    FocusView {
        parents: seq![Frame { prev: v.prev, next: v.next, label: v.label }] + v.parents,
        prev: Seq::empty(),
        label: Seq::empty(),
        child: v.child,
        next: Lcrs::Empty,
    }
}

pub open spec fn insert_prev_v(v: FocusView) -> FocusView {
    FocusView {
        child: Lcrs::Empty,
        next: Lcrs::node(v.label, v.child, v.next),
        label: Seq::empty(),
        ..v
    }
}

pub open spec fn insert_next_v(v: FocusView) -> FocusView {
    FocusView {
        child: Lcrs::Empty,
        prev: seq![(v.label, v.child)] + v.prev,
        label: Seq::empty(),
        ..v
    }
}

/// After deleting the focused node (its children take its place), the
/// focus moves to its next sibling, else its previous sibling, else its
/// parent; deleting the only node of the forest leaves nothing.
pub open spec fn delete_v(v: FocusView) -> Option<FocusView> {
    let f = flatten_v(v);
    match f.next {
        Lcrs::Node(l, c, s) => Some(
            FocusView { parents: f.parents, prev: f.prev, label: l, child: *c, next: *s },
        ),
        Lcrs::Empty => if f.prev.len() > 0 {
            Some(
                FocusView {
                    parents: f.parents,
                    prev: f.prev.drop_first(),
                    label: f.prev[0].0,
                    child: f.prev[0].1,
                    next: Lcrs::Empty,
                },
            )
        } else if f.parents.len() > 0 {
            let p = f.parents[0];
            Some(
                FocusView {
                    parents: f.parents.drop_first(),
                    prev: p.prev,
                    label: p.label,
                    child: Lcrs::Empty,
                    next: p.next,
                },
            )
        } else {
            None
        },
    }
}

pub proof fn lemma_cons<A>(a: A, s: Seq<A>)
    ensures
        (seq![a] + s).drop_first() == s,
        (seq![a] + s)[0] == a,
        (seq![a] + s).len() == s.len() + 1,
{
    assert((seq![a] + s).drop_first() =~= s);
}

pub proof fn lemma_join_append(x: Seq<TreeView>, y: Seq<TreeView>, b: Lcrs)
    ensures
        join(x + y, b) == join(y, join(x, b)),
    decreases x.len(),
{
    if x.len() == 0 {
        assert(x + y =~= y);
    } else {
        lemma_join_append(x.drop_first(), y, Lcrs::node(x[0].0, x[0].1, b));
        assert((x + y).drop_first() =~= x.drop_first() + y);
    }
}

pub proof fn lemma_join_reversed_roots(a: Lcrs, b: Lcrs)
    ensures
        join(roots(a).reverse(), b) == a.concat(b),
    decreases a,
{
    match a {
        Lcrs::Empty => {
            assert(roots(a).reverse() =~= Seq::<TreeView>::empty());
        },
        Lcrs::Node(l, c, s) => {
            lemma_join_reversed_roots(*s, b);
            assert(roots(a).reverse() =~= roots(*s).reverse() + seq![(l, *c)]);
            lemma_join_append(roots(*s).reverse(), seq![(l, *c)], b);
            let inner = join(roots(*s).reverse(), b);
            assert(join(seq![(l, *c)], inner) == join(
                seq![(l, *c)].drop_first(),
                Lcrs::node(l, *c, inner),
            ));
            assert(seq![(l, *c)].drop_first() =~= Seq::<TreeView>::empty());
        },
    }
}

/// Join two sibling chains into one forest.
pub fn join_siblings(left: Option<Box<RevNode>>, right: Option<Box<Node>>) -> (res: Option<
    Box<Node>,
>)
    ensures
        chain(res) == join(rev_chain(left), chain(right)),
{
    let mut l = left;
    let mut r = right;
    loop
        invariant
            join(rev_chain(l), chain(r)) == join(rev_chain(left), chain(right)),
        decreases rev_chain(l).len(),
    {
        match l {
            Some(curr_rc) => {
                let curr = *curr_rc;
                proof {
                    lemma_cons((curr.label@, chain(curr.child)), rev_chain(curr.prev));
                }
                l = curr.prev;
                let node = Node { child: curr.child, next: r, label: curr.label };
                r = Some(Box::new(node));
            },
            None => {
                assert(rev_chain(l) =~= Seq::<TreeView>::empty());
                return r;
            },
        }
    }
}

/// Reverse the direction of the node's sibling chain.
pub fn reverse_siblings(node: Option<Box<Node>>) -> (res: Option<Box<RevNode>>)
    ensures
        rev_chain(res) == roots(chain(node)).reverse(),
{
    let mut n = node;
    let mut reversed: Option<Box<RevNode>> = None;
    proof {
        assert(roots(chain(n)).reverse() + rev_chain(reversed) =~= roots(chain(node)).reverse());
    }
    loop
        invariant
            roots(chain(n)).reverse() + rev_chain(reversed) == roots(chain(node)).reverse(),
        decreases chain(n),
    {
        match n {
            Some(curr_rc) => {
                let curr = *curr_rc;
                let ghost old_reversed = rev_chain(reversed);
                let ghost head = (curr.label@, chain(curr.child));
                proof {
                    assert(roots(chain(Some(Box::new(curr)))) =~= seq![head] + roots(chain(curr.next)));
                    assert((seq![head] + roots(chain(curr.next))).reverse() =~= roots(chain(curr.next)).reverse() + seq![head]);
                }
                n = curr.next;
                let rev_node = RevNode { child: curr.child, prev: reversed, label: curr.label };
                reversed = Some(Box::new(rev_node));
                proof {
                    assert(rev_chain(reversed) =~= seq![head] + old_reversed);
                    assert(roots(chain(n)).reverse() + rev_chain(reversed) =~= roots(chain(n)).reverse() + seq![head] + old_reversed);
                }
            },
            None => {
                proof {
                    assert(roots(chain(n)).reverse() =~= Seq::<TreeView>::empty());
                    assert(rev_chain(reversed) =~= roots(chain(node)).reverse());
                }
                return reversed;
            },
        }
    }
}

impl FocusNode {
    /// Construct a forest containing a single node with empty label.
    pub fn new() -> (res: Self)
        ensures
            res@ == (FocusView {
                parents: Seq::empty(),
                prev: Seq::empty(),
                label: Seq::empty(),
                child: Lcrs::Empty,
                next: Lcrs::Empty,
            }),
    {
        Self { parent: None, child: None, prev: None, next: None, label: String::new() }
    }

    /// Focus on the parent of the current focused node (if present).
    pub fn focus_parent(self) -> (res: Self)
        ensures
            res@ == focus_parent_v(self@),
    {
        match self.parent {
            Some(parent_rc) => {
                let parent = *parent_rc;
                proof {
                    lemma_cons(
                        Frame { prev: rev_chain(parent.prev), next: chain(parent.next), label: parent.label@ },
                        path_chain(parent.parent),
                    );
                }
                let node = Node { child: self.child, next: self.next, label: self.label };
                Self {
                    parent: parent.parent,
                    child: join_siblings(self.prev, Some(Box::new(node))),
                    prev: parent.prev,
                    next: parent.next,
                    label: parent.label,
                }
            },
            None => Self { parent: None, ..self },
        }
    }

    /// Focus on the first child of the current focused node (if present).
    pub fn focus_child(self) -> (res: Self)
        ensures
            res@ == focus_child_v(self@),
    {
        match self.child {
            Some(child_rc) => {
                let child = *child_rc;
                let parent = PathNode {
                    parent: self.parent,
                    prev: self.prev,
                    next: self.next,
                    label: self.label,
                };
                Self {
                    parent: Some(Box::new(parent)),
                    child: child.child,
                    prev: None,
                    next: child.next,
                    label: child.label,
                }
            },
            None => Self { child: None, ..self },
        }
    }

    /// Focus on the previous sibling of the current focused node (if present).
    pub fn focus_prev(self) -> (res: Self)
        ensures
            res@ == focus_prev_v(self@),
    {
        match self.prev {
            Some(prev_rc) => {
                let prev = *prev_rc;
                proof {
                    lemma_cons((prev.label@, chain(prev.child)), rev_chain(prev.prev));
                }
                let next = Node { child: self.child, next: self.next, label: self.label };
                Self {
                    parent: self.parent,
                    child: prev.child,
                    prev: prev.prev,
                    next: Some(Box::new(next)),
                    label: prev.label,
                }
            },
            None => Self { prev: None, ..self },
        }
    }

    /// Focus on the next sibling of the current focused node (if present).
    pub fn focus_next(self) -> (res: Self)
        ensures
            res@ == focus_next_v(self@),
    {
        match self.next {
            Some(next_rc) => {
                let next = *next_rc;
                let prev = RevNode { child: self.child, prev: self.prev, label: self.label };
                Self {
                    parent: self.parent,
                    child: next.child,
                    prev: Some(Box::new(prev)),
                    next: next.next,
                    label: next.label,
                }
            },
            None => Self { next: None, ..self },
        }
    }

    /// Move the focused node's subtree to be its parent's previous sibling.
    pub fn promote(self) -> (res: Self)
        ensures
            res@ == promote_v(self@),
    {
        match self.parent {
            Some(parent_rc) => {
                let parent = *parent_rc;
                proof {
                    lemma_cons(
                        Frame { prev: rev_chain(parent.prev), next: chain(parent.next), label: parent.label@ },
                        path_chain(parent.parent),
                    );
                }
                let next = Node {
                    child: join_siblings(self.prev, self.next),
                    next: parent.next,
                    label: parent.label,
                };
                Self {
                    parent: parent.parent,
                    prev: parent.prev,
                    next: Some(Box::new(next)),
                    child: self.child,
                    label: self.label,
                }
            },
            None => Self { parent: None, ..self },
        }
    }

    /// Move the focused node's subtree to be its next sibling's first child.
    pub fn demote(self) -> (res: Self)
        ensures
            res@ == demote_v(self@),
    {
        match self.next {
            Some(next_rc) => {
                let next = *next_rc;
                let parent = PathNode {
                    parent: self.parent,
                    prev: self.prev,
                    next: next.next,
                    label: next.label,
                };
                Self {
                    parent: Some(Box::new(parent)),
                    prev: None,
                    next: next.child,
                    child: self.child,
                    label: self.label,
                }
            },
            None => Self { next: None, ..self },
        }
    }

    /// Swap the focused node's subtree with its previous sibling (if present).
    pub fn swap_prev(self) -> (res: Self)
        ensures
            res@ == swap_prev_v(self@),
    {
        match self.prev {
            Some(prev_rc) => {
                let prev = *prev_rc;
                proof {
                    lemma_cons((prev.label@, chain(prev.child)), rev_chain(prev.prev));
                }
                let next = Node { child: prev.child, next: self.next, label: prev.label };
                Self { prev: prev.prev, next: Some(Box::new(next)), ..self }
            },
            None => Self { prev: None, ..self },
        }
    }

    /// Swap the focused node's subtree with its next sibling (if present).
    pub fn swap_next(self) -> (res: Self)
        ensures
            res@ == swap_next_v(self@),
    {
        match self.next {
            Some(next_rc) => {
                let next = *next_rc;
                let prev = RevNode { child: next.child, prev: self.prev, label: next.label };
                Self { prev: Some(Box::new(prev)), next: next.next, ..self }
            },
            None => Self { next: None, ..self },
        }
    }

    /// Adjoin the siblings of the focused node to its children, preserving order.
    pub fn nest(self) -> (res: Self)
        ensures
            res@ == nest_v(self@),
    {
        proof {
            lemma_join_reversed_roots(chain(self.child), chain(self.next));
        }
        let child_plus_next = join_siblings(reverse_siblings(self.child), self.next);
        Self {
            child: join_siblings(self.prev, child_plus_next),
            prev: None,
            next: None,
            ..self
        }
    }

    /// Insert the focused node's children before its subsequent siblings.
    pub fn flatten(self) -> (res: Self)
        ensures
            res@ == flatten_v(self@),
    {
        proof {
            lemma_join_reversed_roots(chain(self.child), chain(self.next));
        }
        let child_plus_next = join_siblings(reverse_siblings(self.child), self.next);
        Self { child: None, next: child_plus_next, ..self }
    }

    /// Insert a new node as the parent of the focused node.
    pub fn insert_parent(self) -> (res: Self)
        ensures
            res@ == insert_parent_v(self@),
    {
        let child = Node { child: self.child, next: None, label: self.label };
        proof {
            assert(chain(None) == Lcrs::Empty);
        }
        Self { child: Some(Box::new(child)), label: String::new(), ..self }
    }

    /// Insert a new child node above the focused node's children.
    pub fn insert_child(self) -> (res: Self)
        ensures
            res@ == insert_child_v(self@),
    {
        let parent = PathNode {
            parent: self.parent,
            prev: self.prev,
            next: self.next,
            label: self.label,
        };
        Self {
            parent: Some(Box::new(parent)),
            child: self.child,
            prev: None,
            next: None,
            label: String::new(),
        }
    }

    /// Insert a new node as the previous sibling of the focused node.
    pub fn insert_prev(self) -> (res: Self)
        ensures
            res@ == insert_prev_v(self@),
    {
        let next = Node { child: self.child, next: self.next, label: self.label };
        Self { child: None, next: Some(Box::new(next)), label: String::new(), ..self }
    }

    /// Insert a new node as the next sibling of the focused node.
    pub fn insert_next(self) -> (res: Self)
        ensures
            res@ == insert_next_v(self@),
    {
        let prev = RevNode { child: self.child, prev: self.prev, label: self.label };
        Self { child: None, prev: Some(Box::new(prev)), label: String::new(), ..self }
    }

    /// Delete the focused node.
    pub fn delete(self) -> (res: Option<Self>)
        ensures
            match res {
                Some(f) => delete_v(self@) == Some(f@),
                None => delete_v(self@) is None,
            },
    {
        let focus = self.flatten();
        let new_focus = if let Some(next_rc) = focus.next {
            let next = *next_rc;
            Self {
                parent: focus.parent,
                child: next.child,
                prev: focus.prev,
                next: next.next,
                label: next.label,
            }
        } else if let Some(prev_rc) = focus.prev {
            let prev = *prev_rc;
            proof {
                lemma_cons((prev.label@, chain(prev.child)), rev_chain(prev.prev));
            }
            Self {
                parent: focus.parent,
                child: prev.child,
                prev: prev.prev,
                next: None,
                label: prev.label,
            }
        } else if let Some(parent_rc) = focus.parent {
            let parent = *parent_rc;
            proof {
                lemma_cons(
                    Frame { prev: rev_chain(parent.prev), next: chain(parent.next), label: parent.label@ },
                    path_chain(parent.parent),
                );
            }
            Self {
                parent: parent.parent,
                child: None,
                prev: parent.prev,
                next: parent.next,
                label: parent.label,
            }
        } else {
            return None;
        };
        Some(new_focus)
    }

    /// Replace the label of the focused node.
    pub fn set_label(self, label: String) -> (res: Self)
        ensures
            res@ == (FocusView { label: label@, ..self@ }),
    {
        Self { label, ..self }
    }

    /// Return a copy of the focused node's label.
    pub fn clone_label(&self) -> (res: String)
        ensures
            res@ == self@.label,
    {
        self.label.clone()
    }
}

impl Clone for Node {
    fn clone(&self) -> (res: Self)
        ensures
            res == *self,
        decreases self,
    {
        let child = match &self.child {
            Some(b) => Some(Box::new((**b).clone())),
            None => None,
        };
        let next = match &self.next {
            Some(b) => Some(Box::new((**b).clone())),
            None => None,
        };
        Node { child, next, label: self.label.clone() }
    }
}

impl Clone for RevNode {
    fn clone(&self) -> (res: Self)
        ensures
            res == *self,
        decreases self,
    {
        let child = match &self.child {
            Some(b) => Some(Box::new((**b).clone())),
            None => None,
        };
        let prev = match &self.prev {
            Some(b) => Some(Box::new((**b).clone())),
            None => None,
        };
        RevNode { child, prev, label: self.label.clone() }
    }
}

impl Clone for PathNode {
    fn clone(&self) -> (res: Self)
        ensures
            res == *self,
        decreases self,
    {
        let parent = match &self.parent {
            Some(b) => Some(Box::new((**b).clone())),
            None => None,
        };
        let prev = match &self.prev {
            Some(b) => Some(Box::new((**b).clone())),
            None => None,
        };
        let next = match &self.next {
            Some(b) => Some(Box::new((**b).clone())),
            None => None,
        };
        PathNode { parent, prev, next, label: self.label.clone() }
    }
}

impl Clone for FocusNode {
    fn clone(&self) -> (res: Self)
        ensures
            res == *self,
    {
        let parent = match &self.parent {
            Some(b) => Some(Box::new((**b).clone())),
            None => None,
        };
        let child = match &self.child {
            Some(b) => Some(Box::new((**b).clone())),
            None => None,
        };
        let prev = match &self.prev {
            Some(b) => Some(Box::new((**b).clone())),
            None => None,
        };
        let next = match &self.next {
            Some(b) => Some(Box::new((**b).clone())),
            None => None,
        };
        FocusNode { parent, child, prev, next, label: self.label.clone() }
    }
}

/// Whether two sibling chains hold the same forest.
fn chain_eq(a: &Option<Box<Node>>, b: &Option<Box<Node>>) -> (res: bool)
    ensures
        res == (chain(*a) == chain(*b)),
    decreases *a,
{
    match (a, b) {
        (Some(x), Some(y)) => {
            let same_label = x.label == y.label;
            if !same_label {
                return false;
            }
            let same_child = chain_eq(&x.child, &y.child);
            if !same_child {
                return false;
            }
            chain_eq(&x.next, &y.next)
        },
        (None, None) => true,
        _ => false,
    }
}

/// Whether two chains of previous siblings hold the same trees.
fn rev_eq(a: &Option<Box<RevNode>>, b: &Option<Box<RevNode>>) -> (res: bool)
    ensures
        res == (rev_chain(*a) == rev_chain(*b)),
    decreases *a,
{
    match (a, b) {
        (Some(x), Some(y)) => {
            proof {
                lemma_cons((x.label@, chain(x.child)), rev_chain(x.prev));
                lemma_cons((y.label@, chain(y.child)), rev_chain(y.prev));
            }
            let same_label = x.label == y.label;
            if !same_label {
                return false;
            }
            let same_child = chain_eq(&x.child, &y.child);
            if !same_child {
                return false;
            }
            let res = rev_eq(&x.prev, &y.prev);
            proof {
                if res {
                    assert(rev_chain(*a) =~= rev_chain(*b));
                }
            }
            res
        },
        (None, None) => true,
        (Some(x), None) => {
            proof {
                lemma_cons((x.label@, chain(x.child)), rev_chain(x.prev));
            }
            false
        },
        (None, Some(y)) => {
            proof {
                lemma_cons((y.label@, chain(y.child)), rev_chain(y.prev));
            }
            false
        },
    }
}

/// Whether two paths hold the same ancestors.
fn path_eq(a: &Option<Box<PathNode>>, b: &Option<Box<PathNode>>) -> (res: bool)
    ensures
        res == (path_chain(*a) == path_chain(*b)),
    decreases *a,
{
    match (a, b) {
        (Some(x), Some(y)) => {
            let ghost fx = Frame { prev: rev_chain(x.prev), next: chain(x.next), label: x.label@ };
            let ghost fy = Frame { prev: rev_chain(y.prev), next: chain(y.next), label: y.label@ };
            proof {
                lemma_cons(fx, path_chain(x.parent));
                lemma_cons(fy, path_chain(y.parent));
            }
            let same_label = x.label == y.label;
            if !same_label {
                return false;
            }
            let same_prev = rev_eq(&x.prev, &y.prev);
            if !same_prev {
                return false;
            }
            let same_next = chain_eq(&x.next, &y.next);
            if !same_next {
                return false;
            }
            let res = path_eq(&x.parent, &y.parent);
            proof {
                if res {
                    assert(path_chain(*a) =~= path_chain(*b));
                }
            }
            res
        },
        (None, None) => true,
        (Some(x), None) => {
            proof {
                lemma_cons(
                    Frame { prev: rev_chain(x.prev), next: chain(x.next), label: x.label@ },
                    path_chain(x.parent),
                );
            }
            false
        },
        (None, Some(y)) => {
            proof {
                lemma_cons(
                    Frame { prev: rev_chain(y.prev), next: chain(y.next), label: y.label@ },
                    path_chain(y.parent),
                );
            }
            false
        },
    }
}

impl FocusNode {
    /// Whether two zippers hold the same forest with the same focus.
    pub fn same_view(&self, other: &FocusNode) -> (res: bool)
        ensures
            res == (self@ == other@),
    {
        self.label == other.label && chain_eq(&self.child, &other.child) && chain_eq(
            &self.next,
            &other.next,
        ) && rev_eq(&self.prev, &other.prev) && path_eq(&self.parent, &other.parent)
    }
}

} // verus!
