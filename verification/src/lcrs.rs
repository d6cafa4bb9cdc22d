use vstd::prelude::*;

verus! {

/// An ordered forest of labelled multi-way trees, encoded as a binary tree:
/// a node's left link is its first child and its right link is its next
/// sibling (the roots of the forest are siblings of each other).
pub enum Lcrs {
    Empty,
    Node(Seq<char>, Box<Lcrs>, Box<Lcrs>),
}

/// One step on a path from the top of a binary forest down to a sub-forest.
pub enum Step {
    /// Went into the child of a node with this label and this sibling.
    Down(Seq<char>, Lcrs),
    /// Went into the sibling of a node with this label and this child.
    Right(Seq<char>, Lcrs),
}

/// A binary forest split into a path (outermost step first) and the
/// sub-forest at its end.
pub struct Zip {
    pub path: Seq<Step>,
    pub focus: Lcrs,
}

impl Lcrs {
    pub open spec fn node(label: Seq<char>, child: Lcrs, sibling: Lcrs) -> Lcrs {
        Lcrs::Node(label, Box::new(child), Box::new(sibling))
    }

    /// Number of nodes.
    pub open spec fn size(self) -> nat
        decreases self,
    {
        match self {
            Lcrs::Empty => 0,
            Lcrs::Node(_, c, s) => 1 + c.size() + s.size(),
        }
    }

    /// Labels in pre-order (a node, then its children, then its next siblings).
    pub open spec fn labels(self) -> Seq<Seq<char>>
        decreases self,
    {
        match self {
            Lcrs::Empty => Seq::empty(),
            Lcrs::Node(l, c, s) => seq![l] + c.labels() + s.labels(),
        }
    }

    /// The forest whose trees are those of `self` followed by those of `other`.
    pub open spec fn concat(self, other: Lcrs) -> Lcrs
        decreases self,
    {
        match self {
            Lcrs::Empty => other,
            Lcrs::Node(l, c, s) => Lcrs::node(l, *c, s.concat(other)),
        }
    }

    /// Number of trees in the forest.
    pub open spec fn root_count(self) -> nat
        decreases self,
    {
        match self {
            Lcrs::Empty => 0,
            Lcrs::Node(_, _, s) => 1 + s.root_count(),
        }
    }
}

/// Put back the node that `st` stepped through, around `f`.
pub open spec fn wrap(st: Step, f: Lcrs) -> Lcrs {
    match st {
        Step::Down(l, s) => Lcrs::node(l, f, s),
        Step::Right(l, c) => Lcrs::node(l, c, f),
    }
}

/// The whole forest, given a path and the sub-forest at its end.
pub open spec fn plug(path: Seq<Step>, f: Lcrs) -> Lcrs
    decreases path.len(),
{
    if path.len() == 0 {
        f
    } else {
        plug(path.drop_last(), wrap(path.last(), f))
    }
}

pub open spec fn step_before(st: Step) -> Seq<Seq<char>> {
    match st {
        Step::Down(l, _) => seq![l],
        Step::Right(l, c) => seq![l] + c.labels(),
    }
}

pub open spec fn step_after(st: Step) -> Seq<Seq<char>> {
    match st {
        Step::Down(_, s) => s.labels(),
        Step::Right(_, _) => Seq::empty(),
    }
}

/// Labels that come before the end of the path in pre-order.
pub open spec fn before(path: Seq<Step>) -> Seq<Seq<char>>
    decreases path.len(),
{
    if path.len() == 0 {
        Seq::empty()
    } else {
        before(path.drop_last()) + step_before(path.last())
    }
}

/// Labels that come after the sub-forest at the end of the path in pre-order.
pub open spec fn after(path: Seq<Step>) -> Seq<Seq<char>>
    decreases path.len(),
{
    if path.len() == 0 {
        Seq::empty()
    } else {
        step_after(path.last()) + after(path.drop_last())
    }
}

/// Walk from `t` (reached by `path`) to the node of pre-order index `i`
/// within `t`, or to the empty sub-forest where such a walk ends.
pub open spec fn descend(t: Lcrs, i: nat, path: Seq<Step>) -> Zip
    decreases t,
{
    match t {
        Lcrs::Empty => Zip { path, focus: Lcrs::Empty },
        Lcrs::Node(l, c, s) => {
            if i == 0 {
                Zip { path, focus: t }
            } else if i <= c.size() {
                descend(*c, (i - 1) as nat, path.push(Step::Down(l, *s)))
            } else {
                descend(*s, (i - 1 - c.size()) as nat, path.push(Step::Right(l, *c)))
            }
        }
    }
}

/// The zipper focused on pre-order index `i` of the forest `t`.
pub open spec fn focus_at(t: Lcrs, i: nat) -> Zip {
    descend(t, i, Seq::empty())
}

pub proof fn lemma_node_labels(l: Seq<char>, c: Lcrs, s: Lcrs)
    ensures
        Lcrs::node(l, c, s).labels() == seq![l] + c.labels() + s.labels(),
        Lcrs::node(l, c, s).size() == 1 + c.size() + s.size(),
        Lcrs::Empty.labels() == Seq::<Seq<char>>::empty(),
        Lcrs::Empty.size() == 0,
        Lcrs::Empty.concat(s) == s,
{
}

pub proof fn lemma_size_labels(t: Lcrs)
    ensures
        t.size() == t.labels().len(),
    decreases t,
{
    match t {
        Lcrs::Empty => {},
        Lcrs::Node(_, c, s) => {
            lemma_size_labels(*c);
            lemma_size_labels(*s);
        },
    }
}

pub proof fn lemma_plug_push(path: Seq<Step>, st: Step, f: Lcrs)
    ensures
        plug(path.push(st), f) == plug(path, wrap(st, f)),
        before(path.push(st)) == before(path) + step_before(st),
        after(path.push(st)) == step_after(st) + after(path),
{
    assert(path.push(st).drop_last() =~= path);
}

pub proof fn lemma_labels_plug(path: Seq<Step>, f: Lcrs)
    ensures
        plug(path, f).labels() == before(path) + f.labels() + after(path),
    decreases path.len(),
{
    if path.len() > 0 {
        let p = path.drop_last();
        let st = path.last();
        lemma_labels_plug(p, wrap(st, f));
        assert(plug(path, f).labels() =~= before(path) + f.labels() + after(path));
    }
}

pub proof fn lemma_size_plug(path: Seq<Step>, f: Lcrs)
    ensures
        plug(path, f).size() == before(path).len() + f.size() + after(path).len(),
{
    lemma_labels_plug(path, f);
    lemma_size_labels(plug(path, f));
    lemma_size_labels(f);
}

pub proof fn lemma_plug_descend(t: Lcrs, i: nat, path: Seq<Step>)
    ensures
        plug(descend(t, i, path).path, descend(t, i, path).focus) == plug(path, t),
    decreases t,
{
    match t {
        Lcrs::Empty => {},
        Lcrs::Node(l, c, s) => {
            if i == 0 {
            } else if i <= c.size() {
                lemma_plug_descend(*c, (i - 1) as nat, path.push(Step::Down(l, *s)));
                lemma_plug_push(path, Step::Down(l, *s), *c);
            } else {
                lemma_plug_descend(*s, (i - 1 - c.size()) as nat, path.push(Step::Right(l, *c)));
                lemma_plug_push(path, Step::Right(l, *c), *s);
            }
        },
    }
}

pub proof fn lemma_descend_index(t: Lcrs, i: nat, path: Seq<Step>)
    ensures
        i < t.size() ==> descend(t, i, path).focus is Node,
        i < t.size() ==> before(descend(t, i, path).path).len() == before(path).len() + i,
        i >= t.size() ==> descend(t, i, path).focus is Empty,
        i >= t.size() ==> before(descend(t, i, path).path).len() == before(path).len() + t.size(),
    decreases t,
{
    match t {
        Lcrs::Empty => {},
        Lcrs::Node(l, c, s) => {
            lemma_size_labels(*c);
            if i == 0 {
            } else if i <= c.size() {
                lemma_descend_index(*c, (i - 1) as nat, path.push(Step::Down(l, *s)));
                lemma_plug_push(path, Step::Down(l, *s), *c);
            } else {
                lemma_descend_index(*s, (i - 1 - c.size()) as nat, path.push(Step::Right(l, *c)));
                lemma_plug_push(path, Step::Right(l, *c), *s);
            }
        },
    }
}

pub proof fn lemma_concat(a: Lcrs, b: Lcrs)
    ensures
        a.concat(b).labels() == a.labels() + b.labels(),
        a.concat(b).size() == a.size() + b.size(),
    decreases a,
{
    match a {
        Lcrs::Empty => {
            assert(a.labels() + b.labels() =~= b.labels());
        },
        Lcrs::Node(l, c, s) => {
            lemma_concat(*s, b);
            assert(a.concat(b).labels() =~= a.labels() + b.labels());
        },
    }
}

pub proof fn lemma_concat_empty(a: Lcrs)
    ensures
        a.concat(Lcrs::Empty) == a,
    decreases a,
{
    match a {
        Lcrs::Empty => {},
        Lcrs::Node(l, c, s) => {
            lemma_concat_empty(*s);
        },
    }
}

pub proof fn lemma_concat_roots(a: Lcrs, b: Lcrs)
    ensures
        a.concat(b).root_count() == a.root_count() + b.root_count(),
    decreases a,
{
    match a {
        Lcrs::Empty => {},
        Lcrs::Node(_, _, s) => {
            lemma_concat_roots(*s, b);
        },
    }
}

/// Replacing the sub-forest at the end of a path by one of the same size
/// keeps the size of the whole forest.
pub proof fn lemma_plug_same_size(path: Seq<Step>, f: Lcrs, g: Lcrs)
    requires
        f.size() == g.size(),
    ensures
        plug(path, f).size() == plug(path, g).size(),
{
    lemma_size_plug(path, f);
    lemma_size_plug(path, g);
}

/// The sub-forest at the end of a path is no larger than the whole forest.
pub proof fn lemma_plug_bound(path: Seq<Step>, f: Lcrs)
    ensures
        f.size() <= plug(path, f).size(),
        before(path).len() <= plug(path, f).size(),
{
    lemma_size_plug(path, f);
}

pub proof fn lemma_plug_first(st: Step, q: Seq<Step>, f: Lcrs)
    ensures
        plug(seq![st] + q, f) == wrap(st, plug(q, f)),
        before(seq![st] + q) == step_before(st) + before(q),
        after(seq![st] + q) == after(q) + step_after(st),
    decreases q.len(),
{
    if q.len() == 0 {
        assert(seq![st] + q =~= Seq::<Step>::empty().push(st));
        lemma_plug_push(Seq::empty(), st, f);
        assert(before(Seq::<Step>::empty()) + step_before(st) =~= step_before(st) + before(q));
        assert(step_after(st) + after(Seq::<Step>::empty()) =~= after(q) + step_after(st));
    } else {
        let q0 = q.drop_last();
        let last = q.last();
        lemma_plug_first(st, q0, wrap(last, f));
        assert((seq![st] + q).drop_last() =~= seq![st] + q0);
        assert((seq![st] + q).last() == last);
        lemma_plug_push(q0, last, f);
        assert(q0.push(last) =~= q);
        assert(before(seq![st] + q) =~= step_before(st) + before(q));
        assert(after(seq![st] + q) =~= after(q) + step_after(st));
    }
}

/// Focusing on the pre-order index of a zipper's (non-empty) focus in the
/// forest it represents gives back that zipper.
pub proof fn lemma_refocus(acc: Seq<Step>, q: Seq<Step>, f: Lcrs)
    requires
        f is Node,
    ensures
        descend(plug(q, f), before(q).len(), acc) == (Zip { path: acc + q, focus: f }),
    decreases q.len(),
{
    if q.len() == 0 {
        assert(acc + q =~= acc);
    } else {
        let st = q.first();
        let q1 = q.drop_first();
        assert(q =~= seq![st] + q1);
        lemma_plug_first(st, q1, f);
        lemma_size_plug(q1, f);
        lemma_size_labels(f);
        lemma_refocus(acc.push(st), q1, f);
        assert(acc.push(st) + q1 =~= acc + q);
        match st {
            Step::Down(l, s) => {},
            Step::Right(l, c) => {
                lemma_size_labels(c);
            },
        }
    }
}

/// The label at a zipper's focus is the one at its index in the forest.
pub proof fn lemma_focus_label(z: Zip)
    requires
        z.focus is Node,
    ensures
        before(z.path).len() < plug(z.path, z.focus).labels().len(),
        plug(z.path, z.focus).labels()[before(z.path).len() as int] == z.focus->Node_0,
{
    lemma_labels_plug(z.path, z.focus);
}

/// Focusing on index `i` and putting the forest back together gives the
/// same forest; the focus is at index `i` if there is a node there, and is
/// empty at the end of the forest otherwise.
pub proof fn lemma_focus_at(t: Lcrs, i: nat)
    ensures
        plug(focus_at(t, i).path, focus_at(t, i).focus) == t,
        i < t.size() ==> focus_at(t, i).focus is Node,
        i < t.size() ==> before(focus_at(t, i).path).len() == i,
        i < t.size() ==> focus_at(t, i).focus->Node_0 == t.labels()[i as int],
        i >= t.size() ==> focus_at(t, i).focus is Empty,
        i >= t.size() ==> before(focus_at(t, i).path).len() == t.size(),
{
    lemma_plug_descend(t, i, Seq::empty());
    lemma_descend_index(t, i, Seq::empty());
    if i < t.size() {
        lemma_focus_label(focus_at(t, i));
    }
}

} // verus!
