use vstd::prelude::*;

use crate::lcrs::Lcrs;
use crate::view::{law_scroll_shows_index, sat_sub, scroll_start};
use crate::zipper::{FocusNode, to_forest};
use crate::zipper::iter::{Info, NodeInfo, NodePosition, focus_index, focus_iter, info, items_of};

verus! {

/// Data used to render a single forest line.
pub struct LineContent<'a> {
    pub tree_prefix: String,
    pub label: &'a str,
    pub is_focused: bool,
}

/// Content of the visible window, plus flags for if there is more to scroll.
pub struct ForestWindow<'a> {
    pub items: Vec<LineContent<'a>>,
    pub more_above: bool,
    pub more_below: bool,
}

impl ForestWindow<'_> {
    /// A window that shows nothing.
    pub fn empty() -> (res: Self)
        ensures
            res.items@.len() == 0,
            !res.more_above,
            !res.more_below,
    {
        Self { items: Vec::new(), more_above: false, more_below: false }
    }
}

/// A text block used for tree drawing: blank, or a vertical bar that leads
/// to a later sibling of an ancestor.
#[derive(Clone, Copy, PartialEq, Eq, Debug)]
pub enum IndentBlock {
    Spacer,
    VertBar,
}

impl IndentBlock {
    /// The text the block is drawn as.
    pub open spec fn text(self) -> Seq<char> {
        match self {
            IndentBlock::Spacer => "   "@,
            IndentBlock::VertBar => "│  "@,
        }
    }
}

/// The block drawn below a node for its descendants: a bar when siblings
/// follow it.
pub open spec fn continuation(is_last: bool) -> IndentBlock {
    if is_last {
        IndentBlock::Spacer
    } else {
        IndentBlock::VertBar
    }
}

/// The branch drawn in front of a node.
pub open spec fn branch_text(is_last: bool) -> Seq<char> {
    if is_last {
        "└──"@
    } else {
        "├──"@
    }
}

/// The text of a sequence of blocks.
pub open spec fn indent_text(blocks: Seq<IndentBlock>) -> Seq<char>
    decreases blocks.len(),
{
    if blocks.len() == 0 {
        Seq::empty()
    } else {
        indent_text(blocks.drop_last()) + blocks.last().text()
    }
}

/// The tree prefixes of the lines of the forest `t`, whose first node is at
/// position `p`, below ancestors whose blocks are `bars`: roots get none;
/// other nodes get their ancestors' blocks and a branch.
pub open spec fn tree_prefixes(t: Lcrs, p: NodePosition, bars: Seq<IndentBlock>) -> Seq<Seq<char>>
    decreases t,
{
    match t {
        Lcrs::Empty => Seq::empty(),
        Lcrs::Node(l, c, s) => match p {
            NodePosition::Root => seq![Seq::<char>::empty()] + tree_prefixes(
                *c,
                NodePosition::FirstChild,
                Seq::empty(),
            ) + tree_prefixes(*s, NodePosition::Root, Seq::empty()),
            _ => seq![indent_text(bars) + branch_text(*s is Empty)] + tree_prefixes(
                *c,
                NodePosition::FirstChild,
                bars.push(continuation(*s is Empty)),
            ) + tree_prefixes(*s, NodePosition::SubsequentChild, bars),
        },
    }
}

/// The blocks left once the trailing spacers and the block before them are
/// removed.
pub open spec fn pop_spacers(stack: Seq<IndentBlock>) -> Seq<IndentBlock>
    decreases stack.len(),
{
    if stack.len() == 0 {
        stack
    } else if stack.last() == IndentBlock::Spacer {
        pop_spacers(stack.drop_last())
    } else {
        stack.drop_last()
    }
}

/// One step of the line builder: the blocks kept for the next line and the
/// prefix of a node at position `p`.
pub open spec fn prefix_step(stack: Seq<IndentBlock>, p: NodePosition, is_last: bool) -> (
    Seq<IndentBlock>,
    Seq<char>,
) {
    match p {
        NodePosition::Root => (Seq::empty(), Seq::empty()),
        NodePosition::FirstChild => (
            stack.push(continuation(is_last)),
            indent_text(stack) + branch_text(is_last),
        ),
        NodePosition::SubsequentChild => (
            pop_spacers(stack).push(continuation(is_last)),
            indent_text(pop_spacers(stack)) + branch_text(is_last),
        ),
    }
}

/// The blocks and prefixes after the line builder has read `items`.
pub open spec fn prefix_run(stack: Seq<IndentBlock>, items: Seq<Info>) -> (
    Seq<IndentBlock>,
    Seq<Seq<char>>,
)
    decreases items.len(),
{
    if items.len() == 0 {
        (stack, Seq::empty())
    } else {
        let first = prefix_step(stack, items[0].1, items[0].2);
        let rest = prefix_run(first.0, items.drop_first());
        (rest.0, seq![first.1] + rest.1)
    }
}

pub(crate) proof fn lemma_run_concat(stack: Seq<IndentBlock>, a: Seq<Info>, b: Seq<Info>)
    ensures
        prefix_run(stack, a + b).0 == prefix_run(prefix_run(stack, a).0, b).0,
        prefix_run(stack, a + b).1 == prefix_run(stack, a).1 + prefix_run(
            prefix_run(stack, a).0,
            b,
        ).1,
    decreases a.len(),
{
    if a.len() == 0 {
        assert(a + b == b);
    } else {
        let first = prefix_step(stack, a[0].1, a[0].2);
        assert((a + b).drop_first() == a.drop_first() + b);
        lemma_run_concat(first.0, a.drop_first(), b);
    }
}

/// `stack` is `bars` followed by one or more spacers.
pub open spec fn spaced(stack: Seq<IndentBlock>, bars: Seq<IndentBlock>) -> bool {
    &&& stack.len() > bars.len()
    &&& stack.subrange(0, bars.len() as int) == bars
    &&& forall|i: int| bars.len() <= i < stack.len() ==> #[trigger] stack[i] == IndentBlock::Spacer
}

proof fn lemma_pop_to_bar(stack: Seq<IndentBlock>, bars: Seq<IndentBlock>)
    requires
        stack == bars.push(IndentBlock::VertBar) || spaced(stack, bars.push(IndentBlock::VertBar)),
    ensures
        pop_spacers(stack) == bars,
    decreases stack.len(),
{
    let q = bars.push(IndentBlock::VertBar);
    if stack == q {
        assert(stack.drop_last() == bars);
    } else {
        assert(stack.last() == IndentBlock::Spacer);
        let d = stack.drop_last();
        if d.len() > q.len() {
            assert(d.subrange(0, q.len() as int) == stack.subrange(0, q.len() as int));
            assert forall|i: int| q.len() <= i < d.len() implies #[trigger] d[i] == IndentBlock::Spacer by {
                assert(d[i] == stack[i]);
            }
        } else {
            assert(d == stack.subrange(0, q.len() as int));
        }
        lemma_pop_to_bar(d, bars);
    }
}

proof fn lemma_spacer_spaced(stack: Seq<IndentBlock>, bars: Seq<IndentBlock>)
    requires
        stack == bars.push(IndentBlock::Spacer) || spaced(stack, bars.push(IndentBlock::Spacer)),
    ensures
        spaced(stack, bars),
{
    let q = bars.push(IndentBlock::Spacer);
    assert(stack.subrange(0, q.len() as int) == q);
    assert(stack.subrange(0, bars.len() as int) == q.subrange(0, bars.len() as int));
    assert(q.subrange(0, bars.len() as int) == bars);
    assert forall|i: int| bars.len() <= i < stack.len() implies #[trigger] stack[i] == IndentBlock::Spacer by {
        if i == bars.len() {
            assert(stack[i] == stack.subrange(0, q.len() as int)[i]);
        }
    }
}

pub(crate) proof fn lemma_run_single(stack: Seq<IndentBlock>, x: Info)
    ensures
        prefix_run(stack, seq![x]).0 == prefix_step(stack, x.1, x.2).0,
        prefix_run(stack, seq![x]).1 == seq![prefix_step(stack, x.1, x.2).1],
{
    let first = prefix_step(stack, x.1, x.2);
    assert(seq![x].drop_first().len() == 0);
    assert(prefix_run(first.0, seq![x].drop_first()).1 == Seq::<Seq<char>>::empty());
    assert(seq![first.1] + Seq::<Seq<char>>::empty() == seq![first.1]);
}

/// Reading the nodes of a sibling list below the root level gives their tree
/// prefixes, and leaves the ancestors' blocks followed by spacers.
proof fn lemma_run_level(t: Lcrs, p: NodePosition, bars: Seq<IndentBlock>, stack: Seq<IndentBlock>)
    requires
        p != NodePosition::Root,
        p == NodePosition::FirstChild ==> stack == bars,
        p == NodePosition::SubsequentChild ==> pop_spacers(stack) == bars,
    ensures
        prefix_run(stack, info(t, p)).1 == tree_prefixes(t, p, bars),
        t is Empty ==> prefix_run(stack, info(t, p)).0 == stack,
        t is Node ==> spaced(prefix_run(stack, info(t, p)).0, bars),
    decreases t,
{
    match t {
        Lcrs::Empty => {
            assert(info(t, p).len() == 0);
            assert(prefix_run(stack, info(t, p)).1 == Seq::<Seq<char>>::empty());
            assert(tree_prefixes(t, p, bars) == Seq::<Seq<char>>::empty());
        },
        Lcrs::Node(l, c, s) => {
            let last = *s is Empty;
            let x: Info = (l, p, last);
            let a = info(*c, NodePosition::FirstChild);
            let b = info(*s, NodePosition::SubsequentChild);
            assert(info(t, p) == seq![x] + a + b);
            lemma_run_single(stack, x);
            let s1 = bars.push(continuation(last));
            assert(prefix_step(stack, p, last).0 == s1);
            lemma_run_level(*c, NodePosition::FirstChild, s1, s1);
            let s2 = prefix_run(s1, a).0;
            lemma_run_concat(stack, seq![x], a);
            lemma_run_concat(stack, seq![x] + a, b);
            assert(prefix_step(stack, p, last).1 == indent_text(bars) + branch_text(last));
            if last {
                lemma_spacer_spaced(s2, bars);
                assert(b.len() == 0);
                assert(prefix_run(s2, b).0 == s2);
                assert(prefix_run(s2, b).1 == Seq::<Seq<char>>::empty());
                assert(tree_prefixes(*s, NodePosition::SubsequentChild, bars) == Seq::<
                    Seq<char>,
                >::empty());
            } else {
                lemma_pop_to_bar(s2, bars);
                lemma_run_level(*s, NodePosition::SubsequentChild, bars, s2);
            }
            assert(prefix_run(stack, info(t, p)).1 == tree_prefixes(t, p, bars));
        },
    }
}

/// Reading the nodes of a forest from its roots gives their tree prefixes,
/// whatever blocks were kept before.
pub(crate) proof fn lemma_run_roots(t: Lcrs, stack: Seq<IndentBlock>)
    ensures
        prefix_run(stack, info(t, NodePosition::Root)).1 == tree_prefixes(
            t,
            NodePosition::Root,
            Seq::empty(),
        ),
    decreases t,
{
    match t {
        Lcrs::Empty => {},
        Lcrs::Node(l, c, s) => {
            let x: Info = (l, NodePosition::Root, *s is Empty);
            let a = info(*c, NodePosition::FirstChild);
            let b = info(*s, NodePosition::Root);
            assert(info(t, NodePosition::Root) == seq![x] + a + b);
            lemma_run_single(stack, x);
            lemma_run_level(*c, NodePosition::FirstChild, Seq::empty(), Seq::empty());
            lemma_run_concat(stack, seq![x], a);
            lemma_run_concat(stack, seq![x] + a, b);
            lemma_run_roots(*s, prefix_run(Seq::empty(), a).0);
        },
    }
}

/// The text of a block.
fn block_text(block: IndentBlock) -> (res: &'static str)
    ensures
        res@ == block.text(),
{
    match block {
        IndentBlock::Spacer => "   ",
        IndentBlock::VertBar => "│  ",
    }
}

/// The text of the blocks in `stack`.
fn indent_string(stack: &Vec<IndentBlock>) -> (res: String)
    ensures
        res@ == indent_text(stack@),
{
    let mut text = String::new();
    let mut j: usize = 0;
    while j < stack.len()
        invariant
            j <= stack@.len(),
            text@ == indent_text(stack@.take(j as int)),
        decreases stack@.len() - j,
    {
        proof {
            assert(stack@.take(j + 1).drop_last() == stack@.take(j as int));
        }
        text.append(block_text(stack[j]));
        j = j + 1;
    }
    proof {
        assert(stack@.take(j as int) == stack@);
    }
    text
}

/// Pop the trailing spacers of `stack` and the block before them.
pub(crate) fn pop_trailing_spacers(stack: &mut Vec<IndentBlock>)
    ensures
        final(stack)@ == pop_spacers(old(stack)@),
{
    let ghost target = pop_spacers(stack@);
    loop
        invariant_except_break
            pop_spacers(stack@) == target,
        ensures
            stack@ == target,
        decreases stack@.len(),
    {
        match stack.pop() {
            Some(IndentBlock::Spacer) => {},
            _ => break,
        }
    }
}

/// The prefix of a node below the ancestors' blocks in `stack`, whose own
/// block is then pushed for its descendants.
pub(crate) fn child_prefix(stack: &mut Vec<IndentBlock>, is_last: bool) -> (res: String)
    ensures
        res@ == indent_text(old(stack)@) + branch_text(is_last),
        final(stack)@ == old(stack)@.push(continuation(is_last)),
{
    let mut text = indent_string(stack);
    if is_last {
        text.append("└──");
        stack.push(IndentBlock::Spacer);
    } else {
        text.append("├──");
        stack.push(IndentBlock::VertBar);
    }
    text
}

/// Return the lines that display the forest around `focus`, in pre-order:
/// each node's label, whether it is focused, and the tree drawn in front of it.
pub fn forest_lines<'a>(focus: Option<&'a FocusNode>) -> (res: Vec<LineContent<'a>>)
    ensures
        focus is None ==> res@.len() == 0,
        focus matches Some(f) ==> {
            let t = to_forest(f@);
            &&& res@.len() == t.size()
            &&& forall|k: int|
                0 <= k < res@.len() ==> {
                    &&& (#[trigger] res@[k]).tree_prefix@ == tree_prefixes(
                        t,
                        NodePosition::Root,
                        Seq::empty(),
                    )[k]
                    &&& res@[k].label@ == info(t, NodePosition::Root)[k].0
                    &&& res@[k].is_focused == (k == focus_index(f@))
                }
            &&& focus_index(f@) < res@.len()
            &&& res@[focus_index(f@) as int].label@ == f@.label
        },
{
    let focus = match focus {
        Some(f) => f,
        None => return Vec::new(),
    };
    let infos = focus_iter(focus);
    let ghost items = items_of(infos@);
    let mut lines: Vec<LineContent<'a>> = Vec::new();
    let mut stack: Vec<IndentBlock> = Vec::new();
    let mut i: usize = 0;
    while i < infos.len()
        invariant
            items == items_of(infos@),
            i <= infos@.len(),
            lines@.len() == i,
            stack@ == prefix_run(Seq::empty(), items.take(i as int)).0,
            prefix_run(Seq::empty(), items.take(i as int)).1.len() == i,
            forall|k: int|
                0 <= k < i ==> {
                    &&& (#[trigger] lines@[k]).tree_prefix@ == prefix_run(
                        Seq::empty(),
                        items.take(i as int),
                    ).1[k]
                    &&& lines@[k].label == infos@[k].label
                    &&& lines@[k].is_focused == infos@[k].is_focused
                },
        decreases infos@.len() - i,
    {
        let node = &infos[i];
        let is_last = node.is_last_sibling;
        let ghost before = prefix_run(Seq::empty(), items.take(i as int));
        let ghost step = prefix_step(stack@, node.position, is_last);
        proof {
            assert(items[i as int] == node.item());
            assert(items.take(i + 1) == items.take(i as int) + seq![items[i as int]]);
            lemma_run_concat(Seq::empty(), items.take(i as int), seq![items[i as int]]);
            lemma_run_single(before.0, items[i as int]);
        }
        let tree_prefix = match node.position {
            NodePosition::Root => {
                stack.clear();
                String::new()
            },
            NodePosition::FirstChild => child_prefix(&mut stack, is_last),
            NodePosition::SubsequentChild => {
                pop_trailing_spacers(&mut stack);
                child_prefix(&mut stack, is_last)
            },
        };
        assert(stack@ == step.0);
        assert(tree_prefix@ == step.1);
        lines.push(LineContent { tree_prefix, label: node.label, is_focused: node.is_focused });
        i = i + 1;
    }
    proof {
        assert(items.take(i as int) == items);
        lemma_run_roots(to_forest(focus@), Seq::empty());
        crate::zipper::iter::lemma_info_len(to_forest(focus@), NodePosition::Root);
    }
    lines
}

/// The line the window is built around: the first focused line, or the last
/// line when none is focused.
pub open spec fn window_focus(lines: Seq<LineContent>) -> int
    decreases lines.len(),
{
    if lines.len() <= 1 || lines[0].is_focused {
        0
    } else {
        1 + window_focus(lines.drop_first())
    }
}

proof fn lemma_window_focus(lines: Seq<LineContent>)
    requires
        lines.len() > 0,
    ensures
        0 <= window_focus(lines) < lines.len(),
        forall|k: int| 0 <= k < window_focus(lines) ==> !(#[trigger] lines[k]).is_focused,
        window_focus(lines) < lines.len() - 1 ==> lines[window_focus(lines)].is_focused,
    decreases lines.len(),
{
    if lines.len() > 1 && !lines[0].is_focused {
        let rest = lines.drop_first();
        lemma_window_focus(rest);
        assert forall|k: int| 0 <= k < window_focus(lines) implies !(#[trigger] lines[k]).is_focused by {
            if k > 0 {
                assert(lines[k] == rest[k - 1]);
            }
        }
    }
}

/// Build a window of `window_height` visible lines that centers the focused
/// line where the lines around it allow.
pub fn build_forest_window<'a>(lines: Vec<LineContent<'a>>, window_height: usize) -> (res: ForestWindow<'a>)
    ensures
        window_height == 0 || lines@.len() == 0 ==> res.items@.len() == 0 && !res.more_above
            && !res.more_below,
        window_height > 0 && lines@.len() > 0 ==> {
            let n = lines@.len() as int;
            let start = scroll_start(window_height as int, n, window_focus(lines@));
            let end = if start + window_height < n {
                start + window_height
            } else {
                n
            };
            &&& res.items@ == lines@.subrange(start, end)
            &&& res.more_above == (start > 0)
            &&& res.more_below == (end < n)
        },
{
    let n = lines.len();
    if window_height == 0 || n == 0 {
        return ForestWindow::empty();
    }
    let ghost f = window_focus(lines@);
    proof {
        lemma_window_focus(lines@);
    }
    let h = window_height;
    // The queue of candidate lines is the range [qs, qe) of `lines`.
    let mut qs: usize = 0;
    let mut qe: usize = 0;
    let mut more_above = false;
    while qe < n
        invariant_except_break
            qe <= f || qe == n && f == n - 1,
        invariant
            n == lines@.len(),
            h == window_height,
            h > 0,
            0 <= f < n,
            forall|k: int| 0 <= k < f ==> !(#[trigger] lines@[k]).is_focused,
            f < n - 1 ==> lines@[f].is_focused,
            qe <= n,
            qs as int == sat_sub(qe as int, h as int),
            more_above == (qs > 0),
        ensures
            qe == f + 1,
        decreases n - qe,
    {
        if qe - qs == h {
            qs = qs + 1;
            more_above = true;
        }
        let focused = lines[qe].is_focused;
        qe = qe + 1;
        if focused {
            break;
        }
    }
    let center = h / 2;
    let mut focus_idx: usize = qe - qs - 1;
    let mut more_below = false;
    while qe < n
        invariant_except_break
            !more_below,
        invariant
            n == lines@.len(),
            h == window_height,
            h > 0,
            center == h / 2,
            f < qe <= n,
            qs as int == sat_sub(qe as int, h as int),
            qs <= f,
            focus_idx == f - qs,
            qs <= sat_sub(f, center as int),
            more_above == (qs > 0),
        ensures
            qe == n && !more_below || qe < n && more_below && qe - qs == h && focus_idx <= center,
        decreases n - qe,
    {
        if qe - qs < h {
            qe = qe + 1;
        } else if focus_idx <= center {
            more_below = true;
            break;
        } else {
            qs = qs + 1;
            qe = qe + 1;
            more_above = true;
            focus_idx = focus_idx - 1;
        }
    }
    let mut lines = lines;
    let _after = lines.split_off(qe);
    let items = lines.split_off(qs);
    ForestWindow { items, more_above, more_below }
}

/// The window built around the lines always shows the focused line when the
/// area has room for a line: its index `f` lies in `[start, end)`.
pub proof fn law_window_holds_focus(lines: Seq<LineContent>, window_height: nat, f: int)
    requires
        window_height > 0,
        0 <= f < lines.len(),
        lines[f].is_focused,
        forall|k: int| 0 <= k < f ==> !(#[trigger] lines[k]).is_focused,
    ensures
        window_focus(lines) == f,
        ({
            let start = scroll_start(window_height as int, lines.len() as int, f);
            start <= f < start + window_height && f < lines.len()
        }),
{
    lemma_window_focus(lines);
    if window_focus(lines) < f {
        assert(!lines[window_focus(lines)].is_focused);
    }
    law_scroll_shows_index(window_height as int, lines.len() as int, f);
}

} // verus!
