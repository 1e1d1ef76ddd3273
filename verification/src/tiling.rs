use vstd::prelude::*;

use crate::app::Tab;

verus! {

/// How a split divides its area between its two children.
#[derive(Debug, Clone, Copy, PartialEq, Eq, Structural)]
pub enum SplitDir {
    /// Side by side: left | right.
    Horizontal,
    /// Stacked: top / bottom.
    Vertical,
}

/// One turn on the way from the root of the tile tree to a pane.
#[derive(Debug, Clone, Copy, PartialEq, Eq, Structural)]
pub enum Side {
    Left,
    Right,
}

/// IEEE-754 bit pattern of the `f32` value 0.5, the share that a fresh split
/// gives to its first child.
pub const HALF_RATIO_BITS: u32 = 0x3F00_0000u32;

/// A binary space partition of the screen: every leaf is a pane showing a tab.
#[derive(Debug)]
pub enum Tile {
    Leaf(Tab),
    Split {
        dir: SplitDir,
        /// Share of the first child, as the bit pattern of an `f32` in `[0, 1]`.
        ratio_bits: u32,
        left: Box<Tile>,
        right: Box<Tile>,
    },
}

/// A path from the root to a node: the sequence of left/right turns.
#[derive(Debug, Clone)]
pub struct Path(pub Vec<Side>);

impl View for Path {
    type V = Seq<Side>;

    open spec fn view(&self) -> Seq<Side> {
        self.0@
    }
}

impl Tile {
    /// The tabs of the panes, left to right (top to bottom).
    pub open spec fn leaves(self) -> Seq<Tab>
        decreases self,
    {
        match self {
            Tile::Leaf(t) => seq![t],
            Tile::Split { left, right, .. } => left.leaves() + right.leaves(),
        }
    }

    /// The paths of the panes, in the same order as `leaves`.
    pub open spec fn leaf_paths(self) -> Seq<Seq<Side>>
        decreases self,
    {
        match self {
            Tile::Leaf(_) => seq![Seq::<Side>::empty()],
            Tile::Split { left, right, .. } => prefix_all(Side::Left, left.leaf_paths())
                + prefix_all(Side::Right, right.leaf_paths()),
        }
    }

    /// The path to the first (leftmost, topmost) pane.
    pub open spec fn first_leaf_path(self) -> Seq<Side>
        decreases self,
    {
        match self {
            Tile::Leaf(_) => Seq::empty(),
            Tile::Split { left, .. } => seq![Side::Left] + left.first_leaf_path(),
        }
    }

    /// The child on the given side; `None` for a leaf.
    pub open spec fn child(self, s: Side) -> Option<Tile> {
        match self {
            Tile::Leaf(_) => None,
            Tile::Split { left, right, .. } => if s == Side::Left {
                Some(*left)
            } else {
                Some(*right)
            },
        }
    }

    /// The node that path `p` leads to, if it leads anywhere.
    pub open spec fn node_at(self, p: Seq<Side>) -> Option<Tile>
        decreases self, p.len(),
    {
        if p.len() == 0 {
            Some(self)
        } else {
            match self {
                Tile::Leaf(_) => None,
                Tile::Split { left, right, .. } => if p[0] == Side::Left {
                    left.node_at(p.drop_first())
                } else {
                    right.node_at(p.drop_first())
                },
            }
        }
    }

    /// The tab of the pane that path `p` leads to; `None` when `p` does not end at a pane.
    pub open spec fn leaf_at(self, p: Seq<Side>) -> Option<Tab> {
        match self.node_at(p) {
            Some(Tile::Leaf(t)) => Some(t),
            _ => None,
        }
    }

    /// The tree with the node at `p` replaced by `f(node)`; unchanged when `p` leads nowhere.
    pub open spec fn replace_at(self, p: Seq<Side>, new_node: spec_fn(Tile) -> Tile) -> Tile
        decreases self, p.len(),
    {
        if p.len() == 0 {
            new_node(self)
        } else {
            match self {
                Tile::Leaf(_) => self,
                Tile::Split { dir, ratio_bits, left, right } => if p[0] == Side::Left {
                    Tile::Split {
                        dir,
                        ratio_bits,
                        left: Box::new(left.replace_at(p.drop_first(), new_node)),
                        right,
                    }
                } else {
                    Tile::Split {
                        dir,
                        ratio_bits,
                        left,
                        right: Box::new(right.replace_at(p.drop_first(), new_node)),
                    }
                },
            }
        }
    }
}

/// Every path of `ps` with `s` put in front.
pub open spec fn prefix_all(s: Side, ps: Seq<Seq<Side>>) -> Seq<Seq<Side>> {
    ps.map_values(|p: Seq<Side>| seq![s] + p)
}

/// A node split in two: the old node first, a new pane showing `tab` second.
pub open spec fn split_node(dir: SplitDir, tab: Tab) -> spec_fn(Tile) -> Tile {
    |n: Tile| Tile::Split { dir, ratio_bits: HALF_RATIO_BITS, left: Box::new(n), right: Box::new(Tile::Leaf(tab)) }
}

/// A split node replaced by its child on the side that is not `closed`; a leaf is kept.
pub open spec fn sibling_of(closed: Side) -> spec_fn(Tile) -> Tile {
    |n: Tile| match n {
        Tile::Leaf(_) => n,
        Tile::Split { left, right, .. } => if closed == Side::Left { *right } else { *left },
    }
}

/// A leaf that now shows `tab`; a split is kept.
pub open spec fn retab(tab: Tab) -> spec_fn(Tile) -> Tile {
    |n: Tile| match n {
        Tile::Leaf(_) => Tile::Leaf(tab),
        _ => n,
    }
}

/// A layout as a value: the tree and the path of the focused pane.
pub type LayoutView = (Tile, Seq<Side>);

/// A layout is valid when its focus path ends at a pane.
pub open spec fn valid_layout(v: LayoutView) -> bool {
    v.0.leaf_at(v.1) is Some
}

/// The tab of the focused pane.
pub open spec fn focused_of(v: LayoutView) -> Tab {
    v.0.leaf_at(v.1)->0
}

/// Position of the focused pane among all panes.
pub open spec fn focus_index(v: LayoutView) -> int {
    v.0.leaf_paths().index_of(v.1)
}

pub open spec fn after_focus_next(v: LayoutView) -> LayoutView {
    let ps = v.0.leaf_paths();
    (v.0, ps[(focus_index(v) + 1) % (ps.len() as int)])
}

pub open spec fn after_focus_prev(v: LayoutView) -> LayoutView {
    let ps = v.0.leaf_paths();
    let n = ps.len() as int;
    (v.0, ps[(focus_index(v) + n - 1) % n])
}

/// The focused pane split in two; the focus moves to the new (second) pane.
pub open spec fn after_split(v: LayoutView, dir: SplitDir) -> LayoutView {
    (v.0.replace_at(v.1, split_node(dir, focused_of(v))), v.1.push(Side::Right))
}

/// The focused pane removed, its sibling taking the parent's place; the focus
/// moves to the first pane of that sibling. A layout with a single pane is kept.
pub open spec fn after_close(v: LayoutView) -> LayoutView {
    if v.1.len() == 0 {
        v
    } else {
        let q = v.1.drop_last();
        let g = sibling_of(v.1.last());
        (
            v.0.replace_at(q, g),
            match v.0.node_at(q) {
                Some(n) => q + g(n).first_leaf_path(),
                None => q,
            },
        )
    }
}

pub open spec fn after_set_tab(v: LayoutView, tab: Tab) -> LayoutView {
    (v.0.replace_at(v.1, retab(tab)), v.1)
}


/// The panes' paths as plain sequences.
pub open spec fn path_views(ps: Seq<Path>) -> Seq<Seq<Side>> {
    ps.map_values(|p: Path| p@)
}

// ── structure of the tree ───────────────────────────────────────────────────

/// Pane `i` of the tree sits at path `i`; the paths are distinct; and every path
/// that ends at a pane is one of them.
pub proof fn lemma_leaf_paths(t: Tile)
    ensures
        t.leaf_paths().len() == t.leaves().len(),
        t.leaves().len() >= 1,
        forall|i: int|
            0 <= i < t.leaf_paths().len() ==> #[trigger] t.leaf_at(t.leaf_paths()[i]) == Some(
                t.leaves()[i],
            ),
        t.leaf_paths().no_duplicates(),
        forall|p: Seq<Side>| #[trigger] t.leaf_at(p) is Some ==> t.leaf_paths().contains(p),
    decreases t,
{
    match t {
        Tile::Leaf(_) => {
            assert forall|p: Seq<Side>| #[trigger] t.leaf_at(p) is Some implies t.leaf_paths().contains(
                p,
            ) by {
                assert(p =~= Seq::<Side>::empty());
                assert(t.leaf_paths()[0] == p);
            }
        },
        Tile::Split { left, right, .. } => {
            let l = *left;
            let r = *right;
            lemma_leaf_paths(l);
            lemma_leaf_paths(r);
            let lp = prefix_all(Side::Left, l.leaf_paths());
            let rp = prefix_all(Side::Right, r.leaf_paths());
            let ps = t.leaf_paths();
            assert(ps == lp + rp);
            assert(t.leaves() == l.leaves() + r.leaves());
            assert forall|i: int| 0 <= i < ps.len() implies #[trigger] t.leaf_at(ps[i]) == Some(
                t.leaves()[i],
            ) by {
                if i < lp.len() {
                    let q = l.leaf_paths()[i];
                    assert(ps[i] == seq![Side::Left] + q);
                    assert((seq![Side::Left] + q).drop_first() =~= q);
                    assert(l.leaf_at(q) == Some(l.leaves()[i]));
                } else {
                    let j = i - lp.len();
                    let q = r.leaf_paths()[j];
                    assert(ps[i] == seq![Side::Right] + q);
                    assert((seq![Side::Right] + q).drop_first() =~= q);
                    assert(r.leaf_at(q) == Some(r.leaves()[j]));
                }
            }
            assert forall|i: int, j: int|
                0 <= i < ps.len() && 0 <= j < ps.len() && i != j implies ps[i] != ps[j] by {
                if i < lp.len() && j < lp.len() {
                    let a = l.leaf_paths()[i];
                    let b = l.leaf_paths()[j];
                    if ps[i] == ps[j] {
                        assert((seq![Side::Left] + a).drop_first() =~= a);
                        assert((seq![Side::Left] + b).drop_first() =~= b);
                    }
                } else if i >= lp.len() && j >= lp.len() {
                    let a = r.leaf_paths()[i - lp.len()];
                    let b = r.leaf_paths()[j - lp.len()];
                    if ps[i] == ps[j] {
                        assert((seq![Side::Right] + a).drop_first() =~= a);
                        assert((seq![Side::Right] + b).drop_first() =~= b);
                    }
                } else {
                    assert(ps[i][0] != ps[j][0]);
                }
            }
            assert forall|p: Seq<Side>| #[trigger] t.leaf_at(p) is Some implies ps.contains(p) by {
                let q = p.drop_first();
                assert(p =~= seq![p[0]] + q);
                if p[0] == Side::Left {
                    assert(l.leaf_at(q) is Some);
                    let k = choose|k: int| 0 <= k < l.leaf_paths().len() && l.leaf_paths()[k] == q;
                    assert(ps[k] == p);
                } else {
                    assert(r.leaf_at(q) is Some);
                    let k = choose|k: int| 0 <= k < r.leaf_paths().len() && r.leaf_paths()[k] == q;
                    assert(ps[lp.len() + k] == p);
                }
            }
        },
    }
}

/// Following `p` and then `q` leads where following `p + q` leads.
pub proof fn lemma_node_at_concat(t: Tile, p: Seq<Side>, q: Seq<Side>)
    ensures
        t.node_at(p + q) == match t.node_at(p) {
            Some(n) => n.node_at(q),
            None => None,
        },
    decreases t, p.len(),
{
    if p.len() == 0 {
        assert(p + q =~= q);
    } else {
        assert((p + q).drop_first() =~= p.drop_first() + q);
        match t {
            Tile::Leaf(_) => {},
            Tile::Split { left, right, .. } => {
                if p[0] == Side::Left {
                    lemma_node_at_concat(*left, p.drop_first(), q);
                } else {
                    lemma_node_at_concat(*right, p.drop_first(), q);
                }
            },
        }
    }
}

/// After replacing the node at `p`, the new node is found at `p`.
pub proof fn lemma_node_at_replace(t: Tile, p: Seq<Side>, f: spec_fn(Tile) -> Tile)
    requires
        t.node_at(p) is Some,
    ensures
        t.replace_at(p, f).node_at(p) == Some(f(t.node_at(p)->0)),
    decreases t, p.len(),
{
    if p.len() > 0 {
        match t {
            Tile::Leaf(_) => {},
            Tile::Split { left, right, .. } => {
                if p[0] == Side::Left {
                    lemma_node_at_replace(*left, p.drop_first(), f);
                } else {
                    lemma_node_at_replace(*right, p.drop_first(), f);
                }
            },
        }
    }
}

/// The panes that come before the node at `p`, in order.
pub open spec fn leaves_before(t: Tile, p: Seq<Side>) -> Seq<Tab>
    decreases t, p.len(),
{
    if p.len() == 0 {
        Seq::empty()
    } else {
        match t {
            Tile::Leaf(_) => Seq::empty(),
            Tile::Split { left, right, .. } => if p[0] == Side::Left {
                leaves_before(*left, p.drop_first())
            } else {
                left.leaves() + leaves_before(*right, p.drop_first())
            },
        }
    }
}

/// The panes that come after the node at `p`, in order.
pub open spec fn leaves_after(t: Tile, p: Seq<Side>) -> Seq<Tab>
    decreases t, p.len(),
{
    if p.len() == 0 {
        Seq::empty()
    } else {
        match t {
            Tile::Leaf(_) => Seq::empty(),
            Tile::Split { left, right, .. } => if p[0] == Side::Left {
                leaves_after(*left, p.drop_first()) + right.leaves()
            } else {
                leaves_after(*right, p.drop_first())
            },
        }
    }
}

/// Replacing the node at `p` replaces its panes and keeps the panes around it.
pub proof fn lemma_replace_leaves(t: Tile, p: Seq<Side>, f: spec_fn(Tile) -> Tile)
    requires
        t.node_at(p) is Some,
    ensures
        t.leaves() == leaves_before(t, p) + (t.node_at(p)->0).leaves() + leaves_after(t, p),
        t.replace_at(p, f).leaves() == leaves_before(t, p) + f(t.node_at(p)->0).leaves()
            + leaves_after(t, p),
    decreases t, p.len(),
{
    if p.len() == 0 {
        assert(t.leaves() =~= Seq::<Tab>::empty() + t.leaves() + Seq::<Tab>::empty());
        assert(f(t).leaves() =~= Seq::<Tab>::empty() + f(t).leaves() + Seq::<Tab>::empty());
    } else {
        match t {
            Tile::Leaf(_) => {},
            Tile::Split { left, right, .. } => {
                let q = p.drop_first();
                if p[0] == Side::Left {
                    lemma_replace_leaves(*left, q, f);
                    let n = left.node_at(q)->0;
                    assert(t.leaves() =~= leaves_before(*left, q) + n.leaves() + (leaves_after(
                        *left,
                        q,
                    ) + right.leaves()));
                    assert(t.replace_at(p, f).leaves() =~= leaves_before(*left, q) + f(n).leaves()
                        + (leaves_after(*left, q) + right.leaves()));
                } else {
                    lemma_replace_leaves(*right, q, f);
                    let n = right.node_at(q)->0;
                    assert(t.leaves() =~= (left.leaves() + leaves_before(*right, q)) + n.leaves()
                        + leaves_after(*right, q));
                    assert(t.replace_at(p, f).leaves() =~= (left.leaves() + leaves_before(*right, q))
                        + f(n).leaves() + leaves_after(*right, q));
                }
            },
        }
    }
}

/// A pane's position among all panes is the number of panes before it.
pub proof fn lemma_leaf_position(t: Tile, p: Seq<Side>)
    requires
        t.leaf_at(p) is Some,
    ensures
        leaves_before(t, p).len() < t.leaf_paths().len(),
        t.leaf_paths()[leaves_before(t, p).len() as int] == p,
        t.leaf_paths().index_of(p) == leaves_before(t, p).len(),
    decreases t, p.len(),
{
    lemma_leaf_paths(t);
    if p.len() == 0 {
    } else {
        match t {
            Tile::Leaf(_) => {},
            Tile::Split { left, right, .. } => {
                let q = p.drop_first();
                assert(p =~= seq![p[0]] + q);
                if p[0] == Side::Left {
                    lemma_leaf_position(*left, q);
                } else {
                    lemma_leaf_position(*right, q);
                    lemma_leaf_paths(*left);
                }
            },
        }
    }
    let ps = t.leaf_paths();
    let k = leaves_before(t, p).len() as int;
    if p.len() > 0 {
        match t {
            Tile::Leaf(_) => {},
            Tile::Split { left, right, .. } => {
                let q = p.drop_first();
                lemma_leaf_paths(*left);
                if p[0] == Side::Left {
                    assert(ps[k] == seq![Side::Left] + q);
                } else {
                    let kr = leaves_before(*right, q).len() as int;
                    assert(ps[k] == seq![Side::Right] + right.leaf_paths()[kr]);
                }
            },
        }
    }
    assert(ps[k] == p);
    assert(ps.contains(p));
    let j = ps.index_of(p);
    assert(0 <= j < ps.len() && ps[j] == p);
    assert(j == k);
}

/// Replacing a node by one with the same pane paths keeps the pane paths.
pub proof fn lemma_replace_keeps_paths(t: Tile, p: Seq<Side>, f: spec_fn(Tile) -> Tile)
    requires
        t.node_at(p) is Some,
        f(t.node_at(p)->0).leaf_paths() == (t.node_at(p)->0).leaf_paths(),
    ensures
        t.replace_at(p, f).leaf_paths() == t.leaf_paths(),
    decreases t, p.len(),
{
    if p.len() > 0 {
        match t {
            Tile::Leaf(_) => {},
            Tile::Split { left, right, .. } => {
                if p[0] == Side::Left {
                    lemma_replace_keeps_paths(*left, p.drop_first(), f);
                } else {
                    lemma_replace_keeps_paths(*right, p.drop_first(), f);
                }
            },
        }
    }
}

/// Replacing a node twice, the second time by what the first replacement undoes,
/// gives back the tree.
pub proof fn lemma_replace_twice(
    t: Tile,
    p: Seq<Side>,
    f: spec_fn(Tile) -> Tile,
    g: spec_fn(Tile) -> Tile,
)
    requires
        t.node_at(p) is Some,
        g(f(t.node_at(p)->0)) == t.node_at(p)->0,
    ensures
        t.replace_at(p, f).replace_at(p, g) == t,
    decreases t, p.len(),
{
    if p.len() > 0 {
        match t {
            Tile::Leaf(_) => {},
            Tile::Split { left, right, .. } => {
                if p[0] == Side::Left {
                    lemma_replace_twice(*left, p.drop_first(), f, g);
                } else {
                    lemma_replace_twice(*right, p.drop_first(), f, g);
                }
            },
        }
    }
}

// ── laws of the layout operations ───────────────────────────────────────────

/// Moving the focus forward and then back (or back and then forward) returns to
/// the same pane, and both moves land on a pane.
pub proof fn law_focus_next_prev_inverse(v: LayoutView)
    requires
        valid_layout(v),
    ensures
        valid_layout(after_focus_next(v)),
        valid_layout(after_focus_prev(v)),
        after_focus_prev(after_focus_next(v)) == v,
        after_focus_next(after_focus_prev(v)) == v,
{
    let t = v.0;
    let ps = t.leaf_paths();
    lemma_leaf_paths(t);
    let n = ps.len() as int;
    let i = ps.index_of(v.1);
    assert(0 <= i < n && ps[i] == v.1);
    let nx = (i + 1) % n;
    let pv = (i + n - 1) % n;
    assert(0 <= nx < n && 0 <= pv < n) by (nonlinear_arith)
        requires
            0 <= i < n,
            nx == (i + 1) % n,
            pv == (i + n - 1) % n,
    ;
    assert(ps.index_of(ps[nx]) == nx);
    assert(ps.index_of(ps[pv]) == pv);
    assert((nx + n - 1) % n == i) by (nonlinear_arith)
        requires
            0 <= i < n,
            nx == (i + 1) % n,
    ;
    assert((pv + 1) % n == i) by (nonlinear_arith)
        requires
            0 <= i < n,
            pv == (i + n - 1) % n,
    ;
    assert(t.leaf_at(ps[nx]) is Some);
    assert(t.leaf_at(ps[pv]) is Some);
}

/// After a split, the focus is on the new pane, which shows the tab of the pane
/// that was split.
pub proof fn lemma_split_focus(v: LayoutView, dir: SplitDir)
    requires
        valid_layout(v),
    ensures
        after_split(v, dir).0.node_at(after_split(v, dir).1) == Some(Tile::Leaf(focused_of(v))),
{
    let p = v.1;
    let tab = focused_of(v);
    let f = split_node(dir, tab);
    lemma_node_at_replace(v.0, p, f);
    let n = v.0.node_at(p)->0;
    let sn = f(n);
    assert(sn == Tile::Split {
        dir,
        ratio_bits: HALF_RATIO_BITS,
        left: Box::new(n),
        right: Box::new(Tile::Leaf(tab)),
    });
    let root = v.0.replace_at(p, f);
    assert(root.node_at(p) == Some(sn));
    lemma_node_at_concat(root, p, seq![Side::Right]);
    let r1 = seq![Side::Right];
    assert(r1.len() == 1 && r1[0] == Side::Right);
    assert(r1.drop_first() =~= Seq::<Side>::empty());
    assert(Tile::Leaf(tab).node_at(Seq::<Side>::empty()) == Some(Tile::Leaf(tab)));
    assert(sn.node_at(r1) == Some(Tile::Leaf(tab)));
    assert(p + seq![Side::Right] =~= p.push(Side::Right));
}

/// Closing the pane that a split has just created gives back the layout from
/// before the split.
pub proof fn law_close_undoes_split(v: LayoutView, dir: SplitDir)
    requires
        valid_layout(v),
    ensures
        after_close(after_split(v, dir)) == v,
{
    let w = after_split(v, dir);
    let p = v.1;
    assert(w.1.drop_last() =~= p);
    assert(w.1.last() == Side::Right);
    let f = split_node(dir, focused_of(v));
    let g = sibling_of(Side::Right);
    let n = v.0.node_at(p)->0;
    assert(g(f(n)) == n);
    lemma_replace_twice(v.0, p, f, g);
    lemma_node_at_replace(v.0, p, f);
    assert(n.first_leaf_path() =~= Seq::<Side>::empty());
    assert(p + Seq::<Side>::empty() =~= p);
}

/// The first pane of a tree is a pane.
pub proof fn lemma_first_leaf(t: Tile)
    ensures
        t.leaf_at(t.first_leaf_path()) is Some,
    decreases t,
{
    match t {
        Tile::Leaf(_) => {},
        Tile::Split { left, .. } => {
            lemma_first_leaf(*left);
            let p = t.first_leaf_path();
            assert(p.drop_first() =~= left.first_leaf_path());
        },
    }
}

/// A split duplicates the focused pane: the new pane, showing the same tab,
/// comes right after it, takes the focus, and every other pane stays where it
/// was.
pub proof fn law_split_adds_pane(v: LayoutView, dir: SplitDir)
    requires
        valid_layout(v),
    ensures
        valid_layout(after_split(v, dir)),
        after_split(v, dir).0.leaves() == v.0.leaves().insert(
            focus_index(v) + 1,
            focused_of(v),
        ),
        focused_of(after_split(v, dir)) == focused_of(v),
{
    let t = v.0;
    let p = v.1;
    let f = split_node(dir, focused_of(v));
    lemma_split_focus(v, dir);
    lemma_replace_leaves(t, p, f);
    lemma_leaf_position(t, p);
    let b = leaves_before(t, p);
    let a = leaves_after(t, p);
    let tab = focused_of(v);
    let n = t.node_at(p)->0;
    assert(n == Tile::Leaf(tab));
    assert(f(n).leaves() =~= seq![tab, tab]);
    assert(t.leaves() =~= b + seq![tab] + a);
    assert(after_split(v, dir).0.leaves() =~= t.leaves().insert(b.len() as int + 1, tab));
}

/// Closing removes exactly the focused pane, and the focus lands on a pane:
/// the first pane of the sibling that took the closed pane's place.
pub proof fn law_close_removes_pane(v: LayoutView)
    requires
        valid_layout(v),
        v.1.len() > 0,
    ensures
        after_close(v).0.leaves() == v.0.leaves().remove(focus_index(v)),
        valid_layout(after_close(v)),
{
    let t = v.0;
    let p = v.1;
    let q = p.drop_last();
    let s = p.last();
    assert(p =~= q + seq![s]);
    lemma_node_at_concat(t, q, seq![s]);
    let parent = t.node_at(q)->0;
    let g = sibling_of(s);
    let s1 = seq![s];
    assert(s1.len() == 1 && s1[0] == s);
    assert(s1.drop_first() =~= Seq::<Side>::empty());
    match parent {
        Tile::Leaf(_) => {
            assert(parent.node_at(s1) is None);
            assert(t.node_at(q + s1) is None);
            assert(t.node_at(p) is None);
            assert(false);
        },
        Tile::Split { left, right, .. } => {
            assert(parent.leaves() == left.leaves() + right.leaves());
            lemma_replace_leaves(t, q, g);
            lemma_leaf_position(t, p);
            lemma_leaf_position_parent(t, q, s);
            assert(p =~= q.push(s));
            assert(focus_index(v) == leaves_before(t, q.push(s)).len());
            let tab = focused_of(v);
            let c = parent.child(s)->0;
            assert(c.node_at(Seq::<Side>::empty()) == Some(c));
            assert(parent.node_at(s1) == Some(c));
            if s == Side::Left {
                assert(*left == Tile::Leaf(tab));
                assert(left.leaves() == seq![tab]);
                assert(g(parent) == *right);
                assert(t.leaves() =~= leaves_before(t, q) + seq![tab] + right.leaves()
                    + leaves_after(t, q));
                assert(after_close(v).0.leaves() =~= t.leaves().remove(
                    leaves_before(t, q).len() as int,
                ));
            } else {
                assert(*right == Tile::Leaf(tab));
                assert(right.leaves() == seq![tab]);
                assert(g(parent) == *left);
                assert(t.leaves() =~= leaves_before(t, q) + left.leaves() + seq![tab]
                    + leaves_after(t, q));
                assert(after_close(v).0.leaves() =~= t.leaves().remove(
                    (leaves_before(t, q).len() + left.leaves().len()) as int,
                ));
            }
            lemma_node_at_replace(t, q, g);
            let sib = g(parent);
            lemma_first_leaf(sib);
            lemma_node_at_concat(t.replace_at(q, g), q, sib.first_leaf_path());
        },
    }
}

/// The panes before the child `s` of the node at `q`.
proof fn lemma_leaf_position_parent(t: Tile, q: Seq<Side>, s: Side)
    requires
        t.node_at(q) matches Some(Tile::Split { .. }),
    ensures
        leaves_before(t, q.push(s)) == if s == Side::Left {
            leaves_before(t, q)
        } else {
            leaves_before(t, q) + (t.node_at(q)->0).child(Side::Left)->0.leaves()
        },
    decreases t, q.len(),
{
    assert(q.push(s)[0] == if q.len() == 0 {
        s
    } else {
        q[0]
    });
    let e = Seq::<Side>::empty();
    match t {
        Tile::Leaf(_) => {
            if q.len() > 0 {
                assert(t.node_at(q) is None);
            }
        },
        Tile::Split { left, right, .. } => {
            if q.len() == 0 {
                assert(q.push(s).drop_first() =~= e);
                assert(leaves_before(*left, e) == Seq::<Tab>::empty());
                assert(leaves_before(*right, e) == Seq::<Tab>::empty());
                assert(leaves_before(t, q) == Seq::<Tab>::empty());
                assert(left.leaves() + Seq::<Tab>::empty() =~= left.leaves());
                assert(Seq::<Tab>::empty() + left.leaves() =~= left.leaves());
            } else {
                let q1 = q.drop_first();
                assert(q.push(s).drop_first() =~= q1.push(s));
                if q[0] == Side::Left {
                    assert(t.node_at(q) == left.node_at(q1));
                    lemma_leaf_position_parent(*left, q1, s);
                } else {
                    assert(t.node_at(q) == right.node_at(q1));
                    lemma_leaf_position_parent(*right, q1, s);
                    if s == Side::Right {
                        let c = (right.node_at(q1)->0).child(Side::Left)->0;
                        assert(left.leaves() + (leaves_before(*right, q1) + c.leaves())
                            =~= left.leaves() + leaves_before(*right, q1) + c.leaves());
                    }
                }
            }
        },
    }
}

/// Showing a tab in the focused pane changes that pane and nothing else.
pub proof fn law_set_tab_changes_focused_pane(v: LayoutView, tab: Tab)
    requires
        valid_layout(v),
    ensures
        valid_layout(after_set_tab(v, tab)),
        focused_of(after_set_tab(v, tab)) == tab,
        after_set_tab(v, tab).0.leaf_paths() == v.0.leaf_paths(),
        after_set_tab(v, tab).0.leaves() == v.0.leaves().update(focus_index(v), tab),
{
    let t = v.0;
    let p = v.1;
    let f = retab(tab);
    let n = t.node_at(p)->0;
    assert(f(n) == Tile::Leaf(tab));
    lemma_node_at_replace(t, p, f);
    lemma_replace_keeps_paths(t, p, f);
    lemma_replace_leaves(t, p, f);
    lemma_leaf_position(t, p);
    assert(t.leaves() =~= leaves_before(t, p) + seq![focused_of(v)] + leaves_after(t, p));
    assert(after_set_tab(v, tab).0.leaves() =~= t.leaves().update(
        leaves_before(t, p).len() as int,
        tab,
    ));
}

/// A split puts, where the focused pane was, a split in the given direction
/// into two equal halves: the old pane first, then a new pane with the same
/// tab, which takes the focus.
pub proof fn law_split_shape(v: LayoutView, dir: SplitDir)
    requires
        valid_layout(v),
    ensures
        after_split(v, dir).0.node_at(v.1) == Some(
            Tile::Split {
                dir,
                ratio_bits: 0x3F00_0000u32,
                left: Box::new(Tile::Leaf(focused_of(v))),
                right: Box::new(Tile::Leaf(focused_of(v))),
            },
        ),
        after_split(v, dir).1 == v.1.push(Side::Right),
{
    let n = v.0.node_at(v.1)->0;
    lemma_split_focus(v, dir);
    lemma_node_at_replace(v.0, v.1, split_node(dir, focused_of(v)));
    assert(n == Tile::Leaf(focused_of(v)));
}

/// Tab moves the focus to the next pane in reading order, wrapping from the
/// last to the first, and Shift-Tab to the previous one, wrapping from the
/// first to the last.
pub proof fn law_focus_moves_in_order(v: LayoutView)
    requires
        valid_layout(v),
    ensures
        ({
            let n = v.0.leaves().len() as int;
            let i = focus_index(v);
            &&& 0 <= i < n
            &&& i + 1 < n ==> focus_index(after_focus_next(v)) == i + 1
            &&& i + 1 == n ==> focus_index(after_focus_next(v)) == 0
            &&& i > 0 ==> focus_index(after_focus_prev(v)) == i - 1
            &&& i == 0 ==> focus_index(after_focus_prev(v)) == n - 1
            &&& after_focus_next(v).0 == v.0 && after_focus_prev(v).0 == v.0
        }),
{
    let t = v.0;
    let ps = t.leaf_paths();
    lemma_leaf_paths(t);
    let n = ps.len() as int;
    let i = ps.index_of(v.1);
    assert(0 <= i < n && ps[i] == v.1);
    let nx = (i + 1) % n;
    let pv = (i + n - 1) % n;
    assert(i + 1 < n ==> nx == i + 1) by (nonlinear_arith)
        requires
            0 <= i < n,
            nx == (i + 1) % n,
    ;
    assert(i + 1 == n ==> nx == 0) by (nonlinear_arith)
        requires
            0 <= i < n,
            nx == (i + 1) % n,
    ;
    assert(i > 0 ==> pv == i - 1) by (nonlinear_arith)
        requires
            0 <= i < n,
            pv == (i + n - 1) % n,
    ;
    assert(i == 0 ==> pv == n - 1) by (nonlinear_arith)
        requires
            0 <= i < n,
            pv == (i + n - 1) % n,
    ;
    assert(0 <= nx < n && 0 <= pv < n);
    assert(ps.index_of(ps[nx]) == nx);
    assert(ps.index_of(ps[pv]) == pv);
}

/// The last pane cannot be closed: closing it leaves the layout as it is.
pub proof fn law_close_keeps_last_pane(v: LayoutView)
    requires
        valid_layout(v),
        v.0 is Leaf,
    ensures
        after_close(v) == v,
{
}

/// The layout is a single pane exactly when it has one pane.
pub proof fn law_single_pane(v: LayoutView)
    ensures
        (v.0 is Leaf) <==> v.0.leaves().len() == 1,
{
    match v.0 {
        Tile::Leaf(_) => {},
        Tile::Split { left, right, .. } => {
            lemma_leaf_paths(*left);
            lemma_leaf_paths(*right);
        },
    }
}

/// The visible tabs are the tabs at the pane paths, pane by pane.
pub proof fn law_visible_tabs_match_paths(v: LayoutView)
    ensures
        v.0.leaves().len() == v.0.leaf_paths().len(),
        forall|i: int|
            0 <= i < v.0.leaf_paths().len() ==> v.0.leaf_at(#[trigger] v.0.leaf_paths()[i]) == Some(
                v.0.leaves()[i],
            ),
{
    lemma_leaf_paths(v.0);
}

// ── traversal helpers ───────────────────────────────────────────────────────

/// The tab of the pane at `path[i..]` below `node`.
fn get_leaf_tab(node: &Tile, path: &Vec<Side>, i: usize) -> (r: Option<Tab>)
    requires
        i <= path.len(),
    ensures
        r == node.leaf_at(path@.skip(i as int)),
    decreases path.len() - i,
{
    let ghost p = path@.skip(i as int);
    match node {
        Tile::Leaf(t) => {
            if i == path.len() {
                assert(p.len() == 0);
                Some(*t)
            } else {
                None
            }
        },
        Tile::Split { left, right, .. } => {
            if i == path.len() {
                None
            } else {
                assert(p.drop_first() =~= path@.skip(i + 1));
                if path[i] == Side::Left {
                    get_leaf_tab(left, path, i + 1)
                } else {
                    get_leaf_tab(right, path, i + 1)
                }
            }
        },
    }
}

/// The node at `path[i..]` below `node`.
fn subtree<'a>(node: &'a Tile, path: &Vec<Side>, i: usize) -> (r: Option<&'a Tile>)
    requires
        i <= path.len(),
    ensures
        match r {
            Some(t) => node.node_at(path@.skip(i as int)) == Some(*t),
            None => node.node_at(path@.skip(i as int)) is None,
        },
    decreases path.len() - i,
{
    let ghost p = path@.skip(i as int);
    if i == path.len() {
        assert(p.len() == 0);
        return Some(node);
    }
    assert(p.drop_first() =~= path@.skip(i + 1));
    match node {
        Tile::Leaf(_) => None,
        Tile::Split { left, right, .. } => {
            if path[i] == Side::Left {
                subtree(left, path, i + 1)
            } else {
                subtree(right, path, i + 1)
            }
        },
    }
}

/// Appends the path to the first pane of `node`.
fn descend_left(node: &Tile, out: &mut Vec<Side>)
    ensures
        final(out)@ == old(out)@ + node.first_leaf_path(),
    decreases node,
{
    match node {
        Tile::Leaf(_) => {
            assert(old(out)@ + node.first_leaf_path() =~= old(out)@);
        },
        Tile::Split { left, .. } => {
            out.push(Side::Left);
            descend_left(left, out);
            assert(final(out)@ =~= old(out)@ + node.first_leaf_path());
        },
    }
}

/// The path to the first pane of what replaces `node` when its child on side
/// `closed` is closed.
fn sibling_first_leaf(node: &Tile, closed: Side) -> (r: Vec<Side>)
    ensures
        r@ == sibling_of(closed)(*node).first_leaf_path(),
{
    let mut out: Vec<Side> = Vec::new();
    match node {
        Tile::Leaf(_) => descend_left(node, &mut out),
        Tile::Split { left, right, .. } => {
            match closed {
                Side::Left => descend_left(right, &mut out),
                Side::Right => descend_left(left, &mut out),
            }
        },
    }
    assert(out@ =~= sibling_of(closed)(*node).first_leaf_path());
    out
}

fn collect_tabs(node: &Tile, out: &mut Vec<Tab>)
    ensures
        final(out)@ == old(out)@ + node.leaves(),
    decreases node,
{
    match node {
        Tile::Leaf(t) => {
            out.push(*t);
        },
        Tile::Split { left, right, .. } => {
            collect_tabs(left, out);
            collect_tabs(right, out);
            assert(final(out)@ =~= old(out)@ + node.leaves());
        },
    }
}

fn copy_sides(v: &Vec<Side>) -> (r: Vec<Side>)
    ensures
        r@ == v@,
{
    let mut r: Vec<Side> = Vec::new();
    let mut i: usize = 0;
    while i < v.len()
        invariant
            i <= v.len(),
            r@ == v@.take(i as int),
        decreases v.len() - i,
    {
        r.push(v[i]);
        i = i + 1;
        assert(r@ =~= v@.take(i as int));
    }
    assert(v@.take(v.len() as int) =~= v@);
    r
}

fn same_sides(a: &Vec<Side>, b: &Vec<Side>) -> (r: bool)
    ensures
        r == (a@ == b@),
{
    if a.len() != b.len() {
        return false;
    }
    let mut i: usize = 0;
    while i < a.len()
        invariant
            i <= a.len(),
            a.len() == b.len(),
            forall|k: int| 0 <= k < i ==> a@[k] == b@[k],
        decreases a.len() - i,
    {
        if a[i] != b[i] {
            return false;
        }
        i = i + 1;
    }
    assert(a@ =~= b@);
    true
}

fn collect_paths(node: &Tile, current: &mut Vec<Side>, out: &mut Vec<Path>)
    ensures
        final(current)@ == old(current)@,
        path_views(final(out)@) == path_views(old(out)@) + node.leaf_paths().map_values(
            |p: Seq<Side>| old(current)@ + p,
        ),
    decreases node,
{
    let ghost cur = current@;
    match node {
        Tile::Leaf(_) => {
            let p = copy_sides(current);
            out.push(Path(p));
            assert(path_views(final(out)@) =~= path_views(old(out)@) + node.leaf_paths().map_values(
                |p: Seq<Side>| cur + p,
            ));
        },
        Tile::Split { left, right, .. } => {
            let ghost out0 = path_views(out@);
            current.push(Side::Left);
            collect_paths(left, current, out);
            current.pop();
            assert(current@ =~= cur);
            let ghost out1 = path_views(out@);
            current.push(Side::Right);
            collect_paths(right, current, out);
            current.pop();
            assert(current@ =~= cur);
            let ghost lm = left.leaf_paths().map_values(|p: Seq<Side>| cur.push(Side::Left) + p);
            let ghost rm = right.leaf_paths().map_values(|p: Seq<Side>| cur.push(Side::Right) + p);
            let ghost whole = node.leaf_paths().map_values(|p: Seq<Side>| cur + p);
            assert(out1 == out0 + lm);
            assert(path_views(out@) == out1 + rm);
            assert forall|k: int| 0 <= k < whole.len() implies #[trigger] whole[k] == (lm + rm)[k] by {
                if k < lm.len() {
                    assert(cur + (seq![Side::Left] + left.leaf_paths()[k]) =~= cur.push(Side::Left)
                        + left.leaf_paths()[k]);
                } else {
                    let j = k - lm.len();
                    assert(cur + (seq![Side::Right] + right.leaf_paths()[j]) =~= cur.push(
                        Side::Right,
                    ) + right.leaf_paths()[j]);
                }
            }
            assert(whole =~= lm + rm);
            assert(path_views(out@) =~= out0 + whole);
        },
    }
}

fn split_at(node: Tile, path: &Vec<Side>, i: usize, dir: SplitDir, new_tab: Tab) -> (r: Tile)
    requires
        i <= path.len(),
    ensures
        r == node.replace_at(path@.skip(i as int), split_node(dir, new_tab)),
    decreases path.len() - i,
{
    let ghost p = path@.skip(i as int);
    if i == path.len() {
        assert(p.len() == 0);
        Tile::Split {
            dir,
            ratio_bits: HALF_RATIO_BITS,
            left: Box::new(node),
            right: Box::new(Tile::Leaf(new_tab)),
        }
    } else {
        assert(p.drop_first() =~= path@.skip(i + 1));
        match node {
            Tile::Leaf(t) => Tile::Leaf(t),
            Tile::Split { dir: d, ratio_bits, left, right } => {
                if path[i] == Side::Left {
                    let l = split_at(*left, path, i + 1, dir, new_tab);
                    Tile::Split { dir: d, ratio_bits, left: Box::new(l), right }
                } else {
                    let r = split_at(*right, path, i + 1, dir, new_tab);
                    Tile::Split { dir: d, ratio_bits, left, right: Box::new(r) }
                }
            },
        }
    }
}

fn close_at(node: Tile, parent_path: &Vec<Side>, i: usize, closed_side: Side) -> (r: Tile)
    requires
        i <= parent_path.len(),
    ensures
        r == node.replace_at(parent_path@.skip(i as int), sibling_of(closed_side)),
    decreases parent_path.len() - i,
{
    let ghost p = parent_path@.skip(i as int);
    if i == parent_path.len() {
        assert(p.len() == 0);
        match node {
            Tile::Leaf(t) => Tile::Leaf(t),
            Tile::Split { left, right, .. } => {
                match closed_side {
                    Side::Left => *right,
                    Side::Right => *left,
                }
            },
        }
    } else {
        assert(p.drop_first() =~= parent_path@.skip(i + 1));
        match node {
            Tile::Leaf(t) => Tile::Leaf(t),
            Tile::Split { dir, ratio_bits, left, right } => {
                if parent_path[i] == Side::Left {
                    let l = close_at(*left, parent_path, i + 1, closed_side);
                    Tile::Split { dir, ratio_bits, left: Box::new(l), right }
                } else {
                    let r = close_at(*right, parent_path, i + 1, closed_side);
                    Tile::Split { dir, ratio_bits, left, right: Box::new(r) }
                }
            },
        }
    }
}

fn set_leaf(node: Tile, path: &Vec<Side>, i: usize, tab: Tab) -> (r: Tile)
    requires
        i <= path.len(),
    ensures
        r == node.replace_at(path@.skip(i as int), retab(tab)),
    decreases path.len() - i,
{
    let ghost p = path@.skip(i as int);
    if i == path.len() {
        assert(p.len() == 0);
        match node {
            Tile::Leaf(_) => Tile::Leaf(tab),
            Tile::Split { dir, ratio_bits, left, right } => Tile::Split {
                dir,
                ratio_bits,
                left,
                right,
            },
        }
    } else {
        assert(p.drop_first() =~= path@.skip(i + 1));
        match node {
            Tile::Leaf(t) => Tile::Leaf(t),
            Tile::Split { dir, ratio_bits, left, right } => {
                if path[i] == Side::Left {
                    let l = set_leaf(*left, path, i + 1, tab);
                    Tile::Split { dir, ratio_bits, left: Box::new(l), right }
                } else {
                    let r = set_leaf(*right, path, i + 1, tab);
                    Tile::Split { dir, ratio_bits, left, right: Box::new(r) }
                }
            },
        }
    }
}

/// The pane layout: a tile tree and the path of the focused pane.
#[derive(Debug)]
pub struct TileLayout {
    pub root: Tile,
    pub focus_path: Path,
}

impl View for TileLayout {
    type V = LayoutView;

    open spec fn view(&self) -> LayoutView {
        (self.root, self.focus_path@)
    }
}

impl TileLayout {
    /// The layout of a single focused pane showing `tab`.
    pub open spec fn new_view(tab: Tab) -> LayoutView {
        (Tile::Leaf(tab), Seq::<Side>::empty())
    }

    /// A single pane showing `tab`, focused.
    pub fn new(tab: Tab) -> (l: Self)
        ensures
            l@ == Self::new_view(tab),
            valid_layout(l@),
    {
        TileLayout { root: Tile::Leaf(tab), focus_path: Path(Vec::new()) }
    }

    /// Whether the focus path ends at a pane (the condition for `focused_tab`).
    pub fn has_valid_focus(&self) -> (b: bool)
        ensures
            b == valid_layout(self@),
    {
        assert(self.focus_path@.skip(0) =~= self.focus_path@);
        get_leaf_tab(&self.root, &self.focus_path.0, 0).is_some()
    }

    pub fn focused_tab(&self) -> (t: Tab)
        requires
            valid_layout(self@),
        ensures
            t == focused_of(self@),
    {
        assert(self.focus_path@.skip(0) =~= self.focus_path@);
        get_leaf_tab(&self.root, &self.focus_path.0, 0).unwrap()
    }

    /// The tabs of all panes, left to right (top to bottom).
    pub fn visible_tabs(&self) -> (tabs: Vec<Tab>)
        ensures
            tabs@ == self@.0.leaves(),
    {
        let mut tabs: Vec<Tab> = Vec::new();
        collect_tabs(&self.root, &mut tabs);
        assert(tabs@ =~= self@.0.leaves());
        tabs
    }

    pub fn is_single(&self) -> (b: bool)
        ensures
            b == (self@.0 is Leaf),
    {
        match self.root {
            Tile::Leaf(_) => true,
            _ => false,
        }
    }

    fn all_paths(&self) -> (ps: Vec<Path>)
        ensures
            path_views(ps@) == self@.0.leaf_paths(),
    {
        let mut out: Vec<Path> = Vec::new();
        let mut current: Vec<Side> = Vec::new();
        collect_paths(&self.root, &mut current, &mut out);
        let ghost ps = self@.0.leaf_paths();
        assert(ps.map_values(|p: Seq<Side>| Seq::<Side>::empty() + p) =~= ps) by {
            assert forall|k: int| 0 <= k < ps.len() implies Seq::<Side>::empty() + ps[k] == ps[k] by {
                assert(Seq::<Side>::empty() + ps[k] =~= ps[k]);
            }
        }
        assert(path_views(out@) =~= ps);
        out
    }

    /// Position of the focus path among `paths`, if it is there.
    fn position_of_focus(&self, paths: &Vec<Path>) -> (r: Option<usize>)
        ensures
            match r {
                Some(i) => i < paths.len() && path_views(paths@)[i as int] == self@.1 && forall|
                    k: int,
                | 0 <= k < i ==> path_views(paths@)[k] != self@.1,
                None => !path_views(paths@).contains(self@.1),
            },
    {
        let mut i: usize = 0;
        while i < paths.len()
            invariant
                i <= paths.len(),
                forall|k: int| 0 <= k < i ==> path_views(paths@)[k] != self@.1,
            decreases paths.len() - i,
        {
            if same_sides(&paths[i].0, &self.focus_path.0) {
                return Some(i);
            }
            i = i + 1;
        }
        None
    }

    /// Moves the focus to the next pane, wrapping around.
    pub fn focus_next(&mut self)
        ensures
            old(self)@.0.leaf_paths().contains(old(self)@.1) ==> final(self)@ == after_focus_next(
                old(self)@,
            ),
            !old(self)@.0.leaf_paths().contains(old(self)@.1) ==> final(self)@ == old(self)@,
    {
        let paths = self.all_paths();
        let ghost ps = self@.0.leaf_paths();
        match self.position_of_focus(&paths) {
            Some(idx) => {
                proof {
                    lemma_leaf_paths(self.root);
                    assert(ps.index_of(self@.1) == idx as int);
                }
                let next = (idx + 1) % paths.len();
                self.focus_path = Path(copy_sides(&paths[next].0));
            },
            None => {},
        }
    }

    /// Moves the focus to the previous pane, wrapping around.
    pub fn focus_prev(&mut self)
        ensures
            old(self)@.0.leaf_paths().contains(old(self)@.1) ==> final(self)@ == after_focus_prev(
                old(self)@,
            ),
            !old(self)@.0.leaf_paths().contains(old(self)@.1) ==> final(self)@ == old(self)@,
    {
        let paths = self.all_paths();
        let ghost ps = self@.0.leaf_paths();
        match self.position_of_focus(&paths) {
            Some(idx) => {
                proof {
                    lemma_leaf_paths(self.root);
                    assert(ps.index_of(self@.1) == idx as int);
                }
                let n = paths.len();
                let prev = if idx == 0 {
                    n - 1
                } else {
                    idx - 1
                };
                assert(prev as int == (idx + n - 1) as int % n as int) by (nonlinear_arith)
                    requires
                        idx < n,
                        idx == 0 ==> prev == n - 1,
                        idx > 0 ==> prev == idx - 1,
                ;
                self.focus_path = Path(copy_sides(&paths[prev].0));
            },
            None => {},
        }
    }

    /// Splits the focused pane. The new pane starts with the same tab and takes the focus.
    pub fn split(&mut self, dir: SplitDir)
        requires
            valid_layout(old(self)@),
        ensures
            final(self)@ == after_split(old(self)@, dir),
            valid_layout(final(self)@),
            focused_of(final(self)@) == focused_of(old(self)@),
    {
        let current_tab = self.focused_tab();
        let ghost old_view = self@;
        let mut root = Tile::Leaf(Tab::Weather);
        std::mem::swap(&mut root, &mut self.root);
        self.root = split_at(root, &self.focus_path.0, 0, dir, current_tab);
        assert(self.focus_path@.skip(0) =~= self.focus_path@);
        self.focus_path.0.push(Side::Right);
        proof {
            lemma_split_focus(old_view, dir);
        }
    }

    /// Closes the focused pane; its sibling takes over the space and its first
    /// pane takes the focus. A layout with a single pane is left as it is.
    pub fn close_focused(&mut self)
        ensures
            final(self)@ == after_close(old(self)@),
            valid_layout(old(self)@) ==> valid_layout(final(self)@),
    {
        if self.focus_path.0.len() == 0 {
            return;
        }
        let ghost old_view = self@;
        let closed_side = self.focus_path.0.pop().unwrap();
        assert(self.focus_path@ =~= old_view.1.drop_last());
        assert(self.focus_path@.skip(0) =~= self.focus_path@);
        let mut suffix = match subtree(&self.root, &self.focus_path.0, 0) {
            Some(n) => sibling_first_leaf(n, closed_side),
            None => Vec::new(),
        };
        let mut root = Tile::Leaf(Tab::Weather);
        std::mem::swap(&mut root, &mut self.root);
        self.root = close_at(root, &self.focus_path.0, 0, closed_side);
        self.focus_path.0.append(&mut suffix);
        proof {
            if valid_layout(old_view) {
                law_close_removes_pane(old_view);
            }
        }
    }

    /// Shows `tab` in the focused pane.
    pub fn set_focused_tab(&mut self, tab: Tab)
        ensures
            final(self)@ == after_set_tab(old(self)@, tab),
    {
        let mut root = Tile::Leaf(Tab::Weather);
        std::mem::swap(&mut root, &mut self.root);
        assert(self.focus_path@.skip(0) =~= self.focus_path@);
        self.root = set_leaf(root, &self.focus_path.0, 0, tab);
    }
}

} // verus!
