//! Layout of split panes.
//!
//! The pane tree names each pane by its id; the application keeps the
//! panes themselves (their PTY sessions) by id and chooses what a split
//! ratio is (a payload the tree carries). Every split has two subtrees:
//! splitting a pane makes a split of two panes, and closing one of them
//! puts its sibling in the split's place.
use vstd::prelude::*;

verus! {

/// Rectangle representing a pane's bounds
#[derive(Debug, Clone, Copy, PartialEq, Eq, Structural)]
pub struct Rect {
    pub x: u32,
    pub y: u32,
    pub width: u32,
    pub height: u32,
}

impl Rect {
    /// Create a new rectangle
    pub fn new(x: u32, y: u32, width: u32, height: u32) -> (r: Self)
        ensures
            r == (Rect { x, y, width, height }),
    {
        Self { x, y, width, height }
    }

    /// Check if a point is inside this rectangle
    pub fn contains(&self, x: u32, y: u32) -> (b: bool)
        requires
            x >= self.x ==> self.x + self.width <= u32::MAX,
            x >= self.x && x < self.x + self.width && y >= self.y ==> self.y + self.height
                <= u32::MAX,
        ensures
            b == (self.x <= x < self.x + self.width && self.y <= y < self.y + self.height),
    {
        x >= self.x && x < self.x + self.width && y >= self.y && y < self.y + self.height
    }
}

/// Direction for splitting panes
#[derive(Debug, Clone, Copy, PartialEq, Eq, Structural)]
pub enum SplitDirection {
    /// Split horizontally (side by side)
    Horizontal,
    /// Split vertically (stacked)
    Vertical,
}

/// The most panes a layout holds.
pub const MAX_PANES: usize = 8;

/// Why a layout operation was refused.
#[derive(Debug, Clone, Copy, PartialEq, Eq, Structural)]
pub enum LayoutError {
    /// The layout already holds the most panes it may.
    PaneLimit,
    /// The only pane cannot be closed.
    LastPane,
    /// The node to close a pane in is that pane itself.
    PaneFound,
    /// A lone pane has no neighbour to resize against.
    NoNeighbour,
}

/// The message of a layout error.
pub open spec fn layout_error_text(e: LayoutError) -> Seq<char> {
    match e {
        LayoutError::PaneLimit => "Maximum pane limit (8) reached"@,
        LayoutError::LastPane => "Cannot close the last pane"@,
        LayoutError::PaneFound => "Pane found"@,
        LayoutError::NoNeighbour => "Cannot resize: no adjacent pane"@,
    }
}

impl LayoutError {
    /// The message of this error.
    pub fn to_string(&self) -> (s: String)
        ensures
            s@ == layout_error_text(*self),
    {
        match self {
            LayoutError::PaneLimit => "Maximum pane limit (8) reached".to_owned(),
            LayoutError::LastPane => "Cannot close the last pane".to_owned(),
            LayoutError::PaneFound => "Pane found".to_owned(),
            LayoutError::NoNeighbour => "Cannot resize: no adjacent pane".to_owned(),
        }
    }
}

/// A node of the layout tree: a pane, or a split of two subtrees, each with
/// its share of the space (a ratio payload `R`).
pub enum PaneTree<R> {
    /// Leaf node: the pane with this id.
    Pane(u128),
    /// Two subtrees side by side (horizontal) or stacked (vertical).
    Split {
        direction: SplitDirection,
        first: Box<PaneTree<R>>,
        second: Box<PaneTree<R>>,
        first_ratio: R,
        second_ratio: R,
    },
}

impl<R> PaneTree<R> {
    /// The pane ids of this subtree, in order (first subtree first).
    pub open spec fn ids(self) -> Seq<u128>
        decreases self,
    {
        match self {
            PaneTree::Pane(id) => seq![id],
            PaneTree::Split { first, second, .. } => first.ids() + second.ids(),
        }
    }

    /// The tree with the first pane `target` (in id order) replaced by a
    /// split of `target` and `new_pane`, each with ratio `even`; unchanged
    /// when `target` is not in it.
    pub open spec fn split_leaf(self, target: u128, direction: SplitDirection, new_pane: u128, even: R) -> PaneTree<R>
        decreases self,
    {
        match self {
            PaneTree::Pane(id) => if id == target {
                PaneTree::Split {
                    direction,
                    first: Box::new(PaneTree::Pane(id)),
                    second: Box::new(PaneTree::Pane(new_pane)),
                    first_ratio: even,
                    second_ratio: even,
                }
            } else {
                self
            },
            PaneTree::Split { direction: d, first, second, first_ratio, second_ratio } => if first.ids().contains(target) {
                PaneTree::Split {
                    direction: d,
                    first: Box::new(first.split_leaf(target, direction, new_pane, even)),
                    second,
                    first_ratio,
                    second_ratio,
                }
            } else {
                PaneTree::Split {
                    direction: d,
                    first,
                    second: Box::new(second.split_leaf(target, direction, new_pane, even)),
                    first_ratio,
                    second_ratio,
                }
            },
        }
    }

    /// The tree with the first pane `id` removed: the split that holds it is
    /// replaced by the pane's sibling. A lone pane stays as it is.
    pub open spec fn without(self, id: u128) -> PaneTree<R>
        decreases self,
    {
        match self {
            PaneTree::Pane(_) => self,
            PaneTree::Split { direction, first, second, first_ratio, second_ratio } => if *first == PaneTree::<R>::Pane(id) {
                *second
            } else if first.ids().contains(id) {
                PaneTree::Split { direction, first: Box::new(first.without(id)), second, first_ratio, second_ratio }
            } else if *second == PaneTree::<R>::Pane(id) {
                *first
            } else {
                PaneTree::Split { direction, first, second: Box::new(second.without(id)), first_ratio, second_ratio }
            },
        }
    }


    /// The splits a resize of pane `id` in `direction` changes, from the
    /// root down: each split in that direction that holds the pane, with
    /// whether the pane is in its first subtree and its two ratios.
    pub open spec fn resize_path(self, id: u128, direction: SplitDirection) -> Seq<(bool, R, R)>
        decreases self,
    {
        match self {
            PaneTree::Pane(_) => Seq::empty(),
            PaneTree::Split { direction: d, first, second, first_ratio, second_ratio } => {
                let in_first = first.ids().contains(id);
                let here = if d == direction && (in_first || second.ids().contains(id)) {
                    seq![(in_first, first_ratio, second_ratio)]
                } else {
                    Seq::empty()
                };
                if in_first {
                    here + first.resize_path(id, direction)
                } else {
                    here + second.resize_path(id, direction)
                }
            },
        }
    }

    /// The tree with the splits of [`resize_path`](Self::resize_path) given
    /// the ratio pairs of `shares`, in order (a split past the end of
    /// `shares` keeps its ratios); nothing else changes.
    pub open spec fn with_shares(self, id: u128, direction: SplitDirection, shares: Seq<(R, R)>) -> PaneTree<R>
        decreases self,
    {
        match self {
            PaneTree::Pane(_) => self,
            PaneTree::Split { direction: d, first, second, first_ratio, second_ratio } => {
                let in_first = first.ids().contains(id);
                let here = d == direction && (in_first || second.ids().contains(id));
                let (fr, sr) = if here && shares.len() > 0 { shares[0] } else { (first_ratio, second_ratio) };
                let rest = if here && shares.len() > 0 { shares.drop_first() } else { shares };
                if in_first {
                    PaneTree::Split {
                        direction: d,
                        first: Box::new(first.with_shares(id, direction, rest)),
                        second,
                        first_ratio: fr,
                        second_ratio: sr,
                    }
                } else {
                    PaneTree::Split {
                        direction: d,
                        first,
                        second: Box::new(second.with_shares(id, direction, rest)),
                        first_ratio: fr,
                        second_ratio: sr,
                    }
                }
            },
        }
    }

    /// Check if this node is a pane
    pub fn is_pane(&self) -> (b: bool)
        ensures
            b == self is Pane,
    {
        match self {
            PaneTree::Pane(_) => true,
            _ => false,
        }
    }

    /// Check if this node is a split
    pub fn is_split(&self) -> (b: bool)
        ensures
            b == self is Split,
    {
        !self.is_pane()
    }

    /// Get the pane ID if this is a pane node
    pub fn pane_id(&self) -> (r: Option<u128>)
        ensures
            r == (match *self {
                PaneTree::Pane(id) => Some(id),
                _ => None,
            }),
    {
        match self {
            PaneTree::Pane(id) => Some(*id),
            _ => None,
        }
    }

    /// Whether the pane `id` is in this subtree.
    pub fn contains_pane(&self, id: u128) -> (b: bool)
        ensures
            b == self.ids().contains(id),
        decreases self,
    {
        match self {
            PaneTree::Pane(p) => {
                proof {
                    assert(seq![*p][0] == *p);
                }
                *p == id
            },
            PaneTree::Split { first, second, .. } => {
                let a = first.contains_pane(id);
                let b = second.contains_pane(id);
                proof {
                    lemma_concat_contains(first.ids(), second.ids(), id);
                }
                a || b
            },
        }
    }

    /// Count the total number of panes in this subtree
    pub fn pane_count(&self) -> (n: usize)
        requires
            self.ids().len() <= usize::MAX,
        ensures
            n == self.ids().len(),
        decreases self,
    {
        match self {
            PaneTree::Pane(_) => 1,
            PaneTree::Split { first, second, .. } => first.pane_count() + second.pane_count(),
        }
    }

    /// Collect all pane IDs in this subtree
    pub fn collect_pane_ids(&self) -> (v: Vec<u128>)
        ensures
            v@ == self.ids(),
        decreases self,
    {
        match self {
            PaneTree::Pane(id) => {
                let mut v: Vec<u128> = Vec::new();
                v.push(*id);
                v
            },
            PaneTree::Split { first, second, .. } => {
                let mut v = first.collect_pane_ids();
                let mut w = second.collect_pane_ids();
                v.append(&mut w);
                v
            },
        }
    }
}

/// `x` is in `a + b` exactly when it is in `a` or in `b`.
pub proof fn lemma_concat_contains(a: Seq<u128>, b: Seq<u128>, x: u128)
    ensures
        (a + b).contains(x) <==> (a.contains(x) || b.contains(x)),
{
    if a.contains(x) {
        let i = choose|i: int| 0 <= i < a.len() && a[i] == x;
        assert((a + b)[i] == x);
    }
    if b.contains(x) {
        let i = choose|i: int| 0 <= i < b.len() && b[i] == x;
        assert((a + b)[a.len() + i] == x);
    }
    if (a + b).contains(x) {
        let i = choose|i: int| 0 <= i < (a + b).len() && (a + b)[i] == x;
        if i < a.len() {
            assert(a[i] == x);
        } else {
            assert(b[i - a.len()] == x);
        }
    }
}

/// Splitting the first pane `target` puts `new_pane` right after it in the
/// id order and leaves every other id where it was.
pub proof fn lemma_split_leaf_ids<R>(t: PaneTree<R>, target: u128, direction: SplitDirection, new_pane: u128, even: R) -> (k: int)
    requires
        t.ids().contains(target),
    ensures
        0 <= k < t.ids().len(),
        t.ids()[k] == target,
        forall|j: int| 0 <= j < k ==> t.ids()[j] != target,
        t.split_leaf(target, direction, new_pane, even).ids() == t.ids().take(k + 1).push(new_pane) + t.ids().skip(k + 1),
    decreases t,
{
    match t {
        PaneTree::Pane(id) => {
            assert(t.ids() =~= seq![id]);
            assert(id == target) by {
                let i = choose|i: int| 0 <= i < t.ids().len() && t.ids()[i] == target;
            }
            let r = t.split_leaf(target, direction, new_pane, even);
            assert(r.ids() == PaneTree::<R>::Pane(id).ids() + PaneTree::<R>::Pane(new_pane).ids());
            assert(r.ids() =~= seq![id].take(1).push(new_pane) + seq![id].skip(1));
            0
        },
        PaneTree::Split { direction: d, first, second, first_ratio, second_ratio } => {
            let f = first.ids();
            let s = second.ids();
            lemma_concat_contains(f, s, target);
            if f.contains(target) {
                let k = lemma_split_leaf_ids(*first, target, direction, new_pane, even);
                assert(f + s == t.ids());
                assert((f + s).take(k + 1) =~= f.take(k + 1));
                assert((f + s).skip(k + 1) =~= f.skip(k + 1) + s);
                assert(t.split_leaf(target, direction, new_pane, even).ids() =~= (f.take(k + 1).push(new_pane) + f.skip(k + 1)) + s);
                assert forall|j: int| 0 <= j < k implies t.ids()[j] != target by {
                    assert(t.ids()[j] == f[j]);
                }
                k
            } else {
                let k2 = lemma_split_leaf_ids(*second, target, direction, new_pane, even);
                let k = f.len() + k2;
                assert((f + s).take(k + 1) =~= f + s.take(k2 + 1));
                assert((f + s).skip(k + 1) =~= s.skip(k2 + 1));
                assert(t.split_leaf(target, direction, new_pane, even).ids() =~= f + (s.take(k2 + 1).push(new_pane) + s.skip(k2 + 1)));
                assert forall|j: int| 0 <= j < k implies t.ids()[j] != target by {
                    if j < f.len() {
                        assert(t.ids()[j] == f[j]);
                        assert(f.contains(f[j]));
                    } else {
                        assert(t.ids()[j] == s[j - f.len()]);
                    }
                }
                k
            }
        },
    }
}

/// Closing a pane of a split removes exactly one occurrence of its id (the
/// first) from the id order.
pub proof fn lemma_without_ids<R>(t: PaneTree<R>, id: u128) -> (k: int)
    requires
        t is Split,
        t.ids().contains(id),
    ensures
        0 <= k < t.ids().len(),
        t.ids()[k] == id,
        forall|j: int| 0 <= j < k ==> t.ids()[j] != id,
        t.without(id).ids() == t.ids().remove(k),
    decreases t,
{
    match t {
        PaneTree::Pane(_) => 0,
        PaneTree::Split { direction, first, second, first_ratio, second_ratio } => {
            let f = first.ids();
            let s = second.ids();
            lemma_concat_contains(f, s, id);
            if *first == PaneTree::<R>::Pane(id) {
                assert(f =~= seq![id]);
                assert((f + s).remove(0) =~= s);
                0
            } else if f.contains(id) {
                assert(*first is Split);
                let k = lemma_without_ids(*first, id);
                assert((f + s).remove(k) =~= f.remove(k) + s);
                assert forall|j: int| 0 <= j < k implies t.ids()[j] != id by {
                    assert(t.ids()[j] == f[j]);
                }
                k
            } else if *second == PaneTree::<R>::Pane(id) {
                assert(s =~= seq![id]);
                assert((f + s).remove(f.len() as int) =~= f);
                assert forall|j: int| 0 <= j < f.len() implies t.ids()[j] != id by {
                    assert(t.ids()[j] == f[j]);
                    assert(f.contains(f[j]));
                }
                f.len() as int
            } else {
                assert(*second is Split);
                let k2 = lemma_without_ids(*second, id);
                let k = f.len() + k2;
                assert((f + s).remove(k) =~= f + s.remove(k2));
                assert forall|j: int| 0 <= j < k implies t.ids()[j] != id by {
                    if j < f.len() {
                        assert(t.ids()[j] == f[j]);
                        assert(f.contains(f[j]));
                    } else {
                        assert(t.ids()[j] == s[j - f.len()]);
                    }
                }
                k
            }
        },
    }
}

/// Split the first pane `target` of `node` into `target` and `new_pane`
/// (`target` first), both with ratio `even`; the rest of the tree is kept.
pub fn try_split_node<R: Copy>(
    node: PaneTree<R>,
    target: u128,
    direction: SplitDirection,
    new_pane: u128,
    even: R,
) -> (r: PaneTree<R>)
    ensures
        r == node.split_leaf(target, direction, new_pane, even),
    decreases node,
{
    match node {
        PaneTree::Pane(id) => {
            if id == target {
                PaneTree::Split {
                    direction,
                    first: Box::new(PaneTree::Pane(id)),
                    second: Box::new(PaneTree::Pane(new_pane)),
                    first_ratio: even,
                    second_ratio: even,
                }
            } else {
                PaneTree::Pane(id)
            }
        },
        PaneTree::Split { direction: d, first, second, first_ratio, second_ratio } => {
            if first.contains_pane(target) {
                let f = try_split_node(*first, target, direction, new_pane, even);
                PaneTree::Split { direction: d, first: Box::new(f), second, first_ratio, second_ratio }
            } else {
                let s = try_split_node(*second, target, direction, new_pane, even);
                PaneTree::Split { direction: d, first, second: Box::new(s), first_ratio, second_ratio }
            }
        },
    }
}

/// Close the first pane `pane_id` in `node`: the split holding it gives way
/// to the pane's sibling. A node that is the pane itself cannot lose it.
pub fn close_pane_in_node<R>(node: PaneTree<R>, pane_id: u128) -> (r: Result<PaneTree<R>, LayoutError>)
    ensures
        node == PaneTree::<R>::Pane(pane_id) ==> r == Err::<PaneTree<R>, LayoutError>(LayoutError::PaneFound),
        node != PaneTree::<R>::Pane(pane_id) ==> r == Ok::<PaneTree<R>, LayoutError>(node.without(pane_id)),
    decreases node,
{
    match node {
        PaneTree::Pane(id) => {
            if id == pane_id {
                Err(LayoutError::PaneFound)
            } else {
                Ok(PaneTree::Pane(id))
            }
        },
        PaneTree::Split { direction, first, second, first_ratio, second_ratio } => {
            let first_is_it = match &*first {
                PaneTree::Pane(id) => *id == pane_id,
                _ => false,
            };
            if first_is_it {
                return Ok(*second);
            }
            if first.contains_pane(pane_id) {
                match close_pane_in_node(*first, pane_id) {
                    Ok(f) => Ok(PaneTree::Split { direction, first: Box::new(f), second, first_ratio, second_ratio }),
                    Err(e) => Err(e),
                }
            } else {
                let second_is_it = match &*second {
                    PaneTree::Pane(id) => *id == pane_id,
                    _ => false,
                };
                if second_is_it {
                    return Ok(*first);
                }
                match close_pane_in_node(*second, pane_id) {
                    Ok(s) => Ok(PaneTree::Split { direction, first, second: Box::new(s), first_ratio, second_ratio }),
                    Err(e) => Err(e),
                }
            }
        },
    }
}

/// The splits that resizing pane `pane_id` in `direction` changes (see
/// [`PaneTree::resize_path`]); a lone pane has no neighbour to give way.
pub fn resize_targets<R: Copy>(node: &PaneTree<R>, pane_id: u128, direction: SplitDirection) -> (r: Result<Vec<(bool, R, R)>, LayoutError>)
    ensures
        node is Pane ==> r == Err::<Vec<(bool, R, R)>, LayoutError>(LayoutError::NoNeighbour),
        node is Split ==> (r matches Ok(v) && v@ == node.resize_path(pane_id, direction)),
{
    match node {
        PaneTree::Pane(_) => Err(LayoutError::NoNeighbour),
        PaneTree::Split { .. } => Ok(resize_path_of(node, pane_id, direction)),
    }
}

fn resize_path_of<R: Copy>(node: &PaneTree<R>, pane_id: u128, direction: SplitDirection) -> (v: Vec<(bool, R, R)>)
    ensures
        v@ == node.resize_path(pane_id, direction),
    decreases node,
{
    match node {
        PaneTree::Pane(_) => Vec::new(),
        PaneTree::Split { direction: d, first, second, first_ratio, second_ratio } => {
            let in_first = first.contains_pane(pane_id);
            let mut v: Vec<(bool, R, R)> = Vec::new();
            if *d == direction && (in_first || second.contains_pane(pane_id)) {
                v.push((in_first, *first_ratio, *second_ratio));
            }
            let mut rest = if in_first {
                resize_path_of(first, pane_id, direction)
            } else {
                resize_path_of(second, pane_id, direction)
            };
            v.append(&mut rest);
            proof {
                assert(v@ =~= node.resize_path(pane_id, direction));
            }
            v
        },
    }
}

/// Give the splits that a resize of `pane_id` in `direction` changes the
/// ratio pairs of `shares`, in order (see [`PaneTree::with_shares`]).
pub fn set_shares<R: Copy>(node: PaneTree<R>, pane_id: u128, direction: SplitDirection, shares: &[(R, R)], from: usize) -> (r: PaneTree<R>)
    requires
        from <= shares@.len(),
    ensures
        r == node.with_shares(pane_id, direction, shares@.skip(from as int)),
    decreases node,
{
    match node {
        PaneTree::Pane(id) => PaneTree::Pane(id),
        PaneTree::Split { direction: d, first, second, first_ratio, second_ratio } => {
            let in_first = first.contains_pane(pane_id);
            let here = d == direction && (in_first || second.contains_pane(pane_id));
            let take = here && from < shares.len();
            let (fr, sr) = if take { shares[from] } else { (first_ratio, second_ratio) };
            let next = if take { from + 1 } else { from };
            proof {
                if take {
                    assert(shares@.skip(from as int).drop_first() =~= shares@.skip(next as int));
                    assert(shares@.skip(from as int)[0] == shares@[from as int]);
                }
            }
            if in_first {
                let f = set_shares(*first, pane_id, direction, shares, next);
                PaneTree::Split { direction: d, first: Box::new(f), second, first_ratio: fr, second_ratio: sr }
            } else {
                let s = set_shares(*second, pane_id, direction, shares, next);
                PaneTree::Split { direction: d, first, second: Box::new(s), first_ratio: fr, second_ratio: sr }
            }
        },
    }
}

/// Giving splits new ratios keeps the panes and their order.
pub proof fn lemma_with_shares_ids<R>(t: PaneTree<R>, id: u128, direction: SplitDirection, shares: Seq<(R, R)>)
    ensures
        t.with_shares(id, direction, shares).ids() == t.ids(),
    decreases t,
{
    match t {
        PaneTree::Pane(_) => {},
        PaneTree::Split { direction: d, first, second, first_ratio, second_ratio } => {
            let in_first = first.ids().contains(id);
            let here = d == direction && (in_first || second.ids().contains(id));
            let rest = if here && shares.len() > 0 { shares.drop_first() } else { shares };
            lemma_with_shares_ids(*first, id, direction, rest);
            lemma_with_shares_ids(*second, id, direction, rest);
        },
    }
}

/// `k` is where `x` first occurs in `s`.
pub open spec fn first_at(s: Seq<u128>, x: u128, k: int) -> bool {
    &&& 0 <= k < s.len()
    &&& s[k] == x
    &&& forall|j: int| 0 <= j < k ==> s[j] != x
}

/// The pane after the one at `k`, wrapping to the first.
pub open spec fn next_after(s: Seq<u128>, k: int) -> u128 {
    if k + 1 == s.len() { s[0] } else { s[k + 1] }
}

/// The pane before the one at `k`, wrapping to the last.
pub open spec fn prev_before(s: Seq<u128>, k: int) -> u128 {
    if k == 0 { s[s.len() - 1] } else { s[k - 1] }
}

/// Where `x` first occurs in `ids`, which holds it.
fn first_index(ids: &Vec<u128>, x: u128) -> (k: usize)
    requires
        ids@.contains(x),
    ensures
        first_at(ids@, x, k as int),
{
    let mut i: usize = 0;
    let n = ids.len();
    proof {
        let w = choose|w: int| 0 <= w < ids@.len() && ids@[w] == x;
    }
    while ids[i] != x
        invariant
            n == ids@.len(),
            0 <= i < ids@.len(),
            ids@.contains(x),
            forall|j: int| 0 <= j < i ==> ids@[j] != x,
        decreases ids@.len() - i,
    {
        proof {
            assert(ids@[i as int] != x);
            let w = choose|w: int| 0 <= w < ids@.len() && ids@[w] == x;
            if w <= i {
                assert(ids@[w] != x);
            }
            assert(i + 1 < ids@.len());
        }
        i = i + 1;
    }
    i
}

/// Layout tree managing all panes: the tree and the focused pane.
pub struct LayoutTree<R> {
    /// Root node of the layout tree
    root: PaneTree<R>,
    /// Currently focused pane ID
    focused_pane: u128,
}

impl<R> LayoutTree<R> {
    /// The tree of panes.
    pub closed spec fn tree(&self) -> PaneTree<R> {
        self.root
    }

    /// The focused pane.
    pub closed spec fn focus(&self) -> u128 {
        self.focused_pane
    }

    /// The focused pane is in the tree, which holds at most `MAX_PANES` panes.
    pub open spec fn wf(&self) -> bool {
        &&& self.tree().ids().contains(self.focus())
        &&& self.tree().ids().len() <= MAX_PANES
    }

    /// Create a new layout tree with a single pane
    pub fn new(initial_pane: u128) -> (t: Self)
        ensures
            t.wf(),
            t.tree() == PaneTree::<R>::Pane(initial_pane),
            t.focus() == initial_pane,
    {
        let t = LayoutTree { root: PaneTree::Pane(initial_pane), focused_pane: initial_pane };
        proof {
            assert(t.tree().ids()[0] == initial_pane);
        }
        t
    }

    /// Get the focused pane ID
    pub fn focused_pane_id(&self) -> (r: u128)
        ensures
            r == self.focus(),
    {
        self.focused_pane
    }

    /// Set focus to a specific pane; whether it is in the layout.
    pub fn set_focus(&mut self, pane_id: u128) -> (b: bool)
        requires
            old(self).wf(),
        ensures
            final(self).wf(),
            b == old(self).tree().ids().contains(pane_id),
            final(self).tree() == old(self).tree(),
            final(self).focus() == (if b { pane_id } else { old(self).focus() }),
    {
        if self.root.contains_pane(pane_id) {
            self.focused_pane = pane_id;
            true
        } else {
            false
        }
    }

    /// Whether the focused pane is in the layout (it always is).
    pub fn has_focused_pane(&self) -> (b: bool)
        ensures
            b == self.tree().ids().contains(self.focus()),
    {
        self.root.contains_pane(self.focused_pane)
    }

    /// Whether the pane `id` is in the layout.
    pub fn has_pane(&self, id: u128) -> (b: bool)
        ensures
            b == self.tree().ids().contains(id),
    {
        self.root.contains_pane(id)
    }

    /// Count total panes
    pub fn pane_count(&self) -> (n: usize)
        requires
            self.wf(),
        ensures
            n == self.tree().ids().len(),
    {
        self.root.pane_count()
    }

    /// Get all pane IDs
    pub fn all_pane_ids(&self) -> (v: Vec<u128>)
        ensures
            v@ == self.tree().ids(),
    {
        self.root.collect_pane_ids()
    }

    /// Get the root node (for rendering)
    pub fn root(&self) -> (r: &PaneTree<R>)
        ensures
            *r == self.tree(),
    {
        &self.root
    }

    /// Focus the next pane (circular order)
    pub fn focus_next(&mut self)
        requires
            old(self).wf(),
        ensures
            final(self).wf(),
            final(self).tree() == old(self).tree(),
            old(self).tree().ids().len() <= 1 ==> final(self).focus() == old(self).focus(),
            old(self).tree().ids().len() > 1 ==> exists|k: int|
                #[trigger] first_at(old(self).tree().ids(), old(self).focus(), k)
                    && final(self).focus() == next_after(old(self).tree().ids(), k),
    {
        let ids = self.all_pane_ids();
        if ids.len() <= 1 {
            return;
        }
        let k = first_index(&ids, self.focused_pane);
        self.focused_pane = if k + 1 == ids.len() { ids[0] } else { ids[k + 1] };
        proof {
            assert(first_at(old(self).tree().ids(), old(self).focus(), k as int));
            let n = if k + 1 == ids.len() { 0int } else { k + 1 };
            assert(self.tree().ids()[n] == self.focus());
        }
    }

    /// Focus the previous pane (circular order)
    pub fn focus_prev(&mut self)
        requires
            old(self).wf(),
        ensures
            final(self).wf(),
            final(self).tree() == old(self).tree(),
            old(self).tree().ids().len() <= 1 ==> final(self).focus() == old(self).focus(),
            old(self).tree().ids().len() > 1 ==> exists|k: int|
                #[trigger] first_at(old(self).tree().ids(), old(self).focus(), k)
                    && final(self).focus() == prev_before(old(self).tree().ids(), k),
    {
        let ids = self.all_pane_ids();
        if ids.len() <= 1 {
            return;
        }
        let k = first_index(&ids, self.focused_pane);
        self.focused_pane = if k == 0 { ids[ids.len() - 1] } else { ids[k - 1] };
        proof {
            assert(first_at(old(self).tree().ids(), old(self).focus(), k as int));
            let n = if k == 0 { ids.len() - 1 } else { k - 1 };
            assert(self.tree().ids()[n] == self.focus());
        }
    }

    /// Close the focused pane; the first remaining pane takes the focus.
    ///
    /// Returns Ok(()) if pane was closed, Err if this is the last pane.
    pub fn close_focused(&mut self) -> (r: Result<(), LayoutError>)
        requires
            old(self).wf(),
        ensures
            final(self).wf(),
            r is Err <==> old(self).tree().ids().len() <= 1,
            r is Err ==> r == Err::<(), LayoutError>(LayoutError::LastPane) && final(self).tree()
                == old(self).tree() && final(self).focus() == old(self).focus(),
            r is Ok ==> {
                &&& final(self).tree() == old(self).tree().without(old(self).focus())
                &&& final(self).focus() == final(self).tree().ids()[0]
                &&& exists|k: int|
                    #[trigger] first_at(old(self).tree().ids(), old(self).focus(), k)
                        && final(self).tree().ids() == old(self).tree().ids().remove(k)
            },
    {
        let count = self.root.pane_count();
        if count <= 1 {
            return Err(LayoutError::LastPane);
        }
        let focused_id = self.focused_pane;
        let mut old_root = PaneTree::Pane(focused_id);
        std::mem::swap(&mut old_root, &mut self.root);
        proof {
            if old_root is Pane {
                assert(old_root.ids().len() == 1);
            }
        }
        let ghost k = lemma_without_ids(old_root, focused_id);
        match close_pane_in_node(old_root, focused_id) {
            Ok(new_root) => {
                self.root = new_root;
            },
            Err(_) => {},
        }
        let ids = self.root.collect_pane_ids();
        self.focused_pane = ids[0];
        proof {
            assert(first_at(old(self).tree().ids(), old(self).focus(), k));
            assert(self.tree().ids()[0] == self.focus());
        }
        Ok(())
    }}

impl<R: Copy> LayoutTree<R> {
    /// The splits that resizing the focused pane in `direction` changes,
    /// with their ratios (see [`PaneTree::resize_path`]); refused when the
    /// layout is a lone pane.
    pub fn focused_resize_targets(&self, direction: SplitDirection) -> (r: Result<Vec<(bool, R, R)>, LayoutError>)
        ensures
            self.tree() is Pane ==> r == Err::<Vec<(bool, R, R)>, LayoutError>(LayoutError::NoNeighbour),
            self.tree() is Split ==> (r matches Ok(v) && v@ == self.tree().resize_path(self.focus(), direction)),
    {
        resize_targets(&self.root, self.focused_pane, direction)
    }

    /// Give the splits that resizing the focused pane in `direction`
    /// changes the ratio pairs of `shares`, in order.
    pub fn set_focused_shares(&mut self, direction: SplitDirection, shares: &Vec<(R, R)>)
        requires
            old(self).wf(),
        ensures
            final(self).wf(),
            final(self).tree() == old(self).tree().with_shares(old(self).focus(), direction, shares@),
            final(self).focus() == old(self).focus(),
    {
        let focused_id = self.focused_pane;
        let mut old_root = PaneTree::Pane(focused_id);
        std::mem::swap(&mut old_root, &mut self.root);
        proof {
            assert(shares@.skip(0) =~= shares@);
            lemma_with_shares_ids(old_root, focused_id, direction, shares@);
        }
        self.root = set_shares(old_root, focused_id, direction, shares.as_slice(), 0);
    }
}

impl<R: Copy> LayoutTree<R> {
    /// Split the focused pane in the given direction: the new pane (with
    /// the focused one, each with ratio `even`) takes its place and the
    /// focus.
    pub fn split_focused(&mut self, direction: SplitDirection, new_pane: u128, even: R) -> (r: Result<(), LayoutError>)
        requires
            old(self).wf(),
        ensures
            final(self).wf(),
            r is Err <==> old(self).tree().ids().len() >= MAX_PANES,
            r is Err ==> r == Err::<(), LayoutError>(LayoutError::PaneLimit) && final(self).tree()
                == old(self).tree() && final(self).focus() == old(self).focus(),
            r is Ok ==> {
                &&& final(self).tree() == old(self).tree().split_leaf(old(self).focus(), direction, new_pane, even)
                &&& final(self).focus() == new_pane
                &&& exists|k: int|
                    #[trigger] first_at(old(self).tree().ids(), old(self).focus(), k)
                        && final(self).tree().ids() == old(self).tree().ids().take(k + 1).push(new_pane)
                        + old(self).tree().ids().skip(k + 1)
            },
    {
        if self.root.pane_count() >= MAX_PANES {
            return Err(LayoutError::PaneLimit);
        }
        let focused_id = self.focused_pane;
        let mut old_root = PaneTree::Pane(focused_id);
        std::mem::swap(&mut old_root, &mut self.root);
        let ghost k = lemma_split_leaf_ids(old_root, focused_id, direction, new_pane, even);
        self.root = try_split_node(old_root, focused_id, direction, new_pane, even);
        self.focused_pane = new_pane;
        proof {
            assert(first_at(old(self).tree().ids(), old(self).focus(), k));
            let ids = self.tree().ids();
            assert(ids[k + 1] == new_pane);
        }
        Ok(())
    }
}

} // verus!
