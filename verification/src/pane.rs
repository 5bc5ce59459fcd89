//! The pane tree of a window: nested horizontal and vertical splits whose
//! leaves are panes, each a tab strip with a content area. The tree refers to
//! panels by id and owns none of them.

use vstd::prelude::*;

verus! {

/// A document or flow panel's identity.
pub type PanelId = u128;

/// A pane's identity within its window.
#[derive(Clone, Copy, Debug, PartialEq, Eq, Hash, PartialOrd, Ord, Structural)]
pub struct PaneId(pub u64);

#[derive(Clone, Copy, Debug, PartialEq, Eq, Structural)]
pub enum SplitAxis {
    Horizontal,
    Vertical,
}

/// The first child's share of a split, as the bit pattern of a
/// single-precision number.
#[derive(Clone, Copy, Debug, PartialEq, Eq, Structural)]
pub struct SplitRatio(pub u32);

/// 0.5: the share a new split starts with.
pub const EVEN_SHARE: u32 = 0x3F00_0000;

/// 0.15: the least share a split keeps.
pub const LEAST_SHARE: u32 = 0x3E19_999A;

/// 0.85: the greatest share a split keeps.
pub const GREATEST_SHARE: u32 = 0x3F59_999A;

/// The magnitude bits above which a pattern is not a number.
pub const INFINITE_SHARE: u32 = 0x7F80_0000;

/// The sign bit of a pattern.
pub const SHARE_SIGN: u32 = 0x8000_0000;

/// Where a pattern stands in numeric order: patterns without the sign bit
/// ascend, those with it descend below zero.
pub open spec fn share_rank(bits: u32) -> int {
    if bits < SHARE_SIGN {
        bits as int
    } else {
        SHARE_SIGN - bits
    }
}

/// The pattern is not a number.
pub open spec fn share_is_nan(bits: u32) -> bool {
    if bits < SHARE_SIGN {
        bits > INFINITE_SHARE
    } else {
        bits - SHARE_SIGN > INFINITE_SHARE
    }
}

impl SplitRatio {
    /// The share held to its bounds; not-a-number stays as it is.
    pub open spec fn bounded(self) -> SplitRatio {
        if share_is_nan(self.0) {
            self
        } else if share_rank(self.0) < share_rank(LEAST_SHARE) {
            SplitRatio(LEAST_SHARE)
        } else if share_rank(self.0) > share_rank(GREATEST_SHARE) {
            SplitRatio(GREATEST_SHARE)
        } else {
            self
        }
    }

    pub fn clamped(self) -> (ratio: SplitRatio)
        ensures
            ratio == self.bounded(),
    {
        let bits: u32 = self.0;
        if bits < SHARE_SIGN {
            if bits > INFINITE_SHARE {
                self
            } else if bits < LEAST_SHARE {
                SplitRatio(LEAST_SHARE)
            } else if bits > GREATEST_SHARE {
                SplitRatio(GREATEST_SHARE)
            } else {
                self
            }
        } else if bits - SHARE_SIGN > INFINITE_SHARE {
            self
        } else {
            SplitRatio(LEAST_SHARE)
        }
    }
}

/// A pane: its tabs in strip order and the one on top.
#[derive(Debug)]
pub struct PaneLeaf {
    pub id: PaneId,
    pub tab_order: Vec<PanelId>,
    pub active: Option<PanelId>,
}

#[derive(Debug)]
pub enum PaneNode {
    Split { axis: SplitAxis, ratio: SplitRatio, first: Box<PaneNode>, second: Box<PaneNode> },
    Pane(PaneLeaf),
}

/// The window's viewing surface: one tree and the leaf that holds focus.
#[derive(Debug)]
pub struct PaneTree {
    pub root: PaneNode,
    pub focused: PaneId,
    /// The number that the next pane gets.
    pub next_pane: u64,
}

/// What a pane holds.
#[verifier::ext_equal]
pub struct LeafView {
    pub id: PaneId,
    pub tabs: Seq<PanelId>,
    pub active: Option<PanelId>,
}

/// The shape of a node with what its panes hold.
#[verifier::ext_equal]
pub enum NodeView {
    Split { axis: SplitAxis, ratio: SplitRatio, first: Box<NodeView>, second: Box<NodeView> },
    Pane(LeafView),
}

/// A pane tree as a value.
#[verifier::ext_equal]
pub struct TreeView {
    pub root: NodeView,
    pub focused: PaneId,
    pub next_pane: u64,
}

impl View for PaneLeaf {
    type V = LeafView;

    open spec fn view(&self) -> LeafView {
        LeafView { id: self.id, tabs: self.tab_order@, active: self.active }
    }
}

pub open spec fn node_view(node: PaneNode) -> NodeView
    decreases node,
{
    match node {
        PaneNode::Split { axis, ratio, first, second } => NodeView::Split {
            axis,
            ratio,
            first: Box::new(node_view(*first)),
            second: Box::new(node_view(*second)),
        },
        PaneNode::Pane(leaf) => NodeView::Pane(leaf@),
    }
}

impl View for PaneNode {
    type V = NodeView;

    open spec fn view(&self) -> NodeView {
        node_view(*self)
    }
}

impl View for PaneTree {
    type V = TreeView;

    open spec fn view(&self) -> TreeView {
        TreeView { root: self.root@, focused: self.focused, next_pane: self.next_pane }
    }
}

impl Clone for PaneLeaf {
    fn clone(&self) -> (copy: Self)
        ensures
            copy@ == self@,
    {
        let tab_order = self.tab_order.clone();
        assert(tab_order@ =~= self.tab_order@);
        PaneLeaf { id: self.id, tab_order, active: self.active }
    }
}

impl Clone for PaneNode {
    fn clone(&self) -> (copy: Self)
        ensures
            copy@ == self@,
        decreases self,
    {
        match self {
            PaneNode::Split { axis, ratio, first, second } => PaneNode::Split {
                axis: *axis,
                ratio: *ratio,
                first: Box::new((&**first).clone()),
                second: Box::new((&**second).clone()),
            },
            PaneNode::Pane(leaf) => PaneNode::Pane(leaf.clone()),
        }
    }
}

impl Clone for PaneTree {
    fn clone(&self) -> (copy: Self)
        ensures
            copy@ == self@,
    {
        PaneTree { root: self.root.clone(), focused: self.focused, next_pane: self.next_pane }
    }
}

/// The panes in layout order: left to right, top to bottom.
pub open spec fn leaves_of(node: NodeView) -> Seq<LeafView>
    decreases node,
{
    match node {
        NodeView::Pane(leaf) => seq![leaf],
        NodeView::Split { first, second, .. } => leaves_of(*first) + leaves_of(*second),
    }
}

/// The first pane in layout order that has the id.
pub open spec fn find_leaf(node: NodeView, pane: PaneId) -> Option<LeafView>
    decreases node,
{
    match node {
        NodeView::Pane(leaf) => if leaf.id == pane {
            Some(leaf)
        } else {
            None
        },
        NodeView::Split { first, second, .. } => match find_leaf(*first, pane) {
            Some(leaf) => Some(leaf),
            None => find_leaf(*second, pane),
        },
    }
}

/// The node with another node in the place of the first pane that has the id.
pub open spec fn replace_leaf(node: NodeView, pane: PaneId, with: NodeView) -> NodeView
    decreases node,
{
    match node {
        NodeView::Pane(leaf) => if leaf.id == pane {
            with
        } else {
            node
        },
        NodeView::Split { axis, ratio, first, second } => if find_leaf(*first, pane) is Some {
            NodeView::Split {
                axis,
                ratio,
                first: Box::new(replace_leaf(*first, pane, with)),
                second,
            }
        } else {
            NodeView::Split {
                axis,
                ratio,
                first,
                second: Box::new(replace_leaf(*second, pane, with)),
            }
        },
    }
}

/// The first pane in layout order that has the panel among its tabs.
pub open spec fn holder_of(node: NodeView, panel: PanelId) -> Option<PaneId>
    decreases node,
{
    match node {
        NodeView::Pane(leaf) => if leaf.tabs.contains(panel) {
            Some(leaf.id)
        } else {
            None
        },
        NodeView::Split { first, second, .. } => match holder_of(*first, panel) {
            Some(pane) => Some(pane),
            None => holder_of(*second, panel),
        },
    }
}

/// The last tab of a strip.
pub open spec fn last_tab(tabs: Seq<PanelId>) -> Option<PanelId> {
    if tabs.len() == 0 {
        None
    } else {
        Some(tabs.last())
    }
}

/// A strip without one panel.
pub open spec fn without(tabs: Seq<PanelId>, panel: PanelId) -> Seq<PanelId> {
    tabs.filter(|tab: PanelId| tab != panel)
}

/// A pane with one more tab, on top.
pub open spec fn with_tab(leaf: LeafView, panel: PanelId) -> LeafView {
    LeafView { id: leaf.id, tabs: leaf.tabs.push(panel), active: Some(panel) }
}

/// A pane without a panel; when that one was on top the last remaining tab is.
pub open spec fn without_tab(leaf: LeafView, panel: PanelId) -> LeafView {
    LeafView {
        id: leaf.id,
        tabs: without(leaf.tabs, panel),
        active: if leaf.active == Some(panel) {
            last_tab(without(leaf.tabs, panel))
        } else {
            leaf.active
        },
    }
}

/// The pane's sibling: what a collapse of the pane promotes into its place.
pub open spec fn sibling_of(node: NodeView, pane: PaneId) -> Option<NodeView>
    decreases node,
{
    match node {
        NodeView::Pane(_) => None,
        NodeView::Split { first, second, .. } => if is_pane(*first, pane) {
            Some(*second)
        } else if is_pane(*second, pane) {
            Some(*first)
        } else {
            match sibling_of(*first, pane) {
                Some(sibling) => Some(sibling),
                None => sibling_of(*second, pane),
            }
        },
    }
}

/// The pane beside one that goes, in layout order: the first of a sibling that
/// stands after it, the last of one that stands before it.
pub open spec fn neighbour_of(node: NodeView, pane: PaneId) -> Option<PaneId>
    decreases node,
{
    match node {
        NodeView::Pane(_) => None,
        NodeView::Split { first, second, .. } => if is_pane(*first, pane) {
            Some(leaves_of(*second)[0].id)
        } else if is_pane(*second, pane) {
            Some(leaves_of(*first).last().id)
        } else {
            match neighbour_of(*first, pane) {
                Some(neighbour) => Some(neighbour),
                None => neighbour_of(*second, pane),
            }
        },
    }
}

/// The node is the pane itself.
pub open spec fn is_pane(node: NodeView, pane: PaneId) -> bool {
    node matches NodeView::Pane(leaf) && leaf.id == pane
}

/// The node without the pane, its sibling promoted into the split's place.
pub open spec fn collapsed(node: NodeView, pane: PaneId) -> NodeView
    decreases node,
{
    match node {
        NodeView::Pane(_) => node,
        NodeView::Split { axis, ratio, first, second } => if is_pane(*first, pane) {
            *second
        } else if is_pane(*second, pane) {
            *first
        } else if sibling_of(*first, pane) is Some {
            NodeView::Split { axis, ratio, first: Box::new(collapsed(*first, pane)), second }
        } else {
            NodeView::Split { axis, ratio, first, second: Box::new(collapsed(*second, pane)) }
        },
    }
}

/// Splits in the node.
pub open spec fn split_count(node: NodeView) -> int
    decreases node,
{
    match node {
        NodeView::Pane(_) => 0,
        NodeView::Split { first, second, .. } => 1 + split_count(*first) + split_count(*second),
    }
}

/// The node with the share of its `index`-th split set, splits numbered from
/// zero with a parent before its children and the first child before the
/// second.
pub open spec fn with_ratio(node: NodeView, index: int, share: SplitRatio) -> NodeView
    decreases node,
{
    match node {
        NodeView::Pane(_) => node,
        NodeView::Split { axis, ratio, first, second } => if index == 0 {
            NodeView::Split { axis, ratio: share, first, second }
        } else if index <= split_count(*first) {
            NodeView::Split {
                axis,
                ratio,
                first: Box::new(with_ratio(*first, index - 1, share)),
                second,
            }
        } else {
            NodeView::Split {
                axis,
                ratio,
                first,
                second: Box::new(with_ratio(*second, index - 1 - split_count(*first), share)),
            }
        },
    }
}

/// A split of two nodes in equal shares.
pub open spec fn even_split(axis: SplitAxis, first: NodeView, second: NodeView) -> NodeView {
    NodeView::Split {
        axis,
        ratio: SplitRatio(EVEN_SHARE),
        first: Box::new(first),
        second: Box::new(second),
    }
}

impl TreeView {
    /// The tree of a new window: one empty pane, focused.
    pub open spec fn fresh() -> TreeView {
        TreeView {
            root: NodeView::Pane(LeafView { id: PaneId(0), tabs: Seq::empty(), active: None }),
            focused: PaneId(0),
            next_pane: 1,
        }
    }

    /// The tree with a pane's contents replaced.
    pub open spec fn set_leaf(self, pane: PaneId, leaf: LeafView) -> TreeView {
        TreeView { root: replace_leaf(self.root, pane, NodeView::Pane(leaf)), ..self }
    }

    /// The tab is on top of its pane and the pane has focus; nothing changes
    /// for a panel that no pane holds.
    pub open spec fn activated(self, panel: PanelId) -> TreeView {
        match holder_of(self.root, panel) {
            None => self,
            Some(pane) => {
                let focused = TreeView { focused: pane, ..self };
                match find_leaf(self.root, pane) {
                    None => focused,
                    Some(leaf) => focused.set_leaf(
                        pane,
                        LeafView { id: leaf.id, tabs: leaf.tabs, active: Some(panel) },
                    ),
                }
            },
        }
    }

    /// A pane with one more tab, on top.
    pub open spec fn tab_added(self, pane: PaneId, panel: PanelId) -> TreeView {
        match find_leaf(self.root, pane) {
            None => self,
            Some(leaf) => self.set_leaf(pane, with_tab(leaf, panel)),
        }
    }

    pub open spec fn inserted(self, panel: PanelId) -> TreeView {
        if holder_of(self.root, panel) is Some {
            self.activated(panel)
        } else {
            self.tab_added(self.focused, panel)
        }
    }

    /// The pane is gone, its sibling stands in its place and the sibling's
    /// first pane has focus.
    pub open spec fn pane_collapsed(self, pane: PaneId) -> TreeView {
        match sibling_of(self.root, pane) {
            None => self,
            Some(sibling) => TreeView {
                root: collapsed(self.root, pane),
                focused: leaves_of(sibling)[0].id,
                next_pane: self.next_pane,
            },
        }
    }

    pub open spec fn removed(self, panel: PanelId) -> TreeView {
        match holder_of(self.root, panel) {
            None => self,
            Some(pane) => match find_leaf(self.root, pane) {
                None => self,
                Some(leaf) => {
                    let stripped = self.set_leaf(pane, without_tab(leaf, panel));
                    if without(leaf.tabs, panel).len() > 0 {
                        stripped
                    } else {
                        stripped.pane_collapsed(pane)
                    }
                },
            },
        }
    }

    /// The pane's tab on top moves into the fresh pane, which stands after it
    /// and takes focus.
    pub open spec fn divided(self, pane: PaneId, axis: SplitAxis) -> TreeView {
        let fresh = PaneId(self.next_pane);
        let minted = TreeView { next_pane: (self.next_pane + 1) as u64, ..self };
        match find_leaf(self.root, pane) {
            None => minted,
            Some(leaf) => {
                let (kept, moved) = match leaf.active {
                    None => (leaf, LeafView { id: fresh, tabs: Seq::empty(), active: None }),
                    Some(tab) => (
                        LeafView {
                            id: leaf.id,
                            tabs: without(leaf.tabs, tab),
                            active: last_tab(without(leaf.tabs, tab)),
                        },
                        LeafView { id: fresh, tabs: seq![tab], active: Some(tab) },
                    ),
                };
                TreeView {
                    root: replace_leaf(
                        self.root,
                        pane,
                        even_split(axis, NodeView::Pane(kept), NodeView::Pane(moved)),
                    ),
                    focused: fresh,
                    next_pane: minted.next_pane,
                }
            },
        }
    }

    /// The pane is gone and its tabs stand behind those of its neighbour in
    /// layout order; the first pane of the sibling in its place has focus.
    pub open spec fn closed_pane(self, pane: PaneId) -> TreeView {
        match (find_leaf(self.root, pane), neighbour_of(self.root, pane)) {
            (Some(leaf), Some(neighbour)) => {
                let without_pane = self.pane_collapsed(pane);
                match find_leaf(without_pane.root, neighbour) {
                    None => without_pane,
                    Some(target) => without_pane.set_leaf(
                        neighbour,
                        adopting(target, leaf.tabs),
                    ),
                }
            },
            _ => self,
        }
    }

    /// Focus on the pane after the focused one in layout order, the first
    /// after the last.
    pub open spec fn focus_advanced(self) -> TreeView {
        let leaves = leaves_of(self.root);
        TreeView { focused: leaves[(leaf_position(leaves, self.focused) + 1) % (leaves.len() as int)].id, ..self }
    }

    pub open spec fn tab_moved(self, panel: PanelId, target: PaneId) -> TreeView {
        if holder_of(self.root, panel) == Some(target) || find_leaf(self.root, target) is None {
            TreeView { focused: target, ..self }
        } else {
            let without_tab = TreeView { focused: target, ..self.removed(panel) };
            without_tab.tab_added(target, panel)
        }
    }

    pub open spec fn split_around(self, target: PaneId, axis: SplitAxis, panel: PanelId) -> TreeView {
        match find_leaf(self.root, target) {
            None => self,
            Some(leaf) => if holder_of(self.root, panel) == Some(target) && leaf.tabs.len() == 1 {
                TreeView { focused: target, ..self }
            } else {
                let without_tab = self.removed(panel);
                let fresh = PaneId(self.next_pane);
                let minted = TreeView { next_pane: (self.next_pane + 1) as u64, ..without_tab };
                match find_leaf(without_tab.root, target) {
                    None => minted.tab_moved(panel, minted.focused),
                    Some(kept) => TreeView {
                        root: replace_leaf(
                            without_tab.root,
                            target,
                            even_split(
                                axis,
                                NodeView::Pane(kept),
                                NodeView::Pane(
                                    LeafView { id: fresh, tabs: seq![panel], active: Some(panel) },
                                ),
                            ),
                        ),
                        focused: fresh,
                        next_pane: minted.next_pane,
                    },
                }
            },
        }
    }
}

/// A strip with the tabs of another behind it, those it has already left out.
pub open spec fn joined(tabs: Seq<PanelId>, more: Seq<PanelId>) -> Seq<PanelId>
    decreases more.len(),
{
    if more.len() == 0 {
        tabs
    } else {
        let earlier = joined(tabs, more.drop_last());
        if earlier.contains(more.last()) {
            earlier
        } else {
            earlier.push(more.last())
        }
    }
}

/// A pane with adopted tabs; one with no tab on top shows its last.
pub open spec fn adopting(leaf: LeafView, more: Seq<PanelId>) -> LeafView {
    let tabs = joined(leaf.tabs, more);
    LeafView {
        id: leaf.id,
        tabs,
        active: if leaf.active is None {
            last_tab(tabs)
        } else {
            leaf.active
        },
    }
}

/// Index of the first pane with the id, zero when there is none.
pub open spec fn leaf_position(leaves: Seq<LeafView>, pane: PaneId) -> int {
    if exists|k: int| 0 <= k < leaves.len() && #[trigger] leaves[k].id == pane {
        choose|k: int|
            0 <= k < leaves.len() && #[trigger] leaves[k].id == pane && (forall|j: int|
                0 <= j < k ==> #[trigger] leaves[j].id != pane)
    } else {
        0
    }
}

/// The strip without one panel.
fn strip_without(tabs: &Vec<PanelId>, panel: PanelId) -> (rest: Vec<PanelId>)
    ensures
        rest@ == without(tabs@, panel),
{
    let mut rest: Vec<PanelId> = Vec::new();
    let mut next: usize = 0;
    proof {
        reveal(Seq::filter);
        assert(tabs@.take(0) =~= Seq::empty());
    }
    while next < tabs.len()
        invariant
            next <= tabs@.len(),
            rest@ == without(tabs@.take(next as int), panel),
        decreases tabs@.len() - next,
    {
        proof {
            reveal(Seq::filter);
            let taken = tabs@.take(next + 1);
            assert(taken.drop_last() =~= tabs@.take(next as int));
            assert(taken.last() == tabs@[next as int]);
        }
        if tabs[next] != panel {
            rest.push(tabs[next]);
        }
        next = next + 1;
    }
    assert(tabs@.take(next as int) =~= tabs@);
    rest
}

/// The strip's last tab.
fn strip_last(tabs: &Vec<PanelId>) -> (last: Option<PanelId>)
    ensures
        last == last_tab(tabs@),
{
    if tabs.len() == 0 {
        None
    } else {
        Some(tabs[tabs.len() - 1])
    }
}

/// The strip has the panel.
pub(crate) fn strip_contains(tabs: &Vec<PanelId>, panel: PanelId) -> (found: bool)
    ensures
        found == tabs@.contains(panel),
{
    let mut next: usize = 0;
    while next < tabs.len()
        invariant
            next <= tabs@.len(),
            forall|k: int| 0 <= k < next ==> tabs@[k] != panel,
        decreases tabs@.len() - next,
    {
        if tabs[next] == panel {
            return true;
        }
        next = next + 1;
    }
    false
}

impl PaneNode {
    fn find(&self, pane: PaneId) -> (found: Option<&PaneLeaf>)
        ensures
            match found {
                Some(leaf) => find_leaf(self@, pane) == Some(leaf@),
                None => find_leaf(self@, pane) is None,
            },
        decreases self,
    {
        match self {
            PaneNode::Pane(leaf) => if leaf.id == pane {
                Some(leaf)
            } else {
                None
            },
            PaneNode::Split { first, second, .. } => match first.find(pane) {
                Some(leaf) => Some(leaf),
                None => second.find(pane),
            },
        }
    }

    fn find_mut(&mut self, pane: PaneId) -> (found: Option<&mut PaneLeaf>)
        ensures
            match found {
                Some(leaf) => {
                    &&& find_leaf(old(self)@, pane) == Some((*leaf)@)
                    &&& final(self)@ == replace_leaf(
                        old(self)@,
                        pane,
                        NodeView::Pane((*final(leaf))@),
                    )
                },
                None => find_leaf(old(self)@, pane) is None && *final(self) == *old(self),
            },
        decreases *old(self),
    {
        match self {
            PaneNode::Pane(leaf) => if leaf.id == pane {
                Some(leaf)
            } else {
                None
            },
            PaneNode::Split { first, second, .. } => if first.find(pane).is_some() {
                first.find_mut(pane)
            } else {
                second.find_mut(pane)
            },
        }
    }

    fn collect<'tree>(&'tree self, out: &mut Vec<&'tree PaneLeaf>)
        ensures
            final(out)@.len() == old(out)@.len() + leaves_of(self@).len(),
            leaf_views(final(out)@) == leaf_views(old(out)@) + leaves_of(self@),
        decreases self,
    {
        match self {
            PaneNode::Pane(leaf) => {
                let ghost before = out@;
                out.push(leaf);
                assert(leaf_views(out@) =~= leaf_views(before) + leaves_of(self@));
            },
            PaneNode::Split { first, second, .. } => {
                let ghost before = out@;
                first.collect(out);
                second.collect(out);
                assert(leaf_views(out@) =~= leaf_views(before) + leaves_of(self@));
            },
        }
    }

    fn holder(&self, panel_id: PanelId) -> (pane: Option<PaneId>)
        ensures
            pane == holder_of(self@, panel_id),
        decreases self,
    {
        match self {
            PaneNode::Pane(leaf) => if strip_contains(&leaf.tab_order, panel_id) {
                Some(leaf.id)
            } else {
                None
            },
            PaneNode::Split { first, second, .. } => match first.holder(panel_id) {
                Some(pane) => Some(pane),
                None => second.holder(panel_id),
            },
        }
    }

    fn is_leaf(&self, pane: PaneId) -> (b: bool)
        ensures
            b == is_pane(self@, pane),
    {
        match self {
            PaneNode::Pane(leaf) => leaf.id == pane,
            PaneNode::Split { .. } => false,
        }
    }

    pub(crate) fn first_leaf(&self) -> (pane: PaneId)
        ensures
            leaves_of(self@).len() > 0,
            pane == leaves_of(self@)[0].id,
        decreases self,
    {
        match self {
            PaneNode::Pane(leaf) => leaf.id,
            PaneNode::Split { first, .. } => first.first_leaf(),
        }
    }

    fn last_leaf(&self) -> (pane: PaneId)
        ensures
            leaves_of(self@).len() > 0,
            pane == leaves_of(self@).last().id,
        decreases self,
    {
        match self {
            PaneNode::Pane(leaf) => leaf.id,
            PaneNode::Split { second, .. } => second.last_leaf(),
        }
    }

    /// The pane beside one, in layout order and within its sibling; none
    /// where the pane has no sibling.
    fn neighbour(&self, pane: PaneId) -> (found: Option<PaneId>)
        ensures
            found == neighbour_of(self@, pane),
            found is Some == sibling_of(self@, pane) is Some,
        decreases self,
    {
        match self {
            PaneNode::Pane(_) => None,
            PaneNode::Split { first, second, .. } => if first.is_leaf(pane) {
                Some(second.first_leaf())
            } else if second.is_leaf(pane) {
                Some(first.last_leaf())
            } else {
                match first.neighbour(pane) {
                    Some(found) => Some(found),
                    None => second.neighbour(pane),
                }
            },
        }
    }

    /// Puts an even split in the pane's place, the pane first and the fresh
    /// leaf second.
    fn split_at(self, pane: PaneId, axis: SplitAxis, fresh: PaneLeaf) -> (node: PaneNode)
        requires
            find_leaf(self@, pane) is Some,
        ensures
            node@ == replace_leaf(
                self@,
                pane,
                even_split(
                    axis,
                    NodeView::Pane(find_leaf(self@, pane)->0),
                    NodeView::Pane(fresh@),
                ),
            ),
        decreases self,
    {
        proof {
            reveal_with_fuel(node_view, 2);
        }
        match self {
            PaneNode::Pane(leaf) => PaneNode::Split {
                axis,
                ratio: SplitRatio(EVEN_SHARE),
                first: Box::new(PaneNode::Pane(leaf)),
                second: Box::new(PaneNode::Pane(fresh)),
            },
            PaneNode::Split { axis: own, ratio, first, second } => if first.find(pane).is_some() {
                let first = Box::new((*first).split_at(pane, axis, fresh));
                PaneNode::Split { axis: own, ratio, first, second }
            } else {
                let second = Box::new((*second).split_at(pane, axis, fresh));
                PaneNode::Split { axis: own, ratio, first, second }
            },
        }
    }

    /// Takes the pane out and promotes its sibling; hands back the first pane
    /// of that sibling, or nothing where the pane has no sibling.
    fn collapse(self, pane: PaneId) -> (done: (PaneNode, Option<PaneId>))
        ensures
            done.0@ == collapsed(self@, pane),
            match sibling_of(self@, pane) {
                Some(sibling) => done.1 == Some(leaves_of(sibling)[0].id),
                None => done.1 is None && done.0@ == self@,
            },
        decreases self,
    {
        match self {
            PaneNode::Pane(leaf) => (PaneNode::Pane(leaf), None),
            PaneNode::Split { axis, ratio, first, second } => {
                if first.is_leaf(pane) {
                    let target = second.first_leaf();
                    return (*second, Some(target));
                }
                if second.is_leaf(pane) {
                    let target = first.first_leaf();
                    return (*first, Some(target));
                }
                let (left, target) = (*first).collapse(pane);
                if target.is_some() {
                    return (
                        PaneNode::Split { axis, ratio, first: Box::new(left), second },
                        target,
                    );
                }
                let (right, target) = (*second).collapse(pane);
                (
                    PaneNode::Split {
                        axis,
                        ratio,
                        first: Box::new(left),
                        second: Box::new(right),
                    },
                    target,
                )
            },
        }
    }

    /// Sets the share of the split numbered `index`; hands back nothing where
    /// the node has it, else the number left after this node's own splits.
    fn set_ratio(&mut self, index: usize, share: SplitRatio) -> (left: Option<usize>)
        ensures
            match left {
                None => {
                    &&& index < split_count(old(self)@)
                    &&& final(self)@ == with_ratio(old(self)@, index as int, share)
                },
                Some(rest) => {
                    &&& rest == index - split_count(old(self)@)
                    &&& final(self)@ == old(self)@
                },
            },
        decreases *old(self),
    {
        match self {
            PaneNode::Pane(_) => Some(index),
            PaneNode::Split { ratio, first, second, .. } => {
                proof {
                    lemma_split_count_bounds((**first)@);
                    lemma_split_count_bounds((**second)@);
                }
                if index == 0 {
                    *ratio = share;
                    return None;
                }
                match first.set_ratio(index - 1, share) {
                    None => None,
                    Some(rest) => second.set_ratio(rest, share),
                }
            },
        }
    }
}

proof fn lemma_found_leaf_has_id(node: NodeView, pane: PaneId)
    ensures
        find_leaf(node, pane) matches Some(leaf) ==> leaf.id == pane,
    decreases node,
{
    match node {
        NodeView::Pane(_) => {},
        NodeView::Split { first, second, .. } => {
            lemma_found_leaf_has_id(*first, pane);
            lemma_found_leaf_has_id(*second, pane);
        },
    }
}

/// A pane whose contents were replaced is found with the new contents, and
/// what is put in its place next stands where it stood.
proof fn lemma_replaced_twice(node: NodeView, pane: PaneId, leaf: LeafView, with: NodeView)
    requires
        find_leaf(node, pane) is Some,
        leaf.id == pane,
    ensures
        find_leaf(replace_leaf(node, pane, NodeView::Pane(leaf)), pane) == Some(leaf),
        replace_leaf(replace_leaf(node, pane, NodeView::Pane(leaf)), pane, with) == replace_leaf(
            node,
            pane,
            with,
        ),
    decreases node,
{
    match node {
        NodeView::Pane(_) => {},
        NodeView::Split { first, second, .. } => {
            if find_leaf(*first, pane) is Some {
                lemma_replaced_twice(*first, pane, leaf, with);
            } else {
                lemma_replaced_twice(*second, pane, leaf, with);
            }
        },
    }
}

proof fn lemma_split_count_bounds(node: NodeView)
    ensures
        split_count(node) >= 0,
        leaves_of(node).len() == split_count(node) + 1,
    decreases node,
{
    match node {
        NodeView::Pane(_) => {},
        NodeView::Split { first, second, .. } => {
            lemma_split_count_bounds(*first);
            lemma_split_count_bounds(*second);
        },
    }
}

/// What the listed panes hold.
pub open spec fn leaf_views(leaves: Seq<&PaneLeaf>) -> Seq<LeafView> {
    leaves.map_values(|leaf: &PaneLeaf| leaf@)
}

impl Default for PaneTree {
    /// One empty pane, focused.
    fn default() -> (tree: Self)
        ensures
            tree@ == TreeView::fresh(),
    {
        PaneTree {
            root: PaneNode::Pane(
                PaneLeaf { id: PaneId(0), tab_order: Vec::new(), active: None },
            ),
            focused: PaneId(0),
            next_pane: 1,
        }
    }
}

impl PaneTree {
    /// A tree of given parts.
    pub(crate) fn assemble(root: PaneNode, focused: PaneId, next_pane: u64) -> (tree: Self)
        ensures
            tree@ == (TreeView { root: root@, focused, next_pane }),
    {
        PaneTree { root, focused, next_pane }
    }

    fn mint(&mut self) -> (id: PaneId)
        requires
            old(self)@.next_pane < u64::MAX,
        ensures
            id == PaneId(old(self)@.next_pane),
            final(self)@ == (TreeView { next_pane: (old(self)@.next_pane + 1) as u64, ..old(self)@ }),
    {
        let id = PaneId(self.next_pane);
        self.next_pane = self.next_pane + 1;
        id
    }

    pub fn leaf(&self, pane: PaneId) -> (found: Option<&PaneLeaf>)
        ensures
            match found {
                Some(leaf) => find_leaf(self@.root, pane) == Some(leaf@),
                None => find_leaf(self@.root, pane) is None,
            },
    {
        self.root.find(pane)
    }

    fn leaf_mut(&mut self, pane: PaneId) -> (found: Option<&mut PaneLeaf>)
        ensures
            match found {
                Some(leaf) => {
                    &&& find_leaf(old(self)@.root, pane) == Some((*leaf)@)
                    &&& final(self)@ == old(self)@.set_leaf(pane, (*final(leaf))@)
                },
                None => find_leaf(old(self)@.root, pane) is None && final(self)@ == old(self)@,
            },
    {
        self.root.find_mut(pane)
    }

    /// The panes in layout order, which is the focus-cycle order.
    pub fn leaves(&self) -> (leaves: Vec<&PaneLeaf>)
        ensures
            leaf_views(leaves@) == leaves_of(self@.root),
    {
        let mut out: Vec<&PaneLeaf> = Vec::new();
        self.root.collect(&mut out);
        assert(leaf_views(out@) =~= leaves_of(self@.root));
        out
    }

    pub fn root(&self) -> (root: &PaneNode)
        ensures
            root@ == self@.root,
    {
        &self.root
    }

    pub fn pane_count(&self) -> (count: usize)
        ensures
            count == leaves_of(self@.root).len(),
            count > 0,
    {
        proof {
            lemma_split_count_bounds(self@.root);
        }
        let leaves = self.leaves();
        assert(leaf_views(leaves@).len() == leaves@.len());
        leaves.len()
    }

    /// The pane that holds the panel.
    pub fn pane_of(&self, panel_id: PanelId) -> (pane: Option<PaneId>)
        ensures
            pane == holder_of(self@.root, panel_id),
    {
        self.root.holder(panel_id)
    }

    pub fn focused_active(&self) -> (active: Option<PanelId>)
        ensures
            active == (match find_leaf(self@.root, self@.focused) {
                Some(leaf) => leaf.active,
                None => None,
            }),
    {
        match self.leaf(self.focused) {
            Some(leaf) => leaf.active,
            None => None,
        }
    }

    /// Appends the tab to the pane and brings it on top.
    fn add_tab(&mut self, pane: PaneId, panel_id: PanelId)
        ensures
            final(self)@ == old(self)@.tab_added(pane, panel_id),
    {
        if let Some(leaf) = self.leaf_mut(pane) {
            leaf.tab_order.push(panel_id);
            leaf.active = Some(panel_id);
        }
    }

    /// A new tab lands in the focused pane, on top; a tab that is open
    /// already is activated instead.
    pub fn insert_tab(&mut self, panel_id: PanelId)
        ensures
            final(self)@ == old(self)@.inserted(panel_id),
    {
        if self.pane_of(panel_id).is_some() {
            self.activate_tab(panel_id);
            return;
        }
        let focused = self.focused;
        self.add_tab(focused, panel_id);
    }

    /// Brings a tab on top of the pane that holds it, which takes focus.
    pub fn activate_tab(&mut self, panel_id: PanelId) -> (found: bool)
        ensures
            found == (holder_of(old(self)@.root, panel_id) is Some),
            final(self)@ == old(self)@.activated(panel_id),
    {
        match self.pane_of(panel_id) {
            None => false,
            Some(pane) => {
                self.focused = pane;
                if let Some(leaf) = self.leaf_mut(pane) {
                    leaf.active = Some(panel_id);
                }
                true
            },
        }
    }

    /// Removes a tab. A pane whose last tab leaves collapses into its
    /// sibling; the only pane of a window goes empty instead.
    pub fn remove_tab(&mut self, panel_id: PanelId)
        ensures
            final(self)@ == old(self)@.removed(panel_id),
    {
        match self.pane_of(panel_id) {
            None => {},
            Some(pane) => {
                let mut emptied = false;
                if let Some(leaf) = self.leaf_mut(pane) {
                    leaf.tab_order = strip_without(&leaf.tab_order, panel_id);
                    if leaf.active == Some(panel_id) {
                        leaf.active = strip_last(&leaf.tab_order);
                    }
                    emptied = leaf.tab_order.len() == 0;
                }
                if emptied {
                    self.collapse_pane(pane);
                }
            },
        }
    }

    /// Takes the pane out, promotes its sibling and focuses that sibling's
    /// first pane. False where the pane has no sibling.
    fn collapse_pane(&mut self, pane: PaneId) -> (done: bool)
        ensures
            done == (sibling_of(old(self)@.root, pane) is Some),
            final(self)@ == old(self)@.pane_collapsed(pane),
    {
        let mut root = PaneNode::Pane(
            PaneLeaf { id: PaneId(0), tab_order: Vec::new(), active: None },
        );
        std::mem::swap(&mut root, &mut self.root);
        let (root, target) = root.collapse(pane);
        self.root = root;
        match target {
            None => false,
            Some(target) => {
                self.focused = target;
                true
            },
        }
    }

    /// Puts an even split in the pane's place with a fresh leaf after it.
    fn split_leaf(&mut self, pane: PaneId, axis: SplitAxis, fresh: PaneLeaf)
        requires
            find_leaf(old(self)@.root, pane) is Some,
        ensures
            final(self)@ == (TreeView {
                root: replace_leaf(
                    old(self)@.root,
                    pane,
                    even_split(
                        axis,
                        NodeView::Pane(find_leaf(old(self)@.root, pane)->0),
                        NodeView::Pane(fresh@),
                    ),
                ),
                ..old(self)@
            }),
    {
        let mut root = PaneNode::Pane(
            PaneLeaf { id: PaneId(0), tab_order: Vec::new(), active: None },
        );
        std::mem::swap(&mut root, &mut self.root);
        self.root = root.split_at(pane, axis, fresh);
    }

    /// Splits a pane; the new one stands after it, takes the tab on top along
    /// and takes focus. An empty pane splits into two empty ones. No pane of
    /// that id: nothing but a number is spent.
    pub fn split(&mut self, pane: PaneId, axis: SplitAxis) -> (new_pane: Option<PaneId>)
        requires
            old(self)@.next_pane < u64::MAX,
        ensures
            final(self)@ == old(self)@.divided(pane, axis),
            new_pane == (if find_leaf(old(self)@.root, pane) is Some {
                Some(PaneId(old(self)@.next_pane))
            } else {
                None
            }),
    {
        let ghost before = self@;
        let new_id = self.mint();
        let mut fresh = PaneLeaf { id: new_id, tab_order: Vec::new(), active: None };
        match self.leaf_mut(pane) {
            None => return None,
            Some(leaf) => {
                if let Some(tab) = leaf.active {
                    leaf.tab_order = strip_without(&leaf.tab_order, tab);
                    leaf.active = strip_last(&leaf.tab_order);
                    fresh.tab_order.push(tab);
                    fresh.active = Some(tab);
                }
            },
        }
        proof {
            let kept = match (find_leaf(before.root, pane)->0).active {
                None => find_leaf(before.root, pane)->0,
                Some(tab) => {
                    let leaf = find_leaf(before.root, pane)->0;
                    LeafView {
                        id: leaf.id,
                        tabs: without(leaf.tabs, tab),
                        active: last_tab(without(leaf.tabs, tab)),
                    }
                },
            };
            lemma_found_leaf_has_id(before.root, pane);
            match (find_leaf(before.root, pane)->0).active {
                None => assert(fresh.tab_order@ =~= Seq::empty()),
                Some(tab) => assert(fresh.tab_order@ =~= seq![tab]),
            }
            lemma_replaced_twice(
                before.root,
                pane,
                kept,
                even_split(axis, NodeView::Pane(kept), NodeView::Pane(fresh@)),
            );
        }
        self.split_leaf(pane, axis, fresh);
        self.focused = new_id;
        Some(new_id)
    }

    /// Closes a pane: its tabs move to its neighbour in layout order, and the
    /// first pane of the sibling that stands in its place takes focus. No
    /// document closes with it. The last pane refuses, as does an unknown one.
    pub fn close_pane(&mut self, pane: PaneId) -> (closed: bool)
        ensures
            closed == (find_leaf(old(self)@.root, pane) is Some && sibling_of(
                old(self)@.root,
                pane,
            ) is Some),
            final(self)@ == old(self)@.closed_pane(pane),
    {
        let ghost before = self@;
        let tabs: Vec<PanelId> = match self.leaf(pane) {
            None => return false,
            Some(leaf) => leaf.tab_order.clone(),
        };
        assert(tabs@ =~= (find_leaf(before.root, pane)->0).tabs);
        let target: PaneId = match self.root.neighbour(pane) {
            None => return false,
            Some(target) => target,
        };
        self.collapse_pane(pane);
        if let Some(leaf) = self.leaf_mut(target) {
            let ghost strip = leaf.tab_order@;
            let ghost leaf_id = leaf.id;
            let ghost leaf_active = leaf.active;
            let mut next: usize = 0;
            assert(tabs@.take(0) =~= Seq::empty());
            while next < tabs.len()
                invariant
                    next <= tabs@.len(),
                    leaf.tab_order@ == joined(strip, tabs@.take(next as int)),
                    leaf.id == leaf_id,
                    leaf.active == leaf_active,
                decreases tabs@.len() - next,
            {
                proof {
                    let taken = tabs@.take(next + 1);
                    assert(taken.drop_last() =~= tabs@.take(next as int));
                    assert(taken.last() == tabs@[next as int]);
                }
                if !strip_contains(&leaf.tab_order, tabs[next]) {
                    leaf.tab_order.push(tabs[next]);
                }
                next = next + 1;
            }
            assert(tabs@.take(next as int) =~= tabs@);
            if leaf.active.is_none() {
                leaf.active = strip_last(&leaf.tab_order);
            }
        }
        true
    }

    /// Focuses the next pane in layout order, the first after the last.
    pub fn focus_next(&mut self) -> (pane: PaneId)
        ensures
            final(self)@ == old(self)@.focus_advanced(),
            pane == final(self)@.focused,
    {
        let ghost views = leaves_of(self@.root);
        proof {
            lemma_split_count_bounds(self@.root);
        }
        let leaves = self.leaves();
        assert(views.len() == leaves@.len());
        let mut current: usize = 0;
        let mut next: usize = 0;
        let mut found = false;
        while next < leaves.len() && !found
            invariant
                leaf_views(leaves@) == views,
                views.len() == leaves@.len(),
                views.len() > 0,
                views == leaves_of(self@.root),
                next <= leaves@.len(),
                found ==> current < leaves@.len() && views[current as int].id == self@.focused && (
                forall|j: int| 0 <= j < current ==> #[trigger] views[j].id != self@.focused),
                !found ==> current == 0 && (forall|j: int|
                    0 <= j < next ==> #[trigger] views[j].id != self@.focused),
            decreases leaves@.len() - next + (if found { 0int } else { 1 }),
        {
            assert(views[next as int] == leaves@[next as int]@);
            if leaves[next].id == self.focused {
                current = next;
                found = true;
            } else {
                next = next + 1;
            }
        }
        proof {
            if found {
                assert(views[current as int].id == self@.focused);
                let at = leaf_position(views, self@.focused);
                assert(0 <= at < views.len() && views[at].id == self@.focused && (forall|j: int|
                    0 <= j < at ==> #[trigger] views[j].id != self@.focused));
                assert(at == current);
            }
        }
        let step: usize = (current + 1) % leaves.len();
        assert(views[step as int] == leaves@[step as int]@);
        let pane = leaves[step].id;
        self.focused = pane;
        pane
    }

    /// Sets a split's share, held to its bounds, by the split's number in the
    /// order the view draws them; a number past the last changes nothing.
    pub fn set_split_ratio(&mut self, split_ix: usize, ratio: SplitRatio)
        ensures
            final(self)@ == (if split_ix < split_count(old(self)@.root) {
                TreeView {
                    root: with_ratio(old(self)@.root, split_ix as int, ratio.bounded()),
                    ..old(self)@
                }
            } else {
                old(self)@
            }),
    {
        self.root.set_ratio(split_ix, ratio.clamped());
    }

    /// Moves a tab into a pane, behind its tabs and on top; the pane takes
    /// focus and the pane left empty collapses. A tab that is there already
    /// and a pane that is not: only focus moves.
    pub fn move_tab_to_pane(&mut self, panel_id: PanelId, target: PaneId)
        ensures
            final(self)@ == old(self)@.tab_moved(panel_id, target),
    {
        if self.pane_of(panel_id) == Some(target) || self.leaf(target).is_none() {
            self.focused = target;
            return;
        }
        self.remove_tab(panel_id);
        self.focused = target;
        self.add_tab(target, panel_id);
    }

    /// Splits a pane and lands the tab in the new pane, which takes focus. A
    /// pane that holds only this tab just takes focus.
    pub fn split_pane_with_tab(&mut self, target: PaneId, axis: SplitAxis, panel_id: PanelId)
        requires
            old(self)@.next_pane < u64::MAX,
        ensures
            final(self)@ == old(self)@.split_around(target, axis, panel_id),
    {
        let fills = match self.leaf(target) {
            None => return,
            Some(leaf) => leaf.tab_order.len() == 1,
        };
        if fills && self.pane_of(panel_id) == Some(target) {
            self.focused = target;
            return;
        }
        let ghost before = self@;
        self.remove_tab(panel_id);
        proof {
            lemma_removal_keeps_counter(before, panel_id);
        }
        let new_id = self.mint();
        if self.leaf(target).is_none() {
            let focused = self.focused;
            self.move_tab_to_pane(panel_id, focused);
            return;
        }
        let mut tab_order: Vec<PanelId> = Vec::new();
        tab_order.push(panel_id);
        assert(tab_order@ =~= seq![panel_id]);
        self.split_leaf(target, axis, PaneLeaf { id: new_id, tab_order, active: Some(panel_id) });
        self.focused = new_id;
    }
}

proof fn lemma_removal_keeps_counter(tree: TreeView, panel: PanelId)
    ensures
        tree.removed(panel).next_pane == tree.next_pane,
{
}

} // verus!
