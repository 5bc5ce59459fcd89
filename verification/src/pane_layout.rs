//! The persisted form of a pane tree: panel ids give way to the indices of
//! session entries, and the tree is rebuilt from whichever entries reopen.

use crate::pane::{
    leaves_of, LeafView, NodeView, PaneId, PaneLeaf, PaneNode, PaneTree, PanelId, SplitAxis,
    SplitRatio, TreeView,
};
use crate::pane_laws::shares_bounded;
use std::collections::HashMap;
use vstd::prelude::*;

verus! {

#[derive(Clone, Copy, Debug, PartialEq, Eq, Structural)]
pub enum PaneLayoutAxis {
    Horizontal,
    Vertical,
}

/// A persisted pane or split.
#[derive(Debug)]
pub enum PaneLayoutEntry {
    Split { axis: PaneLayoutAxis, ratio: SplitRatio, children: Vec<PaneLayoutEntry> },
    Pane { tabs: Vec<usize>, active: Option<usize> },
}

/// A persisted layout as a value.
#[verifier::ext_equal]
pub enum LayoutView {
    Split { axis: PaneLayoutAxis, ratio: SplitRatio, children: Seq<LayoutView> },
    Pane { tabs: Seq<usize>, active: Option<usize> },
}

pub open spec fn layout_view(entry: PaneLayoutEntry) -> LayoutView
    decreases entry,
{
    match entry {
        PaneLayoutEntry::Split { axis, ratio, children } => LayoutView::Split {
            axis,
            ratio,
            children: layout_views(children@),
        },
        PaneLayoutEntry::Pane { tabs, active } => LayoutView::Pane { tabs: tabs@, active },
    }
}

pub open spec fn layout_views(entries: Seq<PaneLayoutEntry>) -> Seq<LayoutView>
    decreases entries,
{
    if entries.len() == 0 {
        Seq::empty()
    } else {
        layout_views(entries.drop_last()).push(layout_view(entries.last()))
    }
}

impl View for PaneLayoutEntry {
    type V = LayoutView;

    open spec fn view(&self) -> LayoutView {
        layout_view(*self)
    }
}

pub open spec fn persisted_axis(axis: SplitAxis) -> PaneLayoutAxis {
    match axis {
        SplitAxis::Horizontal => PaneLayoutAxis::Horizontal,
        SplitAxis::Vertical => PaneLayoutAxis::Vertical,
    }
}

pub open spec fn restored_axis(axis: PaneLayoutAxis) -> SplitAxis {
    match axis {
        PaneLayoutAxis::Horizontal => SplitAxis::Horizontal,
        PaneLayoutAxis::Vertical => SplitAxis::Vertical,
    }
}

/// The session entry of a panel.
pub open spec fn entry_of(entries: Map<PanelId, usize>, panel: PanelId) -> Option<usize> {
    if entries.contains_key(panel) {
        Some(entries[panel])
    } else {
        None
    }
}

/// The panel a session entry reopened as.
pub open spec fn panel_of(restored: Seq<Option<PanelId>>, entry: usize) -> Option<PanelId> {
    if entry < restored.len() {
        restored[entry as int]
    } else {
        None
    }
}

/// The entries of the tabs that have one, in strip order.
pub open spec fn entries_of(entries: Map<PanelId, usize>, tabs: Seq<PanelId>) -> Seq<usize> {
    tabs.filter_map(|panel: PanelId| entry_of(entries, panel))
}

/// The panels of the entries that reopened, in strip order.
pub open spec fn panels_of(restored: Seq<Option<PanelId>>, tabs: Seq<usize>) -> Seq<PanelId> {
    tabs.filter_map(|entry: usize| panel_of(restored, entry))
}

/// The layout a node persists as.
pub open spec fn layout_of(node: NodeView, entries: Map<PanelId, usize>) -> LayoutView
    decreases node,
{
    match node {
        NodeView::Pane(leaf) => LayoutView::Pane {
            tabs: entries_of(entries, leaf.tabs),
            active: match leaf.active {
                Some(panel) => entry_of(entries, panel),
                None => None,
            },
        },
        NodeView::Split { axis, ratio, first, second } => LayoutView::Split {
            axis: persisted_axis(axis),
            ratio,
            children: seq![layout_of(*first, entries), layout_of(*second, entries)],
        },
    }
}

/// The tab on top of a rebuilt pane: the persisted one where it reopened in
/// this pane, else the last.
pub open spec fn rebuilt_active(
    restored: Seq<Option<PanelId>>,
    tabs: Seq<PanelId>,
    active: Option<usize>,
) -> Option<PanelId> {
    let wanted = match active {
        Some(entry) => panel_of(restored, entry),
        None => None,
    };
    if wanted is Some && tabs.contains(wanted->0) {
        wanted
    } else if tabs.len() > 0 {
        Some(tabs.last())
    } else {
        None
    }
}

/// Panes that a layout numbers while it is rebuilt.
pub open spec fn numbered_panes(layout: LayoutView, restored: Seq<Option<PanelId>>) -> nat
    decreases layout,
{
    match layout {
        LayoutView::Pane { tabs, .. } => if panels_of(restored, tabs).len() == 0 {
            0
        } else {
            1
        },
        LayoutView::Split { children, .. } => numbered_in_all(children, restored),
    }
}

pub open spec fn numbered_in_all(layouts: Seq<LayoutView>, restored: Seq<Option<PanelId>>) -> nat
    decreases layouts,
{
    if layouts.len() == 0 {
        0
    } else {
        numbered_in_all(layouts.drop_last(), restored) + numbered_panes(layouts.last(), restored)
    }
}

/// The node a layout rebuilds to, its panes numbered from `first_id` in
/// layout order: panes with nothing left drop, a split with one child left
/// gives way to that child, and one with none left drops too.
pub open spec fn rebuilt(
    layout: LayoutView,
    restored: Seq<Option<PanelId>>,
    first_id: int,
) -> Option<NodeView>
    decreases layout,
{
    match layout {
        LayoutView::Pane { tabs, active } => {
            let panels = panels_of(restored, tabs);
            if panels.len() == 0 {
                None
            } else {
                Some(
                    NodeView::Pane(
                        LeafView {
                            id: PaneId(first_id as u64),
                            tabs: panels,
                            active: rebuilt_active(restored, panels, active),
                        },
                    ),
                )
            }
        },
        LayoutView::Split { axis, ratio, children } => {
            let built = rebuilt_all(children, restored, first_id);
            if built.len() == 0 {
                None
            } else if built.len() == 1 {
                Some(built[0])
            } else {
                Some(
                    NodeView::Split {
                        axis: restored_axis(axis),
                        ratio: ratio.bounded(),
                        first: Box::new(built[0]),
                        second: Box::new(built[1]),
                    },
                )
            }
        },
    }
}

pub open spec fn rebuilt_all(
    layouts: Seq<LayoutView>,
    restored: Seq<Option<PanelId>>,
    first_id: int,
) -> Seq<NodeView>
    decreases layouts,
{
    if layouts.len() == 0 {
        Seq::empty()
    } else {
        let earlier = rebuilt_all(layouts.drop_last(), restored, first_id);
        let id = first_id + numbered_in_all(layouts.drop_last(), restored);
        match rebuilt(layouts.last(), restored, id) {
            None => earlier,
            Some(node) => earlier.push(node),
        }
    }
}

/// What the rebuilt nodes look like.
pub open spec fn node_views(nodes: Seq<PaneNode>) -> Seq<NodeView> {
    nodes.map_values(|node: PaneNode| node@)
}

proof fn lemma_numbered_monotone(layouts: Seq<LayoutView>, restored: Seq<Option<PanelId>>, k: int)
    requires
        0 <= k <= layouts.len(),
    ensures
        numbered_in_all(layouts.take(k), restored) <= numbered_in_all(layouts, restored),
    decreases layouts.len(),
{
    if k < layouts.len() {
        lemma_numbered_monotone(layouts.drop_last(), restored, k);
        assert(layouts.drop_last().take(k) =~= layouts.take(k));
    } else {
        assert(layouts.take(k) =~= layouts);
    }
}

pub(crate) proof fn lemma_layout_views_at(entries: Seq<PaneLayoutEntry>)
    ensures
        layout_views(entries).len() == entries.len(),
        forall|k: int|
            0 <= k < entries.len() ==> #[trigger] layout_views(entries)[k] == layout_view(
                entries[k],
            ),
    decreases entries.len(),
{
    if entries.len() > 0 {
        lemma_layout_views_at(entries.drop_last());
    }
}

fn persist_node(node: &PaneNode, entry_index_of: &HashMap<PanelId, usize>) -> (layout:
    PaneLayoutEntry)
    ensures
        layout@ == layout_of(node@, entry_index_of@),
    decreases node,
{
    broadcast use vstd::std_specs::hash::group_hash_axioms;

    match node {
        PaneNode::Pane(leaf) => {
            let mut tabs: Vec<usize> = Vec::new();
            let mut next: usize = 0;
            assert(leaf.tab_order@.take(0) =~= Seq::empty());
            while next < leaf.tab_order.len()
                invariant
                    next <= leaf.tab_order@.len(),
                    tabs@ == entries_of(entry_index_of@, leaf.tab_order@.take(next as int)),
                decreases leaf.tab_order@.len() - next,
            {
                proof {
                    let taken = leaf.tab_order@.take(next + 1);
                    assert(taken.drop_last() =~= leaf.tab_order@.take(next as int));
                    assert(taken.last() == leaf.tab_order@[next as int]);
                }
                let ghost before = tabs@;
                if let Some(entry) = entry_index_of.get(&leaf.tab_order[next]) {
                    tabs.push(*entry);
                    assert(tabs@ =~= before + seq![*entry]);
                }
                next = next + 1;
            }
            assert(leaf.tab_order@.take(next as int) =~= leaf.tab_order@);
            let active: Option<usize> = match leaf.active {
                Some(panel) => match entry_index_of.get(&panel) {
                    Some(entry) => Some(*entry),
                    None => None,
                },
                None => None,
            };
            PaneLayoutEntry::Pane { tabs, active }
        },
        PaneNode::Split { axis, ratio, first, second } => {
            let mut children: Vec<PaneLayoutEntry> = Vec::new();
            children.push(persist_node(first, entry_index_of));
            children.push(persist_node(second, entry_index_of));
            proof {
                lemma_layout_views_at(children@);
                assert(layout_views(children@) =~= seq![
                    layout_of(first@, entry_index_of@),
                    layout_of(second@, entry_index_of@),
                ]);
            }
            PaneLayoutEntry::Split {
                axis: match axis {
                    SplitAxis::Horizontal => PaneLayoutAxis::Horizontal,
                    SplitAxis::Vertical => PaneLayoutAxis::Vertical,
                },
                ratio: *ratio,
                children,
            }
        },
    }
}

fn reopened(restored: &[Option<PanelId>], entry: usize) -> (panel: Option<PanelId>)
    ensures
        panel == panel_of(restored@, entry),
{
    if entry < restored.len() {
        restored[entry]
    } else {
        None
    }
}

fn restore_node(layout: &PaneLayoutEntry, restored: &[Option<PanelId>], next_pane: &mut u64) -> (
    node: Option<PaneNode>)
    requires
        *old(next_pane) + numbered_panes(layout@, restored@) <= u64::MAX,
    ensures
        *final(next_pane) == *old(next_pane) + numbered_panes(layout@, restored@),
        match node {
            Some(node) => rebuilt(layout@, restored@, *old(next_pane) as int) == Some(node@),
            None => rebuilt(layout@, restored@, *old(next_pane) as int) is None,
        },
    decreases layout,
{
    match layout {
        PaneLayoutEntry::Pane { tabs, active } => {
            let mut tab_order: Vec<PanelId> = Vec::new();
            let mut next: usize = 0;
            assert(tabs@.take(0) =~= Seq::empty());
            while next < tabs.len()
                invariant
                    next <= tabs@.len(),
                    tab_order@ == panels_of(restored@, tabs@.take(next as int)),
                decreases tabs@.len() - next,
            {
                proof {
                    let taken = tabs@.take(next + 1);
                    assert(taken.drop_last() =~= tabs@.take(next as int));
                    assert(taken.last() == tabs@[next as int]);
                }
                let ghost before = tab_order@;
                if let Some(panel) = reopened(restored, tabs[next]) {
                    tab_order.push(panel);
                    assert(tab_order@ =~= before + seq![panel]);
                }
                next = next + 1;
            }
            assert(tabs@.take(next as int) =~= tabs@);
            if tab_order.len() == 0 {
                return None;
            }
            let wanted: Option<PanelId> = match active {
                Some(entry) => reopened(restored, *entry),
                None => None,
            };
            let mut on_top: Option<PanelId> = Some(tab_order[tab_order.len() - 1]);
            if let Some(panel) = wanted {
                if crate::pane::strip_contains(&tab_order, panel) {
                    on_top = Some(panel);
                }
            }
            let id = PaneId(*next_pane);
            *next_pane = *next_pane + 1;
            Some(PaneNode::Pane(PaneLeaf { id, tab_order, active: on_top }))
        },
        PaneLayoutEntry::Split { axis, ratio, children } => {
            let ghost layouts = layout_views(children@);
            let ghost start = *next_pane;
            proof {
                lemma_layout_views_at(children@);
            }
            let mut built: Vec<PaneNode> = Vec::new();
            let mut next: usize = 0;
            assert(layouts.take(0) =~= Seq::empty());
            assert(node_views(built@) =~= Seq::empty());
            while next < children.len()
                invariant
                    next <= children@.len(),
                    layout@ == (LayoutView::Split { axis: *axis, ratio: *ratio, children: layouts }),
                    *layout == (PaneLayoutEntry::Split {
                        axis: *axis,
                        ratio: *ratio,
                        children: *children,
                    }),
                    layouts == layout_views(children@),
                    layouts.len() == children@.len(),
                    forall|k: int|
                        0 <= k < children@.len() ==> #[trigger] layouts[k] == layout_view(
                            children@[k],
                        ),
                    start + numbered_in_all(layouts, restored@) <= u64::MAX,
                    *next_pane == start + numbered_in_all(layouts.take(next as int), restored@),
                    node_views(built@) == rebuilt_all(
                        layouts.take(next as int),
                        restored@,
                        start as int,
                    ),
                decreases children@.len() - next,
            {
                proof {
                    let taken = layouts.take(next + 1);
                    assert(taken.drop_last() =~= layouts.take(next as int));
                    assert(taken.last() == layouts[next as int]);
                    lemma_numbered_monotone(layouts, restored@, next + 1);
                }
                let ghost before = built@;
                if let Some(node) = restore_node(&children[next], restored, next_pane) {
                    built.push(node);
                    assert(node_views(built@) =~= node_views(before).push(node@));
                }
                next = next + 1;
            }
            assert(layouts.take(next as int) =~= layouts);
            assert(node_views(built@).len() == built@.len());
            if built.len() == 0 {
                None
            } else if built.len() == 1 {
                let only = built.remove(0);
                assert(only@ == rebuilt_all(layouts, restored@, start as int)[0]);
                Some(only)
            } else {
                let ghost nodes = node_views(built@);
                let second = built.remove(1);
                let first = built.remove(0);
                assert(second@ == nodes[1]);
                assert(first@ == nodes[0]);
                Some(
                    PaneNode::Split {
                        axis: match axis {
                            PaneLayoutAxis::Horizontal => SplitAxis::Horizontal,
                            PaneLayoutAxis::Vertical => SplitAxis::Vertical,
                        },
                        ratio: ratio.clamped(),
                        first: Box::new(first),
                        second: Box::new(second),
                    },
                )
            }
        },
    }
}

impl PaneTree {
    /// The layout to persist: none for a single pane. Tabs without a session
    /// entry drop.
    pub fn to_layout(&self, entry_index_of: &HashMap<PanelId, usize>) -> (layout: Option<
        PaneLayoutEntry,
    >)
        ensures
            match layout {
                None => leaves_of(self@.root).len() <= 1,
                Some(layout) => leaves_of(self@.root).len() > 1 && layout@ == layout_of(
                    self@.root,
                    entry_index_of@,
                ),
            },
    {
        if self.pane_count() <= 1 {
            None
        } else {
            Some(persist_node(self.root(), entry_index_of))
        }
    }

    /// Rebuilds the tree from a persisted layout and the panels its entries
    /// reopened as; none where nothing is left of it. The first pane has
    /// focus.
    pub fn from_layout(layout: &PaneLayoutEntry, restored: &[Option<PanelId>]) -> (tree: Option<
        PaneTree,
    >)
        requires
            numbered_panes(layout@, restored@) <= u64::MAX,
        ensures
            match tree {
                None => rebuilt(layout@, restored@, 0) is None,
                Some(tree) => rebuilt(layout@, restored@, 0) is Some && tree@ == (TreeView {
                    root: rebuilt(layout@, restored@, 0)->0,
                    focused: leaves_of(rebuilt(layout@, restored@, 0)->0)[0].id,
                    next_pane: numbered_panes(layout@, restored@) as u64,
                }),
            },
    {
        let mut next_pane: u64 = 0;
        match restore_node(layout, restored, &mut next_pane) {
            None => None,
            Some(root) => {
                let focused = root.first_leaf();
                Some(PaneTree::assemble(root, focused, next_pane))
            },
        }
    }
}

/// The node with its panes numbered from `first_id` in layout order.
pub open spec fn renumbered(node: NodeView, first_id: int) -> NodeView
    decreases node,
{
    match node {
        NodeView::Pane(leaf) => NodeView::Pane(LeafView { id: PaneId(first_id as u64), ..leaf }),
        NodeView::Split { axis, ratio, first, second } => NodeView::Split {
            axis,
            ratio,
            first: Box::new(renumbered(*first, first_id)),
            second: Box::new(renumbered(*second, first_id + leaves_of(*first).len())),
        },
    }
}

/// Every pane of the node has tabs, each with a session entry that reopened
/// as the panel it was, and one of them on top.
pub open spec fn all_reopened(
    node: NodeView,
    entries: Map<PanelId, usize>,
    restored: Seq<Option<PanelId>>,
) -> bool
    decreases node,
{
    match node {
        NodeView::Pane(leaf) => {
            &&& leaf.tabs.len() > 0
            &&& leaf.active is Some
            &&& leaf.tabs.contains(leaf.active->0)
            &&& forall|panel: PanelId| #[trigger]
                leaf.tabs.contains(panel) ==> entries.contains_key(panel) && panel_of(
                    restored,
                    entries[panel],
                ) == Some(panel)
        },
        NodeView::Split { first, second, .. } => {
            &&& all_reopened(*first, entries, restored)
            &&& all_reopened(*second, entries, restored)
        },
    }
}

proof fn lemma_strip_round_trip(
    tabs: Seq<PanelId>,
    entries: Map<PanelId, usize>,
    restored: Seq<Option<PanelId>>,
)
    requires
        forall|panel: PanelId| #[trigger]
            tabs.contains(panel) ==> entries.contains_key(panel) && panel_of(
                restored,
                entries[panel],
            ) == Some(panel),
    ensures
        panels_of(restored, entries_of(entries, tabs)) == tabs,
    decreases tabs.len(),
{
    if tabs.len() > 0 {
        let shorter = tabs.drop_last();
        assert forall|panel: PanelId| #[trigger] shorter.contains(panel) implies entries.contains_key(
            panel,
        ) && panel_of(restored, entries[panel]) == Some(panel) by {
            let i = choose|i: int| 0 <= i < shorter.len() && shorter[i] == panel;
            assert(tabs[i] == panel);
            assert(tabs.contains(panel));
        }
        lemma_strip_round_trip(shorter, entries, restored);
        assert(tabs.contains(tabs.last()));
        let entry = entries[tabs.last()];
        let listed = entries_of(entries, tabs);
        assert(listed == entries_of(entries, shorter) + seq![entry]);
        assert(listed.drop_last() =~= entries_of(entries, shorter));
        assert(listed.last() == entry);
        assert(panels_of(restored, listed) == panels_of(restored, listed.drop_last()) + seq![
            tabs.last(),
        ]);
        assert(tabs =~= shorter + seq![tabs.last()]);
    } else {
        assert(entries_of(entries, tabs) =~= Seq::empty());
        assert(tabs =~= Seq::empty());
    }
}

/// A layout rebuilt from entries that all reopened is the tree that was
/// persisted, its panes numbered afresh in layout order.
pub proof fn layout_round_trips(
    node: NodeView,
    entries: Map<PanelId, usize>,
    restored: Seq<Option<PanelId>>,
    first_id: int,
)
    requires
        all_reopened(node, entries, restored),
        shares_bounded(node),
    ensures
        rebuilt(layout_of(node, entries), restored, first_id) == Some(renumbered(node, first_id)),
        numbered_panes(layout_of(node, entries), restored) == leaves_of(node).len(),
    decreases node,
{
    match node {
        NodeView::Pane(leaf) => {
            lemma_strip_round_trip(leaf.tabs, entries, restored);
        },
        NodeView::Split { axis, ratio, first, second } => {
            let left = layout_of(*first, entries);
            let right = layout_of(*second, entries);
            layout_round_trips(*first, entries, restored, first_id);
            layout_round_trips(
                *second,
                entries,
                restored,
                first_id + leaves_of(*first).len(),
            );
            let children = seq![left, right];
            reveal_with_fuel(rebuilt_all, 3);
            reveal_with_fuel(numbered_in_all, 3);
            assert(children.drop_last() =~= seq![left]);
            assert(seq![left].drop_last() =~= Seq::empty());
            assert(seq![left].last() == left);
            assert(children.last() == right);
            let built = rebuilt_all(children, restored, first_id);
            assert(built =~= seq![
                renumbered(*first, first_id),
                renumbered(*second, first_id + leaves_of(*first).len()),
            ]);
        },
    }
}

} // verus!
