//! What every operation does to the layout: which node of the tree changes,
//! to what, and that the rest of the tree stays as it is.

use crate::pane::{
    collapsed, find_leaf, holder_of, is_pane, last_tab, leaves_of, replace_leaf,
    sibling_of, split_count, with_ratio, with_tab, without, without_tab, LeafView, NodeView, PaneId,
    PaneTree, PanelId, SplitAxis, SplitRatio, TreeView, EVEN_SHARE, GREATEST_SHARE, LEAST_SHARE,
};
use crate::pane_laws::{
    has_pane, is_open, lemma_found, lemma_holder, lemma_not_found, lemma_sibling,
    lemma_strip_distinct,
};
use vstd::prelude::*;

verus! {

/// The node that a way down the tree leads to: at each split to its first
/// child, or to its second.
pub open spec fn node_on(node: NodeView, way: Seq<bool>) -> Option<NodeView>
    decreases way.len(),
{
    if way.len() == 0 {
        Some(node)
    } else {
        match node {
            NodeView::Pane(_) => None,
            NodeView::Split { first, second, .. } => if way[0] {
                node_on(*second, way.skip(1))
            } else {
                node_on(*first, way.skip(1))
            },
        }
    }
}

/// The tree with another node at the end of a way, and all else as it was.
pub open spec fn grafted(node: NodeView, way: Seq<bool>, with: NodeView) -> NodeView
    decreases way.len(),
{
    if way.len() == 0 {
        with
    } else {
        match node {
            NodeView::Pane(_) => node,
            NodeView::Split { axis, ratio, first, second } => if way[0] {
                NodeView::Split {
                    axis,
                    ratio,
                    first,
                    second: Box::new(grafted(*second, way.skip(1), with)),
                }
            } else {
                NodeView::Split {
                    axis,
                    ratio,
                    first: Box::new(grafted(*first, way.skip(1), with)),
                    second,
                }
            },
        }
    }
}

/// Two panes side by side or one above the other, in equal shares.
pub open spec fn halves(axis: SplitAxis, first: LeafView, second: LeafView) -> NodeView {
    NodeView::Split {
        axis,
        ratio: SplitRatio(EVEN_SHARE),
        first: Box::new(NodeView::Pane(first)),
        second: Box::new(NodeView::Pane(second)),
    }
}

pub(crate) proof fn lemma_step_second(node: NodeView, rest: Seq<bool>, with: NodeView)
    requires
        node is Split,
    ensures
        node_on(node, seq![true] + rest) == node_on(*node->second, rest),
        grafted(node, seq![true] + rest, with) == (NodeView::Split {
            axis: node->axis,
            ratio: node->ratio,
            first: node->first,
            second: Box::new(grafted(*node->second, rest, with)),
        }),
{
    assert((seq![true] + rest).skip(1) =~= rest);
}

pub(crate) proof fn lemma_step_first(node: NodeView, rest: Seq<bool>, with: NodeView)
    requires
        node is Split,
    ensures
        node_on(node, seq![false] + rest) == node_on(*node->first, rest),
        grafted(node, seq![false] + rest, with) == (NodeView::Split {
            axis: node->axis,
            ratio: node->ratio,
            first: Box::new(grafted(*node->first, rest, with)),
            second: node->second,
        }),
{
    assert((seq![false] + rest).skip(1) =~= rest);
}

/// The way to the pane that an id finds.
proof fn lemma_way_to(node: NodeView, pane: PaneId, with: NodeView) -> (way: Seq<bool>)
    requires
        find_leaf(node, pane) is Some,
    ensures
        node_on(node, way) == Some(NodeView::Pane(find_leaf(node, pane)->0)),
        (find_leaf(node, pane)->0).id == pane,
        replace_leaf(node, pane, with) == grafted(node, way, with),
    decreases node,
{
    match node {
        NodeView::Pane(_) => Seq::empty(),
        NodeView::Split { first, second, .. } => if find_leaf(*first, pane) is Some {
            let rest = lemma_way_to(*first, pane, with);
            lemma_step_first(node, rest, with);
            seq![false] + rest
        } else {
            let rest = lemma_way_to(*second, pane, with);
            lemma_step_second(node, rest, with);
            seq![true] + rest
        },
    }
}

proof fn lemma_strip_loses_one(tabs: Seq<PanelId>, panel: PanelId, i: int)
    requires
        tabs.no_duplicates(),
        0 <= i < tabs.len(),
        tabs[i] == panel,
    ensures
        without(tabs, panel) == tabs.remove(i),
    decreases tabs.len(),
{
    reveal(Seq::filter);
    let front = tabs.drop_last();
    let test = |tab: PanelId| tab != panel;
    if i == tabs.len() - 1 {
        assert forall|j: int| 0 <= j < front.len() implies front[j] != panel by {
            assert(tabs[j] != tabs[i]);
        }
        lemma_strip_keeps_all(front, panel);
        assert(without(tabs, panel) == without(front, panel));
        assert(tabs.remove(i) =~= front);
    } else {
        assert forall|a: int, b: int|
            0 <= a < front.len() && 0 <= b < front.len() && a != b implies front[a]
            != front[b] by {
            assert(tabs[a] != tabs[b]);
        }
        assert(front[i] == tabs[i]);
        lemma_strip_loses_one(front, panel, i);
        assert(tabs.last() != panel) by {
            assert(tabs[tabs.len() - 1] != tabs[i]);
        }
        assert(without(tabs, panel) == without(front, panel).push(tabs.last()));
        assert(tabs.remove(i) =~= front.remove(i).push(tabs.last()));
    }
}

proof fn lemma_strip_keeps_all(tabs: Seq<PanelId>, panel: PanelId)
    requires
        forall|j: int| 0 <= j < tabs.len() ==> tabs[j] != panel,
    ensures
        without(tabs, panel) == tabs,
    decreases tabs.len(),
{
    reveal(Seq::filter);
    if tabs.len() > 0 {
        let front = tabs.drop_last();
        assert forall|j: int| 0 <= j < front.len() implies front[j] != panel by {
            assert(tabs[j] != panel);
        }
        lemma_strip_keeps_all(front, panel);
        assert(tabs[tabs.len() - 1] != panel);
        assert(front.push(tabs.last()) =~= tabs);
    }
}

/// A pane that holds only its own tabs, each once, and one of them on top.
pub open spec fn pane_in_order(leaf: LeafView) -> bool {
    &&& leaf.tabs.no_duplicates()
    &&& leaf.active is None <==> leaf.tabs.len() == 0
    &&& leaf.active matches Some(tab) ==> leaf.tabs.contains(tab)
}

proof fn lemma_pane_in_order(tree: TreeView, pane: PaneId)
    requires
        tree.sound(),
        find_leaf(tree.root, pane) is Some,
    ensures
        pane_in_order(find_leaf(tree.root, pane)->0),
{
    let k = lemma_found(tree.root, pane, tree.root);
    lemma_strip_distinct(leaves_of(tree.root), k);
    let leaf = leaves_of(tree.root)[k];
    assert(crate::pane_laws::top_is_own(leaf));
}

/// A pane of a tree that edits alone have made: where it stands and what it
/// holds.
pub open spec fn stands_at(tree: TreeView, way: Seq<bool>, leaf: LeafView) -> bool {
    node_on(tree.root, way) == Some(NodeView::Pane(leaf))
}

/// The strip without the tab on top, and the pane that it moves to.
pub open spec fn tab_taken_along(leaf: LeafView, kept: LeafView, moved: LeafView) -> bool {
    &&& kept.id == leaf.id
    &&& match leaf.active {
        None => kept == leaf && moved.tabs.len() == 0 && moved.active is None,
        Some(tab) => {
            &&& moved.tabs == seq![tab]
            &&& moved.active == Some(tab)
            &&& exists|i: int|
                0 <= i < leaf.tabs.len() && #[trigger] leaf.tabs[i] == tab && kept.tabs
                    == leaf.tabs.remove(i)
            &&& kept.active == (if kept.tabs.len() == 0 {
                None
            } else {
                Some(kept.tabs.last())
            })
        },
    }
}

/// A split stands where its pane stood: it divides along the axis that was
/// asked for, in equal shares, with the old pane first and the new one second.
/// The new pane has the tab that was on top, and focus. Everything else stays
/// where it was.
pub proof fn a_split_divides_along_its_axis(
    tree: &mut PaneTree,
    pane: PaneId,
    axis: SplitAxis,
    new_pane: Option<PaneId>,
) -> (made: (Seq<bool>, LeafView, LeafView, LeafView))
    requires
        old(tree)@.sound(),
        call_ensures(PaneTree::split, (tree, pane, axis), new_pane),
    ensures
        new_pane is Some <==> has_pane(leaves_of(old(tree)@.root), pane),
        new_pane is None ==> final(tree)@.root == old(tree)@.root && final(tree)@.focused == old(tree)@.focused,
        new_pane matches Some(fresh) ==> {
            let (way, leaf, kept, moved) = made;
            &&& stands_at(old(tree)@, way, leaf)
            &&& leaf.id == pane
            &&& final(tree)@.root == grafted(old(tree)@.root, way, halves(axis, kept, moved))
            &&& tab_taken_along(leaf, kept, moved)
            &&& moved.id == fresh
            &&& final(tree)@.focused == fresh
            &&& !has_pane(leaves_of(old(tree)@.root), fresh)
        },
{
    let before = old(tree)@;
    lemma_not_found(before.root, pane);
    if find_leaf(before.root, pane) is Some {
        let leaf = find_leaf(before.root, pane)->0;
        lemma_pane_in_order(before, pane);
        let fresh = PaneId(before.next_pane);
        let moved = match leaf.active {
            None => LeafView { id: fresh, tabs: Seq::empty(), active: None },
            Some(tab) => LeafView { id: fresh, tabs: seq![tab], active: Some(tab) },
        };
        let kept = match leaf.active {
            None => leaf,
            Some(tab) => LeafView {
                id: leaf.id,
                tabs: without(leaf.tabs, tab),
                active: last_tab(without(leaf.tabs, tab)),
            },
        };
        let way = lemma_way_to(before.root, pane, halves(axis, kept, moved));
        if let Some(tab) = leaf.active {
            let i = choose|i: int| 0 <= i < leaf.tabs.len() && leaf.tabs[i] == tab;
            lemma_strip_loses_one(leaf.tabs, tab, i);
        }
        if has_pane(leaves_of(before.root), fresh) {
            let i = choose|i: int|
                0 <= i < leaves_of(before.root).len() && (#[trigger] leaves_of(
                    before.root,
                )[i]).id == fresh;
            assert(leaves_of(before.root)[i].id.0 < before.next_pane);
        }
        (way, leaf, kept, moved)
    } else {
        let nothing = LeafView { id: pane, tabs: Seq::empty(), active: None };
        (Seq::empty(), nothing, nothing, nothing)
    }
}

/// A tab that is dropped on a pane's edge stands in a new pane beside it: the
/// tab leaves its pane, then the target is divided along the axis that was
/// asked for, in equal shares, with the target first and the new pane second.
pub proof fn an_edge_drop_divides_along_its_axis(
    tree: &mut PaneTree,
    target: PaneId,
    axis: SplitAxis,
    panel: PanelId,
) -> (made: (Seq<bool>, LeafView))
    requires
        call_ensures(PaneTree::split_pane_with_tab, (tree, target, axis, panel), ()),
    ensures
        ({
            let rest = old(tree)@.removed(panel);
            let (way, kept) = made;
            let fills = holder_of(old(tree)@.root, panel) == Some(target) && (find_leaf(
                old(tree)@.root,
                target,
            )->0).tabs.len() == 1;
            find_leaf(old(tree)@.root, target) is Some && !fills && find_leaf(rest.root, target) is Some
                ==> {
                &&& node_on(rest.root, way) == Some(NodeView::Pane(kept))
                &&& kept.id == target
                &&& final(tree)@.root == grafted(
                    rest.root,
                    way,
                    halves(
                        axis,
                        kept,
                        LeafView {
                            id: final(tree)@.focused,
                            tabs: seq![panel],
                            active: Some(panel),
                        },
                    ),
                )
            }
        }),
{
    let before = old(tree)@;
    let rest = before.removed(panel);
    if find_leaf(rest.root, target) is Some {
        let kept = find_leaf(rest.root, target)->0;
        let fresh = LeafView {
            id: PaneId(before.next_pane),
            tabs: seq![panel],
            active: Some(panel),
        };
        let way = lemma_way_to(rest.root, target, halves(axis, kept, fresh));
        (way, kept)
    } else {
        (Seq::empty(), LeafView { id: target, tabs: Seq::empty(), active: None })
    }
}

/// Bringing a tab on top changes its pane's tab on top and where focus is, and
/// nothing else.
pub proof fn activating_moves_no_tab(tree: &mut PaneTree, panel: PanelId, found: bool) -> (at: (
    Seq<bool>,
    LeafView,
))
    requires
        old(tree)@.sound(),
        call_ensures(PaneTree::activate_tab, (tree, panel), found),
    ensures
        found <==> is_open(leaves_of(old(tree)@.root), panel),
        !found ==> final(tree)@ == old(tree)@,
        found ==> {
            let (way, leaf) = at;
            &&& stands_at(old(tree)@, way, leaf)
            &&& leaf.tabs.contains(panel)
            &&& final(tree)@ == (TreeView {
                root: grafted(
                    old(tree)@.root,
                    way,
                    NodeView::Pane(LeafView { active: Some(panel), ..leaf }),
                ),
                focused: leaf.id,
                ..old(tree)@
            })
        },
{
    let before = old(tree)@;
    lemma_open_means_held(before, panel);
    if let Some(pane) = holder_of(before.root, panel) {
        let leaf = lemma_holding_leaf(before, panel);
        let with = NodeView::Pane(LeafView { active: Some(panel), ..leaf });
        let way = lemma_way_to(before.root, pane, with);
        (way, leaf)
    } else {
        (Seq::empty(), LeafView { id: PaneId(0), tabs: Seq::empty(), active: None })
    }
}

proof fn lemma_open_means_held(tree: TreeView, panel: PanelId)
    ensures
        is_open(leaves_of(tree.root), panel) <==> holder_of(tree.root, panel) is Some,
{
    let k = lemma_holder(tree.root, panel);
    if holder_of(tree.root, panel) is Some {
        assert(leaves_of(tree.root)[k].tabs.contains(panel));
    }
}

proof fn lemma_holding_leaf(tree: TreeView, panel: PanelId) -> (leaf: LeafView)
    requires
        tree.sound(),
        holder_of(tree.root, panel) is Some,
    ensures
        find_leaf(tree.root, holder_of(tree.root, panel)->0) == Some(leaf),
        leaf.id == holder_of(tree.root, panel)->0,
        leaf.tabs.contains(panel),
        pane_in_order(leaf),
{
    let pane = holder_of(tree.root, panel)->0;
    let leaves = leaves_of(tree.root);
    let k = lemma_holder(tree.root, panel);
    assert(has_pane(leaves, pane)) by {
        assert(leaves[k].id == pane);
    }
    lemma_not_found(tree.root, pane);
    let m = lemma_found(tree.root, pane, tree.root);
    if m != k {
        assert(leaves[m].id == leaves[k].id);
    }
    lemma_pane_in_order(tree, pane);
    leaves[k]
}

/// A new tab stands behind the tabs of the focused pane, on top, and nothing
/// else changes; a tab that is open already is not opened twice.
pub proof fn a_new_tab_lands_in_the_focused_pane(tree: &mut PaneTree, panel: PanelId) -> (at: (
    Seq<bool>,
    LeafView,
))
    requires
        old(tree)@.sound(),
        call_ensures(PaneTree::insert_tab, (tree, panel), ()),
    ensures
        is_open(leaves_of(old(tree)@.root), panel) ==> final(tree)@ == old(tree)@.activated(panel),
        !is_open(leaves_of(old(tree)@.root), panel) ==> {
            let (way, leaf) = at;
            &&& stands_at(old(tree)@, way, leaf)
            &&& leaf.id == old(tree)@.focused
            &&& final(tree)@ == (TreeView {
                root: grafted(
                    old(tree)@.root,
                    way,
                    NodeView::Pane(
                        LeafView { tabs: leaf.tabs.push(panel), active: Some(panel), ..leaf },
                    ),
                ),
                ..old(tree)@
            })
        },
{
    let before = old(tree)@;
    lemma_open_means_held(before, panel);
    lemma_not_found(before.root, before.focused);
    let leaf = find_leaf(before.root, before.focused)->0;
    let way = lemma_way_to(before.root, before.focused, NodeView::Pane(with_tab(leaf, panel)));
    assert(with_tab(leaf, panel) =~= (LeafView {
        tabs: leaf.tabs.push(panel),
        active: Some(panel),
        ..leaf
    }));
    (way, leaf)
}

/// A tab that closes leaves its pane's other tabs in their order; where it was
/// on top the last of them is, and a pane that has others left stays where it
/// is.
pub proof fn a_closed_tab_leaves_the_others(tree: &mut PaneTree, panel: PanelId) -> (at: (
    Seq<bool>,
    LeafView,
    int,
))
    requires
        old(tree)@.sound(),
        call_ensures(PaneTree::remove_tab, (tree, panel), ()),
    ensures
        !is_open(leaves_of(old(tree)@.root), panel) ==> final(tree)@ == old(tree)@,
        is_open(leaves_of(old(tree)@.root), panel) ==> {
            let (way, leaf, i) = at;
            let tabs = leaf.tabs.remove(i);
            &&& stands_at(old(tree)@, way, leaf)
            &&& 0 <= i < leaf.tabs.len()
            &&& leaf.tabs[i] == panel
            &&& leaf.tabs.len() > 1 ==> final(tree)@ == (TreeView {
                root: grafted(
                    old(tree)@.root,
                    way,
                    NodeView::Pane(
                        LeafView {
                            id: leaf.id,
                            tabs,
                            active: if leaf.active == Some(panel) {
                                Some(tabs.last())
                            } else {
                                leaf.active
                            },
                        },
                    ),
                ),
                ..old(tree)@
            })
            &&& leaf.tabs.len() == 1 && old(tree)@.root is Pane ==> final(tree)@.root
                == NodeView::Pane(LeafView { id: leaf.id, tabs: Seq::empty(), active: None })
        },
{
    let before = old(tree)@;
    lemma_open_means_held(before, panel);
    if let Some(pane) = holder_of(before.root, panel) {
        let leaf = lemma_holding_leaf(before, panel);
        let i = choose|i: int| 0 <= i < leaf.tabs.len() && leaf.tabs[i] == panel;
        lemma_strip_loses_one(leaf.tabs, panel, i);
        let with = NodeView::Pane(without_tab(leaf, panel));
        let way = lemma_way_to(before.root, pane, with);
        if leaf.tabs.len() == 1 {
            assert(leaf.tabs.remove(i) =~= Seq::empty());
            assert(leaf.active == Some(panel)) by {
                let top = leaf.active->0;
                let a = choose|a: int| 0 <= a < leaf.tabs.len() && leaf.tabs[a] == top;
                assert(a == i);
            }
        }
        (way, leaf, i)
    } else {
        (Seq::empty(), LeafView { id: PaneId(0), tabs: Seq::empty(), active: None }, 0)
    }
}

/// A pane that goes gives its place, and its split's, to its sibling; the rest
/// of the tree stays as it is.
proof fn lemma_promoted(node: NodeView, pane: PaneId) -> (way: Seq<bool>)
    requires
        sibling_of(node, pane) is Some,
    ensures
        collapsed(node, pane) == grafted(node, way, sibling_of(node, pane)->0),
        node_on(node, way) matches Some(NodeView::Split { first, second, .. }) && {
            ||| is_pane(*first, pane) && sibling_of(node, pane) == Some(*second)
            ||| is_pane(*second, pane) && sibling_of(node, pane) == Some(*first)
        },
    decreases node,
{
    match node {
        NodeView::Pane(_) => Seq::empty(),
        NodeView::Split { first, second, .. } => if is_pane(*first, pane) || is_pane(*second, pane) {
            Seq::empty()
        } else if sibling_of(*first, pane) is Some {
            let rest = lemma_promoted(*first, pane);
            lemma_step_first(node, rest, sibling_of(node, pane)->0);
            seq![false] + rest
        } else {
            let rest = lemma_promoted(*second, pane);
            lemma_step_second(node, rest, sibling_of(node, pane)->0);
            seq![true] + rest
        },
    }
}

/// When a pane's last tab closes its split closes with it: what stood beside
/// the pane takes the whole of the split's place, whatever its own shape, and
/// no other divider moves.
pub proof fn an_emptied_pane_gives_its_place_to_its_sibling(
    tree: &mut PaneTree,
    panel: PanelId,
) -> (way: Seq<bool>)
    requires
        old(tree)@.sound(),
        call_ensures(PaneTree::remove_tab, (tree, panel), ()),
        holder_of(old(tree)@.root, panel) is Some,
        (find_leaf(old(tree)@.root, holder_of(old(tree)@.root, panel)->0)->0).tabs.len() == 1,
        old(tree)@.root is Split,
    ensures
        node_on(old(tree)@.root, way) matches Some(NodeView::Split { first, second, .. }) && {
            let pane = holder_of(old(tree)@.root, panel)->0;
            ||| is_pane(*first, pane) && final(tree)@.root == grafted(
                old(tree)@.root,
                way,
                *second,
            ) && final(tree)@.focused == leaves_of(*second)[0].id
            ||| is_pane(*second, pane) && final(tree)@.root == grafted(
                old(tree)@.root,
                way,
                *first,
            ) && final(tree)@.focused == leaves_of(*first)[0].id
        },
{
    let before = old(tree)@;
    let pane = holder_of(before.root, panel)->0;
    let leaf = lemma_holding_leaf(before, panel);
    let i = choose|i: int| 0 <= i < leaf.tabs.len() && leaf.tabs[i] == panel;
    lemma_strip_loses_one(leaf.tabs, panel, i);
    assert(leaf.tabs.remove(i) =~= Seq::empty());
    lemma_not_found(before.root, pane);
    lemma_sibling(before.root, pane);
    let emptied = without_tab(leaf, panel);
    lemma_emptied_collapses_alike(before.root, pane, emptied);
    lemma_promoted(before.root, pane)
}

proof fn lemma_emptied_collapses_alike(node: NodeView, pane: PaneId, leaf: LeafView)
    requires
        find_leaf(node, pane) is Some,
        leaf.id == pane,
        crate::pane_laws::ids_distinct(leaves_of(node)),
    ensures
        sibling_of(replace_leaf(node, pane, NodeView::Pane(leaf)), pane) == sibling_of(node, pane),
        collapsed(replace_leaf(node, pane, NodeView::Pane(leaf)), pane) == (if sibling_of(
            node,
            pane,
        ) is Some {
            collapsed(node, pane)
        } else {
            replace_leaf(node, pane, NodeView::Pane(leaf))
        }),
    decreases node,
{
    if let NodeView::Split { first, second, .. } = node {
        let left = leaves_of(*first);
        let right = leaves_of(*second);
        let leaves = leaves_of(node);
        assert(leaves =~= left + right);
        let with = NodeView::Pane(leaf);
        lemma_not_found(*first, pane);
        lemma_not_found(*second, pane);
        lemma_sibling(*first, pane);
        lemma_sibling(*second, pane);
        assert(crate::pane_laws::ids_distinct(left)) by {
            assert forall|i: int, j: int| 0 <= i < j < left.len() implies (
            #[trigger] left[i]).id != (#[trigger] left[j]).id by {
                assert(leaves[i].id != leaves[j].id);
            }
        }
        assert(crate::pane_laws::ids_distinct(right)) by {
            assert forall|i: int, j: int| 0 <= i < j < right.len() implies (
            #[trigger] right[i]).id != (#[trigger] right[j]).id by {
                assert(leaves[left.len() + i].id != leaves[left.len() + j].id);
            }
        }
        if find_leaf(*first, pane) is Some && find_leaf(*second, pane) is Some {
            let i = choose|i: int| 0 <= i < left.len() && (#[trigger] left[i]).id == pane;
            let j = choose|j: int| 0 <= j < right.len() && (#[trigger] right[j]).id == pane;
            assert(leaves[i].id != leaves[left.len() + j].id);
        }
        if find_leaf(*first, pane) is Some {
            lemma_emptied_collapses_alike(*first, pane, leaf);
            lemma_replaced_is_pane(*first, pane, leaf);
            if is_pane(*second, pane) {
                assert(right[0].id == pane);
                assert(has_pane(right, pane));
            }
        } else {
            lemma_emptied_collapses_alike(*second, pane, leaf);
            lemma_replaced_is_pane(*second, pane, leaf);
            if is_pane(*first, pane) {
                assert(left[0].id == pane);
                assert(has_pane(left, pane));
            }
        }
    }
}

proof fn lemma_replaced_is_pane(node: NodeView, pane: PaneId, leaf: LeafView)
    requires
        find_leaf(node, pane) is Some,
        leaf.id == pane,
    ensures
        is_pane(replace_leaf(node, pane, NodeView::Pane(leaf)), pane) == is_pane(node, pane),
        is_pane(node, pane) ==> replace_leaf(node, pane, NodeView::Pane(leaf)) == NodeView::Pane(
            leaf,
        ),
{
}

/// The place of a split in the order the view draws them: a split before what
/// it divides, the first part before the second.
pub open spec fn drawn_before(node: NodeView, way: Seq<bool>) -> int
    decreases way.len(),
{
    if way.len() == 0 {
        0
    } else {
        match node {
            NodeView::Pane(_) => 0,
            NodeView::Split { first, second, .. } => if way[0] {
                1 + split_count(*first) + drawn_before(*second, way.skip(1))
            } else {
                1 + drawn_before(*first, way.skip(1))
            },
        }
    }
}

proof fn lemma_ratio_way(node: NodeView, index: int, share: SplitRatio) -> (way: Seq<bool>)
    requires
        0 <= index < split_count(node),
    ensures
        drawn_before(node, way) == index,
        node_on(node, way) matches Some(NodeView::Split { axis, ratio, first, second })
            && with_ratio(node, index, share) == grafted(
            node,
            way,
            NodeView::Split { axis, ratio: share, first, second },
        ),
    decreases node,
{
    match node {
        NodeView::Pane(_) => Seq::empty(),
        NodeView::Split { axis, ratio, first, second } => if index == 0 {
            Seq::empty()
        } else if index <= split_count(*first) {
            let rest = lemma_ratio_way(*first, index - 1, share);
            let found = node_on(*first, rest)->0;
            let with = NodeView::Split {
                axis: found->axis,
                ratio: share,
                first: found->first,
                second: found->second,
            };
            lemma_step_first(node, rest, with);
            assert((seq![false] + rest).skip(1) =~= rest);
            seq![false] + rest
        } else {
            let rest = lemma_ratio_way(*second, index - 1 - split_count(*first), share);
            let found = node_on(*second, rest)->0;
            let with = NodeView::Split {
                axis: found->axis,
                ratio: share,
                first: found->first,
                second: found->second,
            };
            lemma_step_second(node, rest, with);
            assert((seq![true] + rest).skip(1) =~= rest);
            seq![true] + rest
        },
    }
}

/// Dragging a divider moves that divider alone, to where it is dragged: the
/// split of that number gets the share, which is kept as it is within its
/// bounds, and no other part of the tree changes.
pub proof fn a_divider_goes_where_it_is_dragged(
    tree: &mut PaneTree,
    index: usize,
    share: SplitRatio,
) -> (way: Seq<bool>)
    requires
        call_ensures(PaneTree::set_split_ratio, (tree, index, share), ()),
    ensures
        index >= split_count(old(tree)@.root) ==> final(tree)@ == old(tree)@,
        index < split_count(old(tree)@.root) ==> {
            &&& drawn_before(old(tree)@.root, way) == index
            &&& node_on(old(tree)@.root, way) matches Some(
                NodeView::Split { axis, ratio, first, second },
            ) && final(tree)@ == (TreeView {
                root: grafted(
                    old(tree)@.root,
                    way,
                    NodeView::Split { axis, ratio: share.bounded(), first, second },
                ),
                ..old(tree)@
            })
        },
        LEAST_SHARE <= share.0 <= GREATEST_SHARE ==> share.bounded() == share,
        share.0 < LEAST_SHARE ==> share.bounded() == SplitRatio(LEAST_SHARE),
        GREATEST_SHARE < share.0 <= 0x7F80_0000u32 ==> share.bounded() == SplitRatio(
            GREATEST_SHARE,
        ),
{
    let before = old(tree)@;
    if index < split_count(before.root) {
        lemma_ratio_way(before.root, index as int, share.bounded())
    } else {
        Seq::empty()
    }
}

proof fn lemma_find_elsewhere(node: NodeView, pane: PaneId, leaf: LeafView, other: PaneId)
    requires
        leaf.id == pane,
        other != pane,
    ensures
        find_leaf(replace_leaf(node, pane, NodeView::Pane(leaf)), other) == find_leaf(node, other),
    decreases node,
{
    if let NodeView::Split { first, second, .. } = node {
        lemma_find_elsewhere(*first, pane, leaf, other);
        lemma_find_elsewhere(*second, pane, leaf, other);
    }
}

proof fn lemma_find_beside(node: NodeView, pane: PaneId, other: PaneId)
    requires
        other != pane,
    ensures
        find_leaf(collapsed(node, pane), other) == find_leaf(node, other),
    decreases node,
{
    if let NodeView::Split { first, second, .. } = node {
        lemma_find_beside(*first, pane, other);
        lemma_find_beside(*second, pane, other);
    }
}

proof fn lemma_find_itself(node: NodeView, pane: PaneId, leaf: LeafView)
    requires
        leaf.id == pane,
        find_leaf(node, pane) is Some,
    ensures
        find_leaf(replace_leaf(node, pane, NodeView::Pane(leaf)), pane) == Some(leaf),
    decreases node,
{
    if let NodeView::Split { first, second, .. } = node {
        if find_leaf(*first, pane) is Some {
            lemma_find_itself(*first, pane, leaf);
        } else {
            lemma_find_itself(*second, pane, leaf);
        }
    }
}

/// A tab that moves to another pane stands behind that pane's tabs, on top;
/// the panes it neither left nor came to hold what they held.
pub proof fn a_moved_tab_stands_behind_the_others(
    tree: &mut PaneTree,
    panel: PanelId,
    target: PaneId,
    other: PaneId,
)
    requires
        old(tree)@.sound(),
        call_ensures(PaneTree::move_tab_to_pane, (tree, panel, target), ()),
        has_pane(leaves_of(old(tree)@.root), target),
    ensures
        final(tree)@.focused == target,
        holder_of(old(tree)@.root, panel) == Some(target) ==> final(tree)@.root == old(tree)@.root,
        holder_of(old(tree)@.root, panel) != Some(target) ==> {
            let leaf = find_leaf(old(tree)@.root, target)->0;
            find_leaf(final(tree)@.root, target) == Some(
                LeafView { id: target, tabs: leaf.tabs.push(panel), active: Some(panel) },
            )
        },
        other != target && holder_of(old(tree)@.root, panel) != Some(other) ==> find_leaf(
            final(tree)@.root,
            other,
        ) == find_leaf(old(tree)@.root, other),
{
    let before = old(tree)@;
    lemma_not_found(before.root, target);
    if holder_of(before.root, panel) != Some(target) {
        let leaf = find_leaf(before.root, target)->0;
        let way = lemma_way_to(before.root, target, before.root);
        let rest = before.removed(panel);
        if let Some(pane) = holder_of(before.root, panel) {
            let source = lemma_holding_leaf(before, panel);
            let stripped = replace_leaf(
                before.root,
                pane,
                NodeView::Pane(without_tab(source, panel)),
            );
            lemma_find_elsewhere(before.root, pane, without_tab(source, panel), target);
            lemma_find_beside(stripped, pane, target);
            if other != pane {
                lemma_find_elsewhere(before.root, pane, without_tab(source, panel), other);
                lemma_find_beside(stripped, pane, other);
            }
        }
        assert(find_leaf(rest.root, target) == Some(leaf));
        lemma_find_itself(rest.root, target, with_tab(leaf, panel));
        if other != target {
            lemma_find_elsewhere(rest.root, target, with_tab(leaf, panel), other);
        }
    }
}

} // verus!
