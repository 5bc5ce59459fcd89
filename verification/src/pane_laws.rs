//! What every operation on a pane tree keeps.

use crate::pane::{
    adopting, collapsed, even_split, find_leaf, holder_of, is_pane, joined, last_tab,
    leaf_position, leaves_of, neighbour_of, replace_leaf, sibling_of, split_count, with_ratio,
    with_tab, without, without_tab, LeafView, NodeView, PaneId, PanelId, SplitAxis, SplitRatio, TreeView,
};
use vstd::prelude::*;

verus! {

/// No two panes share an id.
pub open spec fn ids_distinct(leaves: Seq<LeafView>) -> bool {
    forall|i: int, j: int|
        0 <= i < j < leaves.len() ==> (#[trigger] leaves[i]).id != (#[trigger] leaves[j]).id
}

/// No panel stands in two panes or twice in one.
pub open spec fn one_document_one_pane(leaves: Seq<LeafView>) -> bool {
    forall|i: int, a: int, j: int, b: int|
        0 <= i < leaves.len() && 0 <= j < leaves.len() && 0 <= a < leaves[i].tabs.len() && 0 <= b
            < leaves[j].tabs.len() && #[trigger] leaves[i].tabs[a] == #[trigger] leaves[j].tabs[b]
            ==> i == j && a == b
}

/// A pane with tabs has one of them on top; a pane without has none.
pub open spec fn top_is_own(leaf: LeafView) -> bool {
    match leaf.active {
        None => leaf.tabs.len() == 0,
        Some(panel) => leaf.tabs.contains(panel),
    }
}

pub open spec fn tops_are_own(leaves: Seq<LeafView>) -> bool {
    forall|i: int| 0 <= i < leaves.len() ==> top_is_own(#[trigger] leaves[i])
}

/// Every pane's number is below the next one to be minted.
pub open spec fn numbers_spent(leaves: Seq<LeafView>, next_pane: u64) -> bool {
    forall|i: int| 0 <= i < leaves.len() ==> (#[trigger] leaves[i]).id.0 < next_pane
}

/// A panel is open in some pane.
pub open spec fn is_open(leaves: Seq<LeafView>, panel: PanelId) -> bool {
    exists|i: int| 0 <= i < leaves.len() && (#[trigger] leaves[i]).tabs.contains(panel)
}

/// Some pane has the id.
pub open spec fn has_pane(leaves: Seq<LeafView>, pane: PaneId) -> bool {
    exists|i: int| 0 <= i < leaves.len() && (#[trigger] leaves[i]).id == pane
}

impl TreeView {
    /// What holds of every tree that edits alone have made.
    pub open spec fn sound(self) -> bool {
        let leaves = leaves_of(self.root);
        &&& ids_distinct(leaves)
        &&& one_document_one_pane(leaves)
        &&& tops_are_own(leaves)
        &&& numbers_spent(leaves, self.next_pane)
        &&& has_pane(leaves, self.focused)
    }
}

pub(crate) proof fn lemma_leaves_nonempty(node: NodeView)
    ensures
        leaves_of(node).len() > 0,
    decreases node,
{
    match node {
        NodeView::Pane(_) => {},
        NodeView::Split { first, second, .. } => {
            lemma_leaves_nonempty(*first);
        },
    }
}

/// Where the first pane with an id stands, and what replacing it does to the
/// panes.
pub(crate) proof fn lemma_found(node: NodeView, pane: PaneId, with: NodeView) -> (k: int)
    requires
        find_leaf(node, pane) is Some,
    ensures
        0 <= k < leaves_of(node).len(),
        find_leaf(node, pane) == Some(leaves_of(node)[k]),
        leaves_of(node)[k].id == pane,
        forall|j: int| 0 <= j < k ==> (#[trigger] leaves_of(node)[j]).id != pane,
        leaves_of(replace_leaf(node, pane, with)) == leaves_of(node).take(k) + leaves_of(with)
            + leaves_of(node).skip(k + 1),
    decreases node,
{
    let leaves = leaves_of(node);
    match node {
        NodeView::Pane(leaf) => {
            assert(leaves =~= seq![leaf]);
            assert(leaves_of(with) =~= leaves.take(0) + leaves_of(with) + leaves.skip(1));
            0
        },
        NodeView::Split { first, second, .. } => {
            let left = leaves_of(*first);
            let right = leaves_of(*second);
            assert(leaves =~= left + right);
            if find_leaf(*first, pane) is Some {
                let k = lemma_found(*first, pane, with);
                assert forall|j: int| 0 <= j < k implies (#[trigger] leaves[j]).id != pane by {
                    assert(leaves[j] == left[j]);
                }
                assert(leaves_of(replace_leaf(node, pane, with)) =~= leaves.take(k) + leaves_of(
                    with,
                ) + leaves.skip(k + 1));
                k
            } else {
                lemma_not_found(*first, pane);
                let k = lemma_found(*second, pane, with);
                let at = left.len() + k;
                assert forall|j: int| 0 <= j < at implies (#[trigger] leaves[j]).id != pane by {
                    if j < left.len() {
                        assert(leaves[j] == left[j]);
                    } else {
                        assert(leaves[j] == right[j - left.len()]);
                    }
                }
                assert(leaves_of(replace_leaf(node, pane, with)) =~= leaves.take(at) + leaves_of(
                    with,
                ) + leaves.skip(at + 1));
                at
            }
        },
    }
}

pub(crate) proof fn lemma_not_found(node: NodeView, pane: PaneId)
    ensures
        find_leaf(node, pane) is None <==> !has_pane(leaves_of(node), pane),
    decreases node,
{
    let leaves = leaves_of(node);
    match node {
        NodeView::Pane(leaf) => {
            assert(leaves[0] == leaf);
        },
        NodeView::Split { first, second, .. } => {
            lemma_not_found(*first, pane);
            lemma_not_found(*second, pane);
            let left = leaves_of(*first);
            let right = leaves_of(*second);
            assert(leaves =~= left + right);
            if has_pane(left, pane) {
                let i = choose|i: int| 0 <= i < left.len() && (#[trigger] left[i]).id == pane;
                assert(leaves[i].id == pane);
            }
            if has_pane(right, pane) {
                let i = choose|i: int| 0 <= i < right.len() && (#[trigger] right[i]).id == pane;
                assert(leaves[left.len() + i].id == pane);
            }
            if has_pane(leaves, pane) {
                let i = choose|i: int| 0 <= i < leaves.len() && (#[trigger] leaves[i]).id == pane;
                if i < left.len() {
                    assert(left[i].id == pane);
                } else {
                    assert(right[i - left.len()].id == pane);
                }
            }
        },
    }
}

/// Which pane holds a panel.
pub(crate) proof fn lemma_holder(node: NodeView, panel: PanelId) -> (k: int)
    ensures
        match holder_of(node, panel) {
            None => !is_open(leaves_of(node), panel),
            Some(pane) => {
                &&& 0 <= k < leaves_of(node).len()
                &&& leaves_of(node)[k].id == pane
                &&& leaves_of(node)[k].tabs.contains(panel)
            },
        },
    decreases node,
{
    let leaves = leaves_of(node);
    match node {
        NodeView::Pane(leaf) => {
            assert(leaves =~= seq![leaf]);
            0
        },
        NodeView::Split { first, second, .. } => {
            let left = leaves_of(*first);
            let right = leaves_of(*second);
            assert(leaves =~= left + right);
            let i = lemma_holder(*first, panel);
            let j = lemma_holder(*second, panel);
            if holder_of(*first, panel) is Some {
                assert(leaves[i] == left[i]);
                i
            } else if holder_of(*second, panel) is Some {
                assert(leaves[left.len() + j] == right[j]);
                left.len() + j
            } else {
                if is_open(leaves, panel) {
                    let m = choose|m: int|
                        0 <= m < leaves.len() && (#[trigger] leaves[m]).tabs.contains(panel);
                    if m < left.len() {
                        assert(left[m].tabs.contains(panel));
                    } else {
                        assert(right[m - left.len()].tabs.contains(panel));
                    }
                }
                0
            }
        },
    }
}

/// What a collapse does to the panes: one pane of the id leaves the layout
/// order, and the promoted sibling's first pane is among those that stay.
pub(crate) proof fn lemma_collapse(node: NodeView, pane: PaneId) -> (at: (int, int))
    requires
        sibling_of(node, pane) is Some,
    ensures
        0 <= at.0 < leaves_of(node).len(),
        leaves_of(node)[at.0].id == pane,
        leaves_of(collapsed(node, pane)) == leaves_of(node).remove(at.0),
        0 <= at.1 < leaves_of(collapsed(node, pane)).len(),
        leaves_of(collapsed(node, pane))[at.1] == leaves_of(sibling_of(node, pane)->0)[0],
        leaves_of(sibling_of(node, pane)->0).len() > 0,
    decreases node,
{
    lemma_leaves_nonempty(sibling_of(node, pane)->0);
    let leaves = leaves_of(node);
    match node {
        NodeView::Pane(_) => (0, 0),
        NodeView::Split { first, second, .. } => {
            let left = leaves_of(*first);
            let right = leaves_of(*second);
            assert(leaves =~= left + right);
            lemma_leaves_nonempty(*first);
            lemma_leaves_nonempty(*second);
            if is_pane(*first, pane) {
                assert(left =~= seq![left[0]]);
                assert(leaves.remove(0) =~= right);
                (0, 0)
            } else if is_pane(*second, pane) {
                assert(right =~= seq![right[0]]);
                assert(leaves.remove(left.len() as int) =~= left);
                (left.len() as int, 0)
            } else if sibling_of(*first, pane) is Some {
                let (k, m) = lemma_collapse(*first, pane);
                assert(leaves.remove(k) =~= left.remove(k) + right);
                assert(leaves_of(collapsed(node, pane)) =~= leaves.remove(k));
                assert(leaves_of(collapsed(node, pane))[m] == left.remove(k)[m]);
                (k, m)
            } else {
                let (k, m) = lemma_collapse(*second, pane);
                let at = left.len() + k;
                assert(leaves.remove(at) =~= left + right.remove(k));
                assert(leaves_of(collapsed(node, pane)) =~= leaves.remove(at));
                assert(leaves_of(collapsed(node, pane))[left.len() + m] == right.remove(k)[m]);
                (at, left.len() + m)
            }
        },
    }
}

/// A pane with a sibling has a neighbour, which stands beside it.
pub(crate) proof fn lemma_neighbour(node: NodeView, pane: PaneId) -> (at: (int, int))
    ensures
        neighbour_of(node, pane) is Some <==> sibling_of(node, pane) is Some,
        neighbour_of(node, pane) is Some ==> beside(leaves_of(node), at.0, at.1) && leaves_of(
            node,
        )[at.0].id == pane && leaves_of(node)[at.1].id == neighbour_of(node, pane)->0,
    decreases node,
{
    match node {
        NodeView::Pane(_) => (0, 0),
        NodeView::Split { first, second, .. } => {
            let left = leaves_of(*first);
            let right = leaves_of(*second);
            lemma_leaves_nonempty(*first);
            lemma_leaves_nonempty(*second);
            assert(leaves_of(node) =~= left + right);
            let (k, n) = lemma_neighbour(*first, pane);
            let (i, j) = lemma_neighbour(*second, pane);
            if is_pane(*first, pane) {
                (0, 1)
            } else if is_pane(*second, pane) {
                (left.len() as int, left.len() - 1)
            } else if neighbour_of(*first, pane) is Some {
                (k, n)
            } else {
                (left.len() + i, left.len() + j)
            }
        },
    }
}

/// A pane of a split tree has a sibling; the only pane of a tree has none.
pub(crate) proof fn lemma_sibling(node: NodeView, pane: PaneId)
    ensures
        sibling_of(node, pane) is Some <==> node is Split && has_pane(leaves_of(node), pane),
    decreases node,
{
    lemma_not_found(node, pane);
    match node {
        NodeView::Pane(_) => {},
        NodeView::Split { first, second, .. } => {
            lemma_sibling(*first, pane);
            lemma_sibling(*second, pane);
            lemma_not_found(*first, pane);
            lemma_not_found(*second, pane);
        },
    }
}

proof fn lemma_without(tabs: Seq<PanelId>, panel: PanelId)
    ensures
        forall|other: PanelId| #[trigger]
            without(tabs, panel).contains(other) <==> tabs.contains(other) && other != panel,
        tabs.no_duplicates() ==> without(tabs, panel).no_duplicates(),
        without(tabs, panel).len() <= tabs.len(),
    decreases tabs.len(),
{
    reveal(Seq::filter);
    if tabs.len() > 0 {
        let shorter = tabs.drop_last();
        lemma_without(shorter, panel);
        let rest = without(shorter, panel);
        let all = without(tabs, panel);
        assert(tabs =~= shorter.push(tabs.last()));
        assert(all == (if tabs.last() != panel {
            rest.push(tabs.last())
        } else {
            rest
        }));
        assert forall|other: PanelId| #[trigger] all.contains(other) <==> tabs.contains(other)
            && other != panel by {
            assert(rest.contains(other) <==> shorter.contains(other) && other != panel);
            if tabs.contains(other) {
                let i = choose|i: int| 0 <= i < tabs.len() && tabs[i] == other;
                if i < shorter.len() {
                    assert(shorter[i] == other);
                    if other != panel {
                        let m = choose|m: int| 0 <= m < rest.len() && rest[m] == other;
                        assert(all[m] == other);
                    }
                } else if other != panel {
                    assert(all[rest.len() as int] == other);
                }
            }
            if all.contains(other) {
                let i = choose|i: int| 0 <= i < all.len() && all[i] == other;
                if i < rest.len() {
                    assert(rest[i] == other);
                    let m = choose|m: int| 0 <= m < shorter.len() && shorter[m] == other;
                    assert(tabs[m] == other);
                } else {
                    assert(tabs[tabs.len() - 1] == other);
                }
            }
        }
        if tabs.no_duplicates() {
            assert(shorter.no_duplicates());
            assert(!shorter.contains(tabs.last()));
            assert(!rest.contains(tabs.last()));
            assert(all.no_duplicates());
        }
    }
}

pub(crate) proof fn lemma_joined(tabs: Seq<PanelId>, more: Seq<PanelId>)
    ensures
        forall|panel: PanelId| #[trigger]
            joined(tabs, more).contains(panel) <==> tabs.contains(panel) || more.contains(panel),
        tabs.no_duplicates() ==> joined(tabs, more).no_duplicates(),
        joined(tabs, more).len() >= tabs.len(),
        more.len() > 0 ==> joined(tabs, more).len() > 0,
    decreases more.len(),
{
    if more.len() > 0 {
        let fewer = more.drop_last();
        lemma_joined(tabs, fewer);
        let earlier = joined(tabs, fewer);
        let all = joined(tabs, more);
        assert(more =~= fewer.push(more.last()));
        assert forall|panel: PanelId| #[trigger] all.contains(panel) <==> tabs.contains(panel)
            || more.contains(panel) by {
            assert(earlier.contains(panel) <==> tabs.contains(panel) || fewer.contains(panel));
            if more.contains(panel) {
                let i = choose|i: int| 0 <= i < more.len() && more[i] == panel;
                if i < fewer.len() {
                    assert(fewer[i] == panel);
                    assert(earlier.contains(panel));
                    let m = choose|m: int| 0 <= m < earlier.len() && earlier[m] == panel;
                    assert(all[m] == panel);
                } else if earlier.contains(panel) {
                    assert(all.contains(panel));
                } else {
                    assert(all[earlier.len() as int] == panel);
                }
            }
            if tabs.contains(panel) {
                let m = choose|m: int| 0 <= m < earlier.len() && earlier[m] == panel;
                assert(all[m] == panel);
            }
            if all.contains(panel) {
                let i = choose|i: int| 0 <= i < all.len() && all[i] == panel;
                if i < earlier.len() {
                    assert(earlier[i] == panel);
                    if fewer.contains(panel) {
                        let m = choose|m: int| 0 <= m < fewer.len() && fewer[m] == panel;
                        assert(more[m] == panel);
                    }
                } else {
                    assert(more[more.len() - 1] == panel);
                }
            }
        }
        if all.len() == 0 {
            assert(earlier.contains(more.last()));
        }
    }
}

/// A pane's strip changed in place.
proof fn lemma_updated(leaves: Seq<LeafView>, k: int, leaf: LeafView)
    requires
        0 <= k < leaves.len(),
        one_document_one_pane(leaves),
        leaf.tabs.no_duplicates(),
        forall|panel: PanelId| #[trigger]
            leaf.tabs.contains(panel) ==> leaves[k].tabs.contains(panel) || !is_open(leaves, panel),
    ensures
        one_document_one_pane(leaves.update(k, leaf)),
        forall|panel: PanelId| #[trigger]
            is_open(leaves.update(k, leaf), panel) <==> leaf.tabs.contains(panel) || (is_open(
                leaves,
                panel,
            ) && !leaves[k].tabs.contains(panel)),
{
    let new = leaves.update(k, leaf);
    assert forall|i: int, a: int, j: int, b: int|
        0 <= i < new.len() && 0 <= j < new.len() && 0 <= a < new[i].tabs.len() && 0 <= b
            < new[j].tabs.len() && #[trigger] new[i].tabs[a] == #[trigger] new[j].tabs[b] implies i
        == j && a == b by {
        let panel = new[i].tabs[a];
        if i == k && j == k {
            assert(a == b);
        } else if i == k {
            assert(leaf.tabs.contains(panel));
            assert(leaves[j].tabs.contains(panel));
            assert(is_open(leaves, panel));
            let c = choose|c: int| 0 <= c < leaves[k].tabs.len() && leaves[k].tabs[c] == panel;
            assert(leaves[k].tabs[c] == leaves[j].tabs[b]);
        } else if j == k {
            assert(leaf.tabs.contains(panel));
            assert(leaves[i].tabs.contains(panel));
            assert(is_open(leaves, panel));
            let c = choose|c: int| 0 <= c < leaves[k].tabs.len() && leaves[k].tabs[c] == panel;
            assert(leaves[k].tabs[c] == leaves[i].tabs[a]);
        } else {
            assert(leaves[i].tabs[a] == leaves[j].tabs[b]);
        }
    }
    assert forall|panel: PanelId| #[trigger] is_open(new, panel) <==> leaf.tabs.contains(panel) || (
    is_open(leaves, panel) && !leaves[k].tabs.contains(panel)) by {
        if leaf.tabs.contains(panel) {
            assert(new[k].tabs.contains(panel));
        }
        if is_open(leaves, panel) && !leaves[k].tabs.contains(panel) {
            let i = choose|i: int|
                0 <= i < leaves.len() && (#[trigger] leaves[i]).tabs.contains(panel);
            assert(new[i].tabs.contains(panel));
        }
        if is_open(new, panel) && !leaf.tabs.contains(panel) {
            let i = choose|i: int| 0 <= i < new.len() && (#[trigger] new[i]).tabs.contains(panel);
            assert(i != k);
            assert(leaves[i].tabs.contains(panel));
            if leaves[k].tabs.contains(panel) {
                let a = choose|a: int| 0 <= a < leaves[i].tabs.len() && leaves[i].tabs[a] == panel;
                let c = choose|c: int| 0 <= c < leaves[k].tabs.len() && leaves[k].tabs[c] == panel;
                assert(leaves[i].tabs[a] == leaves[k].tabs[c]);
            }
        }
    }
}

/// The soundness of a tree whose pane `k` got other contents under its id.
proof fn lemma_sound_update(tree: TreeView, pane: PaneId, leaf: LeafView)
    requires
        tree.sound(),
        find_leaf(tree.root, pane) is Some,
        leaf.id == pane,
        leaf.tabs.no_duplicates(),
        top_is_own(leaf),
        forall|panel: PanelId| #[trigger]
            leaf.tabs.contains(panel) ==> (find_leaf(tree.root, pane)->0).tabs.contains(panel)
                || !is_open(leaves_of(tree.root), panel),
    ensures
        tree.set_leaf(pane, leaf).sound(),
        leaves_of(tree.set_leaf(pane, leaf).root).len() == leaves_of(tree.root).len(),
        forall|panel: PanelId| #[trigger]
            is_open(leaves_of(tree.set_leaf(pane, leaf).root), panel) <==> leaf.tabs.contains(panel)
                || (is_open(leaves_of(tree.root), panel) && !(find_leaf(
                tree.root,
                pane,
            )->0).tabs.contains(panel)),
        forall|other: PaneId| #[trigger]
            has_pane(leaves_of(tree.set_leaf(pane, leaf).root), other) <==> has_pane(
                leaves_of(tree.root),
                other,
            ),
        find_leaf(tree.set_leaf(pane, leaf).root, pane) == Some(leaf),
        tree.set_leaf(pane, leaf).root is Split <==> tree.root is Split,
{
    let leaves = leaves_of(tree.root);
    let k = lemma_found(tree.root, pane, NodeView::Pane(leaf));
    let new = leaves_of(tree.set_leaf(pane, leaf).root);
    assert(new =~= leaves.update(k, leaf));
    lemma_updated(leaves, k, leaf);
    assert forall|other: PaneId| #[trigger] has_pane(new, other) <==> has_pane(leaves, other) by {
        if has_pane(new, other) {
            let i = choose|i: int| 0 <= i < new.len() && (#[trigger] new[i]).id == other;
            assert(leaves[i].id == other);
        }
        if has_pane(leaves, other) {
            let i = choose|i: int| 0 <= i < leaves.len() && (#[trigger] leaves[i]).id == other;
            assert(new[i].id == other);
        }
    }
    let root = tree.set_leaf(pane, leaf).root;
    lemma_not_found(tree.root, pane);
    lemma_not_found(root, pane);
    let m = lemma_found(root, pane, NodeView::Pane(leaf));
    assert(new[m].id == new[k].id);
    if m != k {
        assert(leaves[m].id == leaves[k].id);
    }
    assert forall|i: int| 0 <= i < new.len() implies top_is_own(#[trigger] new[i]) by {
        if i != k {
            assert(new[i] == leaves[i]);
        }
    }
    assert forall|i: int| 0 <= i < new.len() implies (#[trigger] new[i]).id.0
        < tree.next_pane by {
        assert(new[i].id == leaves[i].id);
    }
    assert forall|i: int, j: int| 0 <= i < j < new.len() implies (#[trigger] new[i]).id != (
    #[trigger] new[j]).id by {
        assert(leaves[i].id != leaves[j].id);
    }
    assert(has_pane(new, tree.focused));
}

/// The tabs of one pane of a sound tree occur once each.
pub(crate) proof fn lemma_strip_distinct(leaves: Seq<LeafView>, k: int)
    requires
        one_document_one_pane(leaves),
        0 <= k < leaves.len(),
    ensures
        leaves[k].tabs.no_duplicates(),
{
    assert forall|a: int, b: int|
        0 <= a < leaves[k].tabs.len() && 0 <= b < leaves[k].tabs.len() && a
            != b implies leaves[k].tabs[a] != leaves[k].tabs[b] by {
        if leaves[k].tabs[a] == leaves[k].tabs[b] {
            assert(leaves[k].tabs[a] == leaves[k].tabs[b]);
        }
    }
}

/// A new window is sound: one empty pane, focused.
pub proof fn a_new_window_is_sound()
    ensures
        TreeView::fresh().sound(),
        leaves_of(TreeView::fresh().root).len() == 1,
        forall|panel: PanelId| !#[trigger] is_open(leaves_of(TreeView::fresh().root), panel),
{
    let leaves = leaves_of(TreeView::fresh().root);
    assert(leaves =~= seq![leaves[0]]);
    assert(leaves[0].id == TreeView::fresh().focused);
}

/// Activating a tab keeps the tree sound and opens and closes nothing; the
/// tab is then on top of the focused pane.
pub proof fn activating_keeps_the_tree_sound(tree: TreeView, panel: PanelId)
    requires
        tree.sound(),
    ensures
        tree.activated(panel).sound(),
        forall|other: PanelId| #[trigger]
            is_open(leaves_of(tree.activated(panel).root), other) <==> is_open(
                leaves_of(tree.root),
                other,
            ),
        is_open(leaves_of(tree.root), panel) ==> {
            &&& holder_of(tree.root, panel) == Some(tree.activated(panel).focused)
            &&& find_leaf(tree.activated(panel).root, tree.activated(panel).focused) is Some
            &&& (find_leaf(tree.activated(panel).root, tree.activated(panel).focused)->0).active
                == Some(panel)
        },
{
    let leaves = leaves_of(tree.root);
    let k = lemma_holder(tree.root, panel);
    match holder_of(tree.root, panel) {
        None => {},
        Some(pane) => {
            lemma_not_found(tree.root, pane);
            let m = lemma_found(tree.root, pane, tree.root);
            if m != k {
                assert(leaves[m].id == leaves[k].id);
            }
            lemma_strip_distinct(leaves, k);
            let moved = TreeView { focused: pane, ..tree };
            assert(has_pane(leaves, pane));
            lemma_sound_update(
                moved,
                pane,
                LeafView { id: leaves[k].id, tabs: leaves[k].tabs, active: Some(panel) },
            );
        },
    }
}

proof fn lemma_tab_added(tree: TreeView, pane: PaneId, panel: PanelId)
    requires
        tree.sound(),
        find_leaf(tree.root, pane) is Some,
        !is_open(leaves_of(tree.root), panel),
    ensures
        tree.tab_added(pane, panel).sound(),
        leaves_of(tree.tab_added(pane, panel).root).len() == leaves_of(tree.root).len(),
        forall|other: PanelId| #[trigger]
            is_open(leaves_of(tree.tab_added(pane, panel).root), other) <==> is_open(
                leaves_of(tree.root),
                other,
            ) || other == panel,
        find_leaf(tree.tab_added(pane, panel).root, pane) == Some(
            with_tab(find_leaf(tree.root, pane)->0, panel),
        ),
{
    let leaves = leaves_of(tree.root);
    let k = lemma_found(tree.root, pane, tree.root);
    lemma_strip_distinct(leaves, k);
    let old_tabs = leaves[k].tabs;
    let leaf = with_tab(leaves[k], panel);
    assert(!old_tabs.contains(panel));
    assert(leaf.tabs[old_tabs.len() as int] == panel);
    assert forall|other: PanelId| #[trigger] leaf.tabs.contains(other) <==> old_tabs.contains(other)
        || other == panel by {
        if old_tabs.contains(other) {
            let i = choose|i: int| 0 <= i < old_tabs.len() && old_tabs[i] == other;
            assert(leaf.tabs[i] == other);
        }
    }
    lemma_sound_update(tree, pane, leaf);
    assert forall|other: PanelId| #[trigger]
        is_open(leaves_of(tree.tab_added(pane, panel).root), other) <==> is_open(leaves, other)
        || other == panel by {
        assert(leaf.tabs.contains(other) <==> old_tabs.contains(other) || other == panel);
        if old_tabs.contains(other) {
            assert(leaves[k].tabs.contains(other));
        }
    }
}

/// Inserting a tab keeps the tree sound; exactly that panel is open besides
/// those that were, in a pane that has focus and shows it.
pub proof fn inserting_keeps_the_tree_sound(tree: TreeView, panel: PanelId)
    requires
        tree.sound(),
    ensures
        tree.inserted(panel).sound(),
        forall|other: PanelId| #[trigger]
            is_open(leaves_of(tree.inserted(panel).root), other) <==> is_open(
                leaves_of(tree.root),
                other,
            ) || other == panel,
        find_leaf(tree.inserted(panel).root, tree.inserted(panel).focused) is Some,
        (find_leaf(tree.inserted(panel).root, tree.inserted(panel).focused)->0).active == Some(
            panel,
        ),
        !is_open(leaves_of(tree.root), panel) ==> tree.inserted(panel).focused == tree.focused,
{
    let k = lemma_holder(tree.root, panel);
    if holder_of(tree.root, panel) is Some {
        assert(leaves_of(tree.root)[k].tabs.contains(panel));
        activating_keeps_the_tree_sound(tree, panel);
    } else {
        lemma_not_found(tree.root, tree.focused);
        lemma_tab_added(tree, tree.focused, panel);
    }
}

/// A collapse of an empty pane, or of one whose tabs go elsewhere.
pub(crate) proof fn lemma_collapsed(tree: TreeView, pane: PaneId)
    requires
        ids_distinct(leaves_of(tree.root)),
        one_document_one_pane(leaves_of(tree.root)),
        tops_are_own(leaves_of(tree.root)),
        numbers_spent(leaves_of(tree.root), tree.next_pane),
        sibling_of(tree.root, pane) is Some,
    ensures
        tree.pane_collapsed(pane).sound(),
        find_leaf(tree.root, pane) is Some,
        leaves_of(tree.pane_collapsed(pane).root).len() == leaves_of(tree.root).len() - 1,
        forall|other: PanelId| #[trigger]
            is_open(leaves_of(tree.pane_collapsed(pane).root), other) <==> is_open(
                leaves_of(tree.root),
                other,
            ) && !(find_leaf(tree.root, pane)->0).tabs.contains(other),
        forall|other: PaneId| #[trigger]
            has_pane(leaves_of(tree.pane_collapsed(pane).root), other) <==> has_pane(
                leaves_of(tree.root),
                other,
            ) && other != pane,
{
    let leaves = leaves_of(tree.root);
    let (k, m) = lemma_collapse(tree.root, pane);
    let new = leaves_of(collapsed(tree.root, pane));
    lemma_not_found(tree.root, pane);
    assert(has_pane(leaves, pane));
    let f = lemma_found(tree.root, pane, tree.root);
    if f != k {
        assert(leaves[f].id == leaves[k].id);
    }
    assert(new == leaves.remove(k));
    assert(forall|i: int| 0 <= i < k ==> new[i] == leaves[i]);
    assert(forall|i: int| k <= i < new.len() ==> new[i] == leaves[i + 1]);
    assert forall|i: int, j: int| 0 <= i < j < new.len() implies (#[trigger] new[i]).id != (
    #[trigger] new[j]).id by {
        let oi = if i < k { i } else { i + 1 };
        let oj = if j < k { j } else { j + 1 };
        assert(leaves[oi].id != leaves[oj].id);
    }
    assert forall|i: int, a: int, j: int, b: int|
        0 <= i < new.len() && 0 <= j < new.len() && 0 <= a < new[i].tabs.len() && 0 <= b
            < new[j].tabs.len() && #[trigger] new[i].tabs[a] == #[trigger] new[j].tabs[b] implies i
        == j && a == b by {
        let oi = if i < k { i } else { i + 1 };
        let oj = if j < k { j } else { j + 1 };
        assert(leaves[oi].tabs[a] == leaves[oj].tabs[b]);
    }
    assert forall|i: int| 0 <= i < new.len() implies top_is_own(#[trigger] new[i]) by {
        let oi = if i < k { i } else { i + 1 };
        assert(new[i] == leaves[oi]);
    }
    assert forall|i: int| 0 <= i < new.len() implies (#[trigger] new[i]).id.0
        < tree.next_pane by {
        let oi = if i < k { i } else { i + 1 };
        assert(new[i] == leaves[oi]);
    }
    assert(new[m].id == tree.pane_collapsed(pane).focused);
    assert forall|other: PanelId| #[trigger] is_open(new, other) <==> is_open(leaves, other)
        && !leaves[k].tabs.contains(other) by {
        if is_open(new, other) {
            let i = choose|i: int| 0 <= i < new.len() && (#[trigger] new[i]).tabs.contains(other);
            let oi = if i < k { i } else { i + 1 };
            assert(leaves[oi].tabs.contains(other));
            if leaves[k].tabs.contains(other) {
                let a = choose|a: int| 0 <= a < leaves[oi].tabs.len() && leaves[oi].tabs[a] == other;
                let c = choose|c: int| 0 <= c < leaves[k].tabs.len() && leaves[k].tabs[c] == other;
                assert(leaves[oi].tabs[a] == leaves[k].tabs[c]);
            }
        }
        if is_open(leaves, other) && !leaves[k].tabs.contains(other) {
            let i = choose|i: int|
                0 <= i < leaves.len() && (#[trigger] leaves[i]).tabs.contains(other);
            let ni = if i < k { i } else { i - 1 };
            assert(new[ni].tabs.contains(other));
        }
    }
    assert forall|other: PaneId| #[trigger] has_pane(new, other) <==> has_pane(leaves, other)
        && other != pane by {
        if has_pane(new, other) {
            let i = choose|i: int| 0 <= i < new.len() && (#[trigger] new[i]).id == other;
            let oi = if i < k { i } else { i + 1 };
            assert(leaves[oi].id == other);
            if other == pane {
                assert(leaves[oi].id == leaves[k].id);
            }
        }
        if has_pane(leaves, other) && other != pane {
            let i = choose|i: int| 0 <= i < leaves.len() && (#[trigger] leaves[i]).id == other;
            let ni = if i < k { i } else { i - 1 };
            assert(new[ni].id == other);
        }
    }
}

/// Removing a tab keeps the tree sound and closes that panel alone. At least
/// one pane is left, and the one that held the tab goes only when it is
/// empty and not the last.
pub proof fn removing_keeps_the_tree_sound(tree: TreeView, panel: PanelId)
    requires
        tree.sound(),
    ensures
        tree.removed(panel).sound(),
        holder_of(tree.removed(panel).root, panel) is None,
        forall|other: PanelId| #[trigger]
            is_open(leaves_of(tree.removed(panel).root), other) <==> is_open(
                leaves_of(tree.root),
                other,
            ) && other != panel,
        leaves_of(tree.removed(panel).root).len() >= 1,
        forall|pane: PaneId| #[trigger]
            has_pane(leaves_of(tree.removed(panel).root), pane) <==> has_pane(
                leaves_of(tree.root),
                pane,
            ) && !(holder_of(tree.root, panel) == Some(pane) && leaves_of(tree.root).len() > 1
                && without((find_leaf(tree.root, pane)->0).tabs, panel).len() == 0),
{
    let leaves = leaves_of(tree.root);
    let k = lemma_holder(tree.root, panel);
    lemma_leaves_nonempty(tree.root);
    match holder_of(tree.root, panel) {
        None => {},
        Some(pane) => {
            assert(has_pane(leaves, pane));
            lemma_not_found(tree.root, pane);
            let m = lemma_found(tree.root, pane, tree.root);
            if m != k {
                assert(leaves[m].id == leaves[k].id);
            }
            lemma_strip_distinct(leaves, k);
            lemma_without(leaves[k].tabs, panel);
            let rest = without(leaves[k].tabs, panel);
            let leaf = without_tab(leaves[k], panel);
            if rest.len() > 0 {
                assert(rest.contains(rest.last()));
            } else if leaves[k].active is Some && leaves[k].active != Some(panel) {
                assert(rest.contains(leaves[k].active->0));
            }
            if leaves[k].active is Some && leaves[k].active != Some(panel) {
                assert(rest.contains(leaves[k].active->0));
            }
            assert(top_is_own(leaves[k]));
            assert(top_is_own(leaf));
            lemma_sound_update(tree, pane, leaf);
            let stripped = tree.set_leaf(pane, leaf);
            if rest.len() == 0 {
                lemma_sibling(stripped.root, pane);
                lemma_leaf_count(tree.root);
                if stripped.root is Split {
                    lemma_collapsed(stripped, pane);
                }
            }
            assert forall|other: PanelId| #[trigger]
                is_open(leaves_of(tree.removed(panel).root), other) <==> is_open(leaves, other)
                && other != panel by {
                assert(rest.contains(other) <==> leaves[k].tabs.contains(other) && other != panel);
                if leaves[k].tabs.contains(other) {
                    assert(is_open(leaves, other));
                }
                assert(is_open(leaves_of(stripped.root), other) <==> rest.contains(other) || (
                is_open(leaves, other) && !leaves[k].tabs.contains(other)));
            }
        },
    }
    lemma_leaves_nonempty(tree.removed(panel).root);
    let h = lemma_holder(tree.removed(panel).root, panel);
    if holder_of(tree.removed(panel).root, panel) is Some {
        assert(is_open(leaves_of(tree.removed(panel).root), panel));
    }
}

pub(crate) proof fn lemma_leaf_count(node: NodeView)
    ensures
        node is Split <==> leaves_of(node).len() > 1,
{
    match node {
        NodeView::Pane(leaf) => {
            assert(leaves_of(node) =~= seq![leaf]);
        },
        NodeView::Split { first, second, .. } => {
            lemma_leaves_nonempty(*first);
            lemma_leaves_nonempty(*second);
        },
    }
}

/// One pane's contents went over to two panes in its place, the second under
/// a fresh id.
proof fn lemma_two_for_one(
    tree: TreeView,
    pane: PaneId,
    axis: SplitAxis,
    kept: LeafView,
    moved: LeafView,
)
    requires
        tree.sound(),
        find_leaf(tree.root, pane) is Some,
        kept.id == pane,
        moved.id == PaneId(tree.next_pane),
        tree.next_pane < u64::MAX,
        top_is_own(kept),
        top_is_own(moved),
        kept.tabs.no_duplicates(),
        moved.tabs.no_duplicates(),
        forall|panel: PanelId|
            !(#[trigger] kept.tabs.contains(panel) && #[trigger] moved.tabs.contains(panel)),
        forall|panel: PanelId|
            #![trigger kept.tabs.contains(panel)]
            #![trigger moved.tabs.contains(panel)]
            kept.tabs.contains(panel) || moved.tabs.contains(panel) ==> (find_leaf(
                tree.root,
                pane,
            )->0).tabs.contains(panel) || !is_open(leaves_of(tree.root), panel),
    ensures
        ({
            let new = TreeView {
                root: replace_leaf(
                    tree.root,
                    pane,
                    even_split(axis, NodeView::Pane(kept), NodeView::Pane(moved)),
                ),
                focused: moved.id,
                next_pane: (tree.next_pane + 1) as u64,
            };
            &&& new.sound()
            &&& leaves_of(new.root).len() == leaves_of(tree.root).len() + 1
            &&& find_leaf(new.root, moved.id) == Some(moved)
            &&& forall|panel: PanelId| #[trigger]
                is_open(leaves_of(new.root), panel) <==> kept.tabs.contains(panel)
                    || moved.tabs.contains(panel) || (is_open(leaves_of(tree.root), panel) && !(
                find_leaf(tree.root, pane)->0).tabs.contains(panel))
        }),
{
    let leaves = leaves_of(tree.root);
    let pair = even_split(axis, NodeView::Pane(kept), NodeView::Pane(moved));
    let k = lemma_found(tree.root, pane, pair);
    let new = TreeView {
        root: replace_leaf(tree.root, pane, pair),
        focused: moved.id,
        next_pane: (tree.next_pane + 1) as u64,
    };
    let after = leaves_of(new.root);
    reveal_with_fuel(leaves_of, 2);
    assert(leaves_of(pair) =~= seq![kept, moved]);
    let origin = |i: int| if i <= k { i } else { i - 1 };
    assert(after =~= leaves.take(k) + seq![kept, moved] + leaves.skip(k + 1));
    assert(after[k] == kept);
    assert(after[k + 1] == moved);
    assert(forall|i: int| 0 <= i < k ==> after[i] == leaves[i]);
    assert(forall|i: int| k + 1 < i < after.len() ==> after[i] == leaves[i - 1]);
    assert forall|i: int, j: int| 0 <= i < j < after.len() implies (#[trigger] after[i]).id != (
    #[trigger] after[j]).id by {
        if i == k + 1 {
            assert(leaves[j - 1].id.0 < tree.next_pane);
        } else if j == k + 1 {
            assert(leaves[i].id.0 < tree.next_pane);
        } else {
            assert(leaves[origin(i)].id != leaves[origin(j)].id);
        }
    }
    assert forall|i: int| 0 <= i < after.len() implies top_is_own(#[trigger] after[i]) by {
        if i != k && i != k + 1 {
            assert(after[i] == leaves[origin(i)]);
        }
    }
    assert forall|i: int| 0 <= i < after.len() implies (#[trigger] after[i]).id.0
        < new.next_pane by {
        if i != k + 1 {
            assert(after[i].id == leaves[origin(i)].id);
        }
    }
    let gone = leaves[k].tabs;
    assert forall|i: int, panel: PanelId|
        0 <= i < after.len() && i != k && i != k + 1 && #[trigger] after[i].tabs.contains(
            panel,
        ) implies !kept.tabs.contains(panel) && !moved.tabs.contains(panel) by {
        let oi = origin(i);
        assert(leaves[oi].tabs.contains(panel));
        assert(is_open(leaves, panel));
        if gone.contains(panel) {
            let a = choose|a: int| 0 <= a < leaves[oi].tabs.len() && leaves[oi].tabs[a] == panel;
            let c = choose|c: int| 0 <= c < gone.len() && gone[c] == panel;
            assert(leaves[oi].tabs[a] == leaves[k].tabs[c]);
        }
    }
    assert forall|i: int, a: int, j: int, b: int|
        0 <= i < after.len() && 0 <= j < after.len() && 0 <= a < after[i].tabs.len() && 0 <= b
            < after[j].tabs.len() && #[trigger] after[i].tabs[a]
            == #[trigger] after[j].tabs[b] implies i == j && a == b by {
        let panel = after[i].tabs[a];
        assert(after[i].tabs.contains(panel));
        assert(after[j].tabs.contains(panel));
        let i_new = i == k || i == k + 1;
        let j_new = j == k || j == k + 1;
        if i_new && j_new {
            if i != j {
                assert(kept.tabs.contains(panel) && moved.tabs.contains(panel));
            }
        } else if !i_new && !j_new {
            assert(leaves[origin(i)].tabs[a] == leaves[origin(j)].tabs[b]);
        }
    }
    lemma_not_found(new.root, moved.id);
    assert(has_pane(after, moved.id));
    let m = lemma_found(new.root, moved.id, pair);
    if m != k + 1 {
        if m < k + 1 {
            assert(after[m].id != after[k + 1].id);
        } else {
            assert(after[k + 1].id != after[m].id);
        }
    }
    assert forall|panel: PanelId| #[trigger] is_open(after, panel) <==> kept.tabs.contains(panel)
        || moved.tabs.contains(panel) || (is_open(leaves, panel) && !gone.contains(panel)) by {
        if kept.tabs.contains(panel) {
            assert(after[k].tabs.contains(panel));
        }
        if moved.tabs.contains(panel) {
            assert(after[k + 1].tabs.contains(panel));
        }
        if is_open(leaves, panel) && !gone.contains(panel) {
            let i = choose|i: int|
                0 <= i < leaves.len() && (#[trigger] leaves[i]).tabs.contains(panel);
            let ni = if i < k { i } else { i + 1 };
            assert(after[ni].tabs.contains(panel));
        }
        if is_open(after, panel) && !kept.tabs.contains(panel) && !moved.tabs.contains(panel) {
            let i = choose|i: int| 0 <= i < after.len() && (#[trigger] after[i]).tabs.contains(panel);
            let oi = origin(i);
            assert(leaves[oi].tabs.contains(panel));
            if gone.contains(panel) {
                let a = choose|a: int| 0 <= a < leaves[oi].tabs.len() && leaves[oi].tabs[a] == panel;
                let c = choose|c: int| 0 <= c < gone.len() && gone[c] == panel;
                assert(leaves[oi].tabs[a] == leaves[k].tabs[c]);
            }
        }
    }
}

/// Splitting a pane keeps the tree sound, adds one pane, focuses it with the
/// tab that was on top, and opens and closes nothing.
pub proof fn splitting_keeps_the_tree_sound(tree: TreeView, pane: PaneId, axis: SplitAxis)
    requires
        tree.sound(),
        tree.next_pane < u64::MAX,
    ensures
        tree.divided(pane, axis).sound(),
        forall|panel: PanelId| #[trigger]
            is_open(leaves_of(tree.divided(pane, axis).root), panel) <==> is_open(
                leaves_of(tree.root),
                panel,
            ),
        has_pane(leaves_of(tree.root), pane) ==> {
            &&& leaves_of(tree.divided(pane, axis).root).len() == leaves_of(tree.root).len() + 1
            &&& tree.divided(pane, axis).focused == PaneId(tree.next_pane)
            &&& find_leaf(tree.root, pane) is Some
            &&& find_leaf(tree.divided(pane, axis).root, PaneId(tree.next_pane)) is Some
            &&& (find_leaf(tree.divided(pane, axis).root, PaneId(tree.next_pane))->0).active == (
            find_leaf(tree.root, pane)->0).active
        },
        !has_pane(leaves_of(tree.root), pane) ==> tree.divided(pane, axis).root == tree.root,
{
    let leaves = leaves_of(tree.root);
    lemma_not_found(tree.root, pane);
    if has_pane(leaves, pane) {
        let k = lemma_found(tree.root, pane, tree.root);
        lemma_strip_distinct(leaves, k);
        let leaf = leaves[k];
        assert(top_is_own(leaf));
        let fresh = PaneId(tree.next_pane);
        match leaf.active {
            None => {
                lemma_two_for_one(
                    tree,
                    pane,
                    axis,
                    leaf,
                    LeafView { id: fresh, tabs: Seq::empty(), active: None },
                );
            },
            Some(tab) => {
                lemma_without(leaf.tabs, tab);
                let rest = without(leaf.tabs, tab);
                if rest.len() > 0 {
                    assert(rest.contains(rest.last()));
                }
                let kept = LeafView { id: leaf.id, tabs: rest, active: last_tab(rest) };
                let moved = LeafView { id: fresh, tabs: seq![tab], active: Some(tab) };
                assert(moved.tabs[0] == tab);
                lemma_two_for_one(tree, pane, axis, kept, moved);
            },
        }
        assert forall|panel: PanelId| #[trigger]
            is_open(leaves_of(tree.divided(pane, axis).root), panel) <==> is_open(
            leaves,
            panel,
        ) by {
            if leaf.tabs.contains(panel) {
                assert(leaves[k].tabs.contains(panel));
                if leaf.active is Some {
                    let rest = without(leaf.tabs, leaf.active->0);
                    assert(rest.contains(panel) <==> leaf.tabs.contains(panel) && panel
                        != leaf.active->0);
                    assert(seq![leaf.active->0][0] == leaf.active->0);
                    if panel == leaf.active->0 {
                        assert(seq![leaf.active->0].contains(panel));
                    }
                }
            }
        }
    } else {
        assert(tree.divided(pane, axis).root == tree.root);
        assert forall|i: int| 0 <= i < leaves.len() implies (#[trigger] leaves[i]).id.0
            < tree.next_pane + 1 by {
            assert(leaves[i].id.0 < tree.next_pane);
        }
    }
}

/// Two places in layout order are beside each other.
pub open spec fn beside(leaves: Seq<LeafView>, i: int, j: int) -> bool {
    0 <= i < leaves.len() && 0 <= j < leaves.len() && (j == i + 1 || j == i - 1)
}

/// Closing a pane keeps the tree sound and loses no document: the last pane
/// refuses, and any other gives its tabs to a pane beside it in layout order.
/// The first pane of the sibling that stands in its place takes focus.
pub proof fn closing_a_pane_loses_no_document(tree: TreeView, pane: PaneId)
    requires
        tree.sound(),
    ensures
        tree.closed_pane(pane).sound(),
        forall|panel: PanelId| #[trigger]
            is_open(leaves_of(tree.closed_pane(pane).root), panel) <==> is_open(
                leaves_of(tree.root),
                panel,
            ),
        leaves_of(tree.root).len() == 1 ==> tree.closed_pane(pane) == tree,
        leaves_of(tree.root).len() > 1 && has_pane(leaves_of(tree.root), pane) ==> {
            &&& leaves_of(tree.closed_pane(pane).root).len() == leaves_of(tree.root).len() - 1
            &&& !has_pane(leaves_of(tree.closed_pane(pane).root), pane)
            &&& neighbour_of(tree.root, pane) is Some
            &&& exists|i: int, j: int| #[trigger]
                beside(leaves_of(tree.root), i, j) && leaves_of(tree.root)[i].id == pane
                    && Some(leaves_of(tree.root)[j].id) == neighbour_of(tree.root, pane)
            &&& forall|panel: PanelId|
                (find_leaf(tree.root, pane)->0).tabs.contains(panel) ==> #[trigger] holder_of(
                    tree.closed_pane(pane).root,
                    panel,
                ) == neighbour_of(tree.root, pane)
            &&& sibling_of(tree.root, pane) is Some
            &&& tree.closed_pane(pane).focused == leaves_of(sibling_of(tree.root, pane)->0)[0].id
        },
        !has_pane(leaves_of(tree.root), pane) ==> tree.closed_pane(pane) == tree,
{
    let leaves = leaves_of(tree.root);
    lemma_not_found(tree.root, pane);
    lemma_sibling(tree.root, pane);
    lemma_leaf_count(tree.root);
    if sibling_of(tree.root, pane) is Some {
        let k = lemma_found(tree.root, pane, tree.root);
        lemma_collapsed(tree, pane);
        let gone = leaves[k];
        let (i, j) = lemma_neighbour(tree.root, pane);
        assert(beside(leaves, i, j));
        let target = neighbour_of(tree.root, pane)->0;
        assert(leaves[i].id != leaves[j].id);
        assert(has_pane(leaves, target));
        let left = tree.pane_collapsed(pane);
        lemma_not_found(left.root, target);
        let after = leaves_of(left.root);
        assert(has_pane(after, target));
        let t = lemma_found(left.root, target, left.root);
        lemma_strip_distinct(after, t);
        let host = after[t];
        assert(top_is_own(host));
        lemma_joined(host.tabs, gone.tabs);
        let leaf = adopting(host, gone.tabs);
        if leaf.tabs.len() > 0 {
            assert(leaf.tabs.contains(leaf.tabs.last()));
        }
        if host.active is Some {
            assert(leaf.tabs.contains(host.active->0));
        }
        assert forall|panel: PanelId| #[trigger] leaf.tabs.contains(panel) implies host.tabs.contains(
            panel,
        ) || !is_open(after, panel) by {
            if gone.tabs.contains(panel) {
                assert(!is_open(after, panel));
            }
        }
        lemma_sound_update(left, target, leaf);
        assert forall|panel: PanelId| #[trigger]
            is_open(leaves_of(tree.closed_pane(pane).root), panel) <==> is_open(leaves, panel) by {
            assert(leaf.tabs.contains(panel) <==> host.tabs.contains(panel) || gone.tabs.contains(
                panel,
            ));
            if host.tabs.contains(panel) {
                assert(after[t].tabs.contains(panel));
                assert(is_open(after, panel));
            }
            if gone.tabs.contains(panel) {
                assert(leaves[k].tabs.contains(panel));
            }
        }
        assert(has_pane(leaves_of(tree.closed_pane(pane).root), pane) <==> has_pane(after, pane));
        let closed = tree.closed_pane(pane);
        let all = leaves_of(closed.root);
        assert forall|panel: PanelId| gone.tabs.contains(panel) implies #[trigger] holder_of(
            closed.root,
            panel,
        ) == Some(target) by {
            assert(leaf.tabs.contains(panel));
            let h = lemma_holder(closed.root, panel);
            let f = lemma_found(closed.root, target, closed.root);
            assert(all[f].tabs.contains(panel));
            let a = choose|a: int| 0 <= a < all[h].tabs.len() && all[h].tabs[a] == panel;
            let b = choose|b: int| 0 <= b < all[f].tabs.len() && all[f].tabs[b] == panel;
            assert(all[h].tabs[a] == all[f].tabs[b]);
        }
    }
}

/// Moving a tab to another pane keeps the tree sound and closes nothing; the
/// tab ends in that pane, which has focus.
pub proof fn moving_a_tab_keeps_the_tree_sound(tree: TreeView, panel: PanelId, target: PaneId)
    requires
        tree.sound(),
        has_pane(leaves_of(tree.root), target),
    ensures
        tree.tab_moved(panel, target).sound(),
        tree.tab_moved(panel, target).focused == target,
        forall|other: PanelId| #[trigger]
            is_open(leaves_of(tree.tab_moved(panel, target).root), other) <==> is_open(
                leaves_of(tree.root),
                other,
            ) || other == panel,
        find_leaf(tree.tab_moved(panel, target).root, target) is Some,
        (find_leaf(tree.tab_moved(panel, target).root, target)->0).tabs.contains(panel),
{
    let leaves = leaves_of(tree.root);
    lemma_not_found(tree.root, target);
    let h = lemma_holder(tree.root, panel);
    let t = lemma_found(tree.root, target, tree.root);
    if holder_of(tree.root, panel) == Some(target) {
        if t != h {
            assert(leaves[t].id == leaves[h].id);
        }
        assert(is_open(leaves, panel));
    } else {
        removing_keeps_the_tree_sound(tree, panel);
        let left = TreeView { focused: target, ..tree.removed(panel) };
        assert(has_pane(leaves_of(left.root), target));
        lemma_not_found(left.root, target);
        assert(!is_open(leaves_of(left.root), panel));
        lemma_tab_added(left, target, panel);
        let end = with_tab(find_leaf(left.root, target)->0, panel);
        assert(end.tabs[end.tabs.len() - 1] == panel);
    }
}

/// Dropping a tab on a pane's edge keeps the tree sound and closes nothing;
/// the tab ends on top of the focused pane, which holds it alone or is the
/// pane that held only this tab before.
pub proof fn an_edge_drop_keeps_the_tree_sound(
    tree: TreeView,
    target: PaneId,
    axis: SplitAxis,
    panel: PanelId,
)
    requires
        tree.sound(),
        tree.next_pane < u64::MAX,
        has_pane(leaves_of(tree.root), target),
    ensures
        tree.split_around(target, axis, panel).sound(),
        forall|other: PanelId| #[trigger]
            is_open(leaves_of(tree.split_around(target, axis, panel).root), other) <==> is_open(
                leaves_of(tree.root),
                other,
            ) || other == panel,
        find_leaf(
            tree.split_around(target, axis, panel).root,
            tree.split_around(target, axis, panel).focused,
        ) is Some,
        (find_leaf(
            tree.split_around(target, axis, panel).root,
            tree.split_around(target, axis, panel).focused,
        )->0).tabs == seq![panel],
{
    let leaves = leaves_of(tree.root);
    lemma_not_found(tree.root, target);
    let h = lemma_holder(tree.root, panel);
    let t = lemma_found(tree.root, target, tree.root);
    if holder_of(tree.root, panel) == Some(target) {
        if t != h {
            assert(leaves[t].id == leaves[h].id);
        }
        assert(is_open(leaves, panel));
    }
    if holder_of(tree.root, panel) == Some(target) && leaves[t].tabs.len() == 1 {
        assert(leaves[t].tabs =~= seq![panel]);
    } else {
        removing_keeps_the_tree_sound(tree, panel);
        let left = tree.removed(panel);
        if holder_of(tree.root, panel) == Some(target) {
            let tabs = leaves[t].tabs;
            lemma_strip_distinct(leaves, t);
            lemma_without(tabs, panel);
            let a = choose|a: int| 0 <= a < tabs.len() && tabs[a] == panel;
            let b = if a == 0 { 1int } else { 0int };
            assert(tabs[b] != tabs[a]);
            assert(tabs.contains(tabs[b]));
            assert(without(tabs, panel).contains(tabs[b]));
        }
        assert(has_pane(leaves_of(left.root), target));
        lemma_not_found(left.root, target);
        let m = lemma_found(left.root, target, left.root);
        lemma_strip_distinct(leaves_of(left.root), m);
        let kept = leaves_of(left.root)[m];
        assert(top_is_own(kept));
        let moved = LeafView { id: PaneId(tree.next_pane), tabs: seq![panel], active: Some(panel) };
        assert(moved.tabs[0] == panel);
        if kept.tabs.contains(panel) {
            assert(is_open(leaves_of(left.root), panel));
        }
        lemma_two_for_one(left, target, axis, kept, moved);
        assert forall|other: PanelId| #[trigger]
            is_open(leaves_of(tree.split_around(target, axis, panel).root), other) <==> is_open(
            leaves,
            other,
        ) || other == panel by {
            if kept.tabs.contains(other) {
                assert(leaves_of(left.root)[m].tabs.contains(other));
                assert(is_open(leaves_of(left.root), other));
            }
        }
    }
}

proof fn lemma_ratio_keeps_leaves(node: NodeView, index: int, share: SplitRatio)
    ensures
        leaves_of(with_ratio(node, index, share)) == leaves_of(node),
        split_count(with_ratio(node, index, share)) == split_count(node),
    decreases node,
{
    match node {
        NodeView::Pane(_) => {},
        NodeView::Split { first, second, .. } => {
            if index == 0 {
            } else if index <= split_count(*first) {
                lemma_ratio_keeps_leaves(*first, index - 1, share);
            } else {
                lemma_ratio_keeps_leaves(*second, index - 1 - split_count(*first), share);
            }
        },
    }
}

/// Dragging a divider moves no tab and no pane, and keeps the tree sound.
pub proof fn dragging_a_divider_moves_no_tab(tree: TreeView, index: int, share: SplitRatio)
    ensures
        leaves_of(with_ratio(tree.root, index, share)) == leaves_of(tree.root),
        tree.sound() ==> (TreeView { root: with_ratio(tree.root, index, share), ..tree }).sound(),
{
    lemma_ratio_keeps_leaves(tree.root, index, share);
}

/// The shares of all splits of the node are within bounds or not numbers.
pub open spec fn shares_bounded(node: NodeView) -> bool
    decreases node,
{
    match node {
        NodeView::Pane(_) => true,
        NodeView::Split { ratio, first, second, .. } => {
            &&& ratio.bounded() == ratio
            &&& shares_bounded(*first)
            &&& shares_bounded(*second)
        },
    }
}

/// A divider never leaves its bounds: setting any share keeps every share of
/// the tree bounded.
pub proof fn shares_stay_bounded(node: NodeView, index: int, share: SplitRatio)
    requires
        shares_bounded(node),
    ensures
        shares_bounded(with_ratio(node, index, share.bounded())),
    decreases node,
{
    match node {
        NodeView::Pane(_) => {},
        NodeView::Split { first, second, .. } => {
            assert(share.bounded().bounded() == share.bounded());
            if index == 0 {
            } else if index <= split_count(*first) {
                shares_stay_bounded(*first, index - 1, share);
            } else {
                shares_stay_bounded(*second, index - 1 - split_count(*first), share);
            }
        },
    }
}

pub(crate) proof fn lemma_position(leaves: Seq<LeafView>, k: int)
    requires
        ids_distinct(leaves),
        0 <= k < leaves.len(),
    ensures
        leaf_position(leaves, leaves[k].id) == k,
{
    let pane = leaves[k].id;
    assert(forall|j: int| 0 <= j < k ==> (#[trigger] leaves[j]).id != pane);
    assert(leaves[k].id == pane);
    let at = leaf_position(leaves, pane);
    assert(0 <= at < leaves.len() && leaves[at].id == pane);
    if at != k {
        if at < k {
            assert(leaves[at].id != leaves[k].id);
        } else {
            assert(leaves[k].id != leaves[at].id);
        }
    }
}

/// Focus after it advanced `steps` times.
pub open spec fn advanced(tree: TreeView, steps: nat) -> TreeView
    decreases steps,
{
    if steps == 0 {
        tree
    } else {
        advanced(tree, (steps - 1) as nat).focus_advanced()
    }
}

/// Advancing focus walks the panes in layout order and wraps: from pane `k`,
/// after any number of steps focus is on the pane that many places on.
pub proof fn focus_walks_the_layout_order(tree: TreeView, k: int, steps: nat)
    requires
        tree.sound(),
        0 <= k < leaves_of(tree.root).len(),
        tree.focused == leaves_of(tree.root)[k].id,
    ensures
        advanced(tree, steps).sound(),
        advanced(tree, steps).root == tree.root,
        advanced(tree, steps).focused == leaves_of(tree.root)[(k + steps) % (leaves_of(
            tree.root,
        ).len() as int)].id,
    decreases steps,
{
    let leaves = leaves_of(tree.root);
    let n = leaves.len() as int;
    if steps == 0 {
        assert(k % n == k) by (nonlinear_arith)
            requires
                0 <= k < n,
        ;
    } else {
        focus_walks_the_layout_order(tree, k, (steps - 1) as nat);
        let at = (k + steps - 1) % n;
        assert(0 <= at < n) by (nonlinear_arith)
            requires
                n > 0,
                at == (k + steps - 1) % n,
        ;
        lemma_position(leaves, at);
        vstd::arithmetic::div_mod::lemma_add_mod_noop(k + steps - 1, 1, n);
        if n > 1 {
            vstd::arithmetic::div_mod::lemma_small_mod(1, n as nat);
        }
        assert((at + 1) % n == (k + steps) % n) by {
            vstd::arithmetic::div_mod::lemma_add_mod_noop(at, 1, n);
            vstd::arithmetic::div_mod::lemma_mod_twice(k + steps - 1, n);
        }
        let next = (at + 1) % n;
        assert(0 <= next < n) by (nonlinear_arith)
            requires
                n > 0,
                next == (at + 1) % n,
        ;
        assert(leaves[next].id == advanced(tree, steps).focused);
    }
}

/// Advancing focus once per pane comes back to where it was.
pub proof fn focus_comes_round(tree: TreeView)
    requires
        tree.sound(),
    ensures
        advanced(tree, leaves_of(tree.root).len()).focused == tree.focused,
{
    let leaves = leaves_of(tree.root);
    let k = choose|k: int| 0 <= k < leaves.len() && (#[trigger] leaves[k]).id == tree.focused;
    focus_walks_the_layout_order(tree, k, leaves.len());
    let n = leaves.len() as int;
    assert((k + n) % n == k) by (nonlinear_arith)
        requires
            0 <= k < n,
    ;
}

} // verus!
