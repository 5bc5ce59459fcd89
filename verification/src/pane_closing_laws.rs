//! Closing a pane, walking the focus, and finding what is where.

use crate::pane::{
    adopting, find_leaf, is_pane, joined, leaf_views, leaves_of,
    neighbour_of, sibling_of, LeafView, NodeView, PaneId, PaneLeaf, PaneTree, PanelId, SplitRatio,
    TreeView, GREATEST_SHARE, INFINITE_SHARE, LEAST_SHARE, SHARE_SIGN,
};
use crate::pane_laws::{
    has_pane, is_open, lemma_collapse, lemma_collapsed, lemma_found, lemma_holder,
    lemma_leaf_count, lemma_leaves_nonempty, lemma_neighbour, lemma_not_found, lemma_position,
    lemma_sibling, lemma_strip_distinct, top_is_own,
};
use crate::pane_ways::{lemma_step_first, lemma_step_second, node_on};
use vstd::prelude::*;

verus! {

/// A split with the pane in it, the pane's place in layout order, and the
/// place of the pane beside it: the one after where the pane stands first, and
/// the one before where it stands second.
proof fn lemma_beside(node: NodeView, pane: PaneId) -> (at: (Seq<bool>, int, int))
    requires
        sibling_of(node, pane) is Some,
    ensures
        node_on(node, at.0) matches Some(NodeView::Split { first, second, .. }) && {
            ||| is_pane(*first, pane) && at.2 == at.1 + 1 && sibling_of(node, pane) == Some(*second)
            ||| is_pane(*second, pane) && at.2 == at.1 - 1 && sibling_of(node, pane) == Some(*first)
        },
        0 <= at.1 < leaves_of(node).len(),
        0 <= at.2 < leaves_of(node).len(),
        leaves_of(node)[at.1].id == pane,
        neighbour_of(node, pane) == Some(leaves_of(node)[at.2].id),
    decreases node,
{
    match node {
        NodeView::Pane(_) => (Seq::empty(), 0, 0),
        NodeView::Split { first, second, .. } => {
            let left = leaves_of(*first);
            let right = leaves_of(*second);
            lemma_leaves_nonempty(*first);
            lemma_leaves_nonempty(*second);
            assert(leaves_of(node) =~= left + right);
            lemma_neighbour(*first, pane);
            lemma_neighbour(*second, pane);
            if is_pane(*first, pane) {
                (Seq::empty(), 0, 1)
            } else if is_pane(*second, pane) {
                (Seq::empty(), left.len() as int, left.len() - 1)
            } else if sibling_of(*first, pane) is Some {
                let at = lemma_beside(*first, pane);
                lemma_step_first(node, at.0, node);
                assert(leaves_of(node)[at.1] == left[at.1]);
                assert(leaves_of(node)[at.2] == left[at.2]);
                (seq![false] + at.0, at.1, at.2)
            } else {
                let at = lemma_beside(*second, pane);
                lemma_step_second(node, at.0, node);
                assert(leaves_of(node)[left.len() + at.1] == right[at.1]);
                assert(leaves_of(node)[left.len() + at.2] == right[at.2]);
                (seq![true] + at.0, left.len() + at.1, left.len() + at.2)
            }
        },
    }
}

proof fn lemma_joined_apart(tabs: Seq<PanelId>, more: Seq<PanelId>)
    requires
        forall|a: int, b: int|
            0 <= a < tabs.len() && 0 <= b < more.len() ==> #[trigger] tabs[a] != #[trigger] more[b],
        forall|a: int, b: int|
            0 <= a < b < more.len() ==> #[trigger] more[a] != #[trigger] more[b],
    ensures
        joined(tabs, more) == tabs + more,
    decreases more.len(),
{
    if more.len() == 0 {
        assert(tabs + more =~= tabs);
    } else {
        let fewer = more.drop_last();
        lemma_joined_apart(tabs, fewer);
        let earlier = tabs + fewer;
        if earlier.contains(more.last()) {
            let i = choose|i: int| 0 <= i < earlier.len() && earlier[i] == more.last();
            if i < tabs.len() {
                assert(tabs[i] != more[more.len() - 1]);
            } else {
                assert(fewer[i - tabs.len()] == more[i - tabs.len()]);
                assert(more[i - tabs.len()] != more[more.len() - 1]);
            }
        }
        assert(earlier.push(more.last()) =~= tabs + more);
    }
}

/// A closed pane gives its tabs to the pane beside it, behind the tabs that
/// stand there and in their order: to the pane after it where it stood first
/// in its split, and to the one before where it stood second. That pane keeps
/// what it has on top, and every other pane stays as it is. The last pane
/// stays. Its split, its place and that of the pane beside it are handed back.
pub proof fn a_closed_pane_gives_its_tabs_to_the_pane_beside_it(
    tree: &mut PaneTree,
    pane: PaneId,
    closed: bool,
    before: TreeView,
) -> (at: (Seq<bool>, int, int))
    requires
        old(tree)@ == before,
        before.sound(),
        call_ensures(PaneTree::close_pane, (tree, pane), closed),
    ensures
        closed <==> leaves_of(before.root).len() > 1 && has_pane(leaves_of(before.root), pane),
        !closed ==> final(tree)@ == before,
        closed ==> {
            let leaves = leaves_of(before.root);
            &&& node_on(before.root, at.0) matches Some(NodeView::Split { first, second, .. }) && {
                ||| is_pane(*first, pane) && at.2 == at.1 + 1 && final(tree)@.focused == leaves_of(*second)[0].id
                ||| is_pane(*second, pane) && at.2 == at.1 - 1 && final(tree)@.focused == leaves_of(*first)[0].id
            }
            &&& 0 <= at.1 < leaves.len() && leaves[at.1].id == pane
            &&& 0 <= at.2 < leaves.len()
            &&& leaves_of(final(tree)@.root) == leaves.update(
                at.2,
                LeafView {
                    id: leaves[at.2].id,
                    tabs: leaves[at.2].tabs + leaves[at.1].tabs,
                    active: if leaves[at.2].active is Some {
                        leaves[at.2].active
                    } else if leaves[at.1].tabs.len() > 0 {
                        Some(leaves[at.1].tabs.last())
                    } else {
                        None
                    },
                },
            ).remove(at.1)
        },
{
    let leaves = leaves_of(before.root);
    lemma_not_found(before.root, pane);
    lemma_sibling(before.root, pane);
    lemma_leaf_count(before.root);
    if sibling_of(before.root, pane) is Some {
        let at = lemma_beside(before.root, pane);
        let i = at.1;
        let j = at.2;
        let k = lemma_found(before.root, pane, before.root);
        if k != i {
            assert(leaves[k].id != leaves[i].id || k >= i);
            assert(leaves[i].id != leaves[k].id || i >= k);
        }
        let (c, m) = lemma_collapse(before.root, pane);
        if c != i {
            assert(leaves[c].id != leaves[i].id || c >= i);
            assert(leaves[i].id != leaves[c].id || i >= c);
        }
        let left = before.pane_collapsed(pane);
        lemma_collapsed(before, pane);
        let after = leaves_of(left.root);
        assert(after == leaves.remove(i));
        let target = leaves[j].id;
        let t0: int = if j > i {
            j - 1
        } else {
            j
        };
        assert(after[t0] == leaves[j]);
        assert(has_pane(after, target));
        lemma_not_found(left.root, target);
        lemma_strip_distinct(leaves, i);
        lemma_strip_distinct(leaves, j);
        assert(top_is_own(leaves[j]));
        let leaf = adopting(leaves[j], leaves[i].tabs);
        assert forall|a: int, b: int|
            0 <= a < leaves[j].tabs.len() && 0 <= b
                < leaves[i].tabs.len() implies #[trigger] leaves[j].tabs[a]
            != #[trigger] leaves[i].tabs[b] by {}
        lemma_joined_apart(leaves[j].tabs, leaves[i].tabs);
        let t = lemma_found(left.root, target, NodeView::Pane(leaf));
        if t != t0 {
            assert(after[t].id != after[t0].id || t >= t0);
            assert(after[t0].id != after[t].id || t0 >= t);
        }
        assert(leaves_of(NodeView::Pane(leaf)) =~= seq![leaf]);
        if leaves[j].active is None {
            assert(leaves[j].tabs + leaves[i].tabs =~= leaves[i].tabs);
        }
        assert(leaves_of(final(tree)@.root) =~= leaves.update(j, leaf).remove(i));
        at
    } else {
        (Seq::empty(), 0, 0)
    }
}

/// The focus goes to the next pane in layout order, from the last to the
/// first, and nothing else moves.
pub proof fn the_focus_goes_to_the_next_pane(tree: &mut PaneTree, pane: PaneId, k: int)
    requires
        old(tree)@.sound(),
        0 <= k < leaves_of(old(tree)@.root).len(),
        old(tree)@.focused == leaves_of(old(tree)@.root)[k].id,
        call_ensures(PaneTree::focus_next, (tree,), pane),
    ensures
        final(tree)@.root == old(tree)@.root,
        final(tree)@.next_pane == old(tree)@.next_pane,
        final(tree)@.focused == pane,
        k + 1 < leaves_of(old(tree)@.root).len() ==> pane == leaves_of(old(tree)@.root)[k + 1].id,
        k + 1 == leaves_of(old(tree)@.root).len() ==> pane == leaves_of(old(tree)@.root)[0].id,
{
    let leaves = leaves_of(old(tree)@.root);
    lemma_position(leaves, k);
    let n = leaves.len() as int;
    if k + 1 < n {
        assert((k + 1) % n == k + 1) by (nonlinear_arith)
            requires
                0 <= k + 1 < n,
        ;
    } else {
        assert((k + 1) % n == 0) by (nonlinear_arith)
            requires
                k + 1 == n,
                n > 0,
        ;
    }
}

/// The tree finds what is in it: a pane by its id, the pane that holds a
/// panel, and the tab on top of the pane that has the focus.
pub proof fn the_tree_finds_what_is_in_it(
    tree: PaneTree,
    pane: PaneId,
    panel: PanelId,
    leaf: Option<&PaneLeaf>,
    holder: Option<PaneId>,
    active: Option<PanelId>,
    count: usize,
    all: Vec<&PaneLeaf>,
)
    requires
        tree@.sound(),
        call_ensures(PaneTree::leaf, (&tree, pane), leaf),
        call_ensures(PaneTree::pane_of, (&tree, panel), holder),
        call_ensures(PaneTree::focused_active, (&tree,), active),
        call_ensures(PaneTree::pane_count, (&tree,), count),
        call_ensures(PaneTree::leaves, (&tree,), all),
    ensures
        leaf is Some <==> has_pane(leaves_of(tree@.root), pane),
        leaf matches Some(leaf) ==> leaf@.id == pane && leaves_of(tree@.root).contains(leaf@),
        holder is Some <==> is_open(leaves_of(tree@.root), panel),
        holder matches Some(id) ==> exists|i: int|
            0 <= i < leaves_of(tree@.root).len() && (#[trigger] leaves_of(tree@.root)[i]).id == id
                && leaves_of(tree@.root)[i].tabs.contains(panel),
        forall|i: int|
            0 <= i < leaves_of(tree@.root).len() && (#[trigger] leaves_of(tree@.root)[i]).id
                == tree@.focused ==> active == leaves_of(tree@.root)[i].active,
        count == leaves_of(tree@.root).len(),
        all@.len() == count,
        forall|i: int|
            0 <= i < all@.len() ==> (#[trigger] all@[i])@ == leaves_of(tree@.root)[i],
{
    let leaves = leaves_of(tree@.root);
    lemma_not_found(tree@.root, pane);
    lemma_not_found(tree@.root, tree@.focused);
    if find_leaf(tree@.root, pane) is Some {
        let k = lemma_found(tree@.root, pane, tree@.root);
        assert(leaves.contains(leaves[k]));
    }
    let h = lemma_holder(tree@.root, panel);
    let f = lemma_found(tree@.root, tree@.focused, tree@.root);
    assert forall|i: int|
        0 <= i < leaves.len() && (#[trigger] leaves[i]).id == tree@.focused implies active
        == leaves[i].active by {
        if i != f {
            assert(leaves[i].id != leaves[f].id || i >= f);
            assert(leaves[f].id != leaves[i].id || f >= i);
        }
    }
    assert(leaf_views(all@) == leaves);
    assert(leaf_views(all@).len() == all@.len());
    assert forall|i: int| 0 <= i < all@.len() implies (#[trigger] all@[i])@ == leaves[i] by {
        assert(leaf_views(all@)[i] == all@[i]@);
    }
}

/// A share that is bounded lies between the least and the greatest; one that
/// lies there already stays, a smaller or negative one becomes the least, and
/// a greater one the greatest.
pub proof fn a_share_is_kept_within_its_bounds(share: SplitRatio, kept: SplitRatio)
    requires
        call_ensures(SplitRatio::clamped, (share,), kept),
    ensures
        LEAST_SHARE <= share.0 <= GREATEST_SHARE ==> kept == share,
        share.0 < LEAST_SHARE ==> kept.0 == LEAST_SHARE,
        GREATEST_SHARE < share.0 <= INFINITE_SHARE ==> kept.0 == GREATEST_SHARE,
        SHARE_SIGN <= share.0 <= SHARE_SIGN + INFINITE_SHARE ==> kept.0 == LEAST_SHARE,
{
}

} // verus!
