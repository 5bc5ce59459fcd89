//! How a pane tree comes back from what was written down of it.

use crate::pane::{
    leaves_of, NodeView, PaneTree, PanelId, SplitAxis, SplitRatio,
};
use crate::pane_laws::shares_bounded;
use crate::pane_layout::{
    all_reopened, layout_round_trips, layout_view, layout_views, lemma_layout_views_at,
    numbered_in_all, numbered_panes, panel_of, panels_of, rebuilt, rebuilt_all, renumbered,
    LayoutView, PaneLayoutAxis, PaneLayoutEntry,
};
use crate::places::{lemma_place_added, places_are};
use std::collections::HashMap;
use vstd::prelude::*;

verus! {

/// Two trees are alike: divided the same way with the same shares, and pane for
/// pane with the same tabs and the same one on top. The panes' numbers may
/// differ.
pub open spec fn alike(left: NodeView, right: NodeView) -> bool
    decreases left,
{
    match (left, right) {
        (NodeView::Pane(own), NodeView::Pane(other)) => own.tabs == other.tabs && own.active
            == other.active,
        (
            NodeView::Split { axis, ratio, first, second },
            NodeView::Split { axis: axis_, ratio: ratio_, first: first_, second: second_ },
        ) => axis == axis_ && ratio == ratio_ && alike(*first, *first_) && alike(*second, *second_),
        _ => false,
    }
}

proof fn lemma_alike(node: NodeView)
    ensures
        alike(node, node),
    decreases node,
{
    match node {
        NodeView::Pane(_) => {},
        NodeView::Split { first, second, .. } => {
            lemma_alike(*first);
            lemma_alike(*second);
        },
    }
}

proof fn lemma_renumbered(node: NodeView, first_id: int)
    ensures
        alike(node, renumbered(node, first_id)),
    decreases node,
{
    match node {
        NodeView::Pane(_) => {},
        NodeView::Split { first, second, .. } => {
            lemma_renumbered(*first, first_id);
            lemma_renumbered(*second, first_id + leaves_of(*first).len());
        },
    }
}

/// A tree of panes whose tabs all come back comes back as it was: divided the
/// same way, with the same shares, tabs and tabs on top.
pub proof fn a_layout_comes_back_as_it_was(
    tree: PaneTree,
    entries: HashMap<PanelId, usize>,
    layout: Option<PaneLayoutEntry>,
    restored: &[Option<PanelId>],
    back: Option<PaneTree>,
)
    requires
        call_ensures(PaneTree::to_layout, (&tree, &entries), layout),
        layout is Some,
        call_ensures(PaneTree::from_layout, (&layout->0, restored), back),
        all_reopened(tree@.root, entries@, restored@),
        shares_bounded(tree@.root),
    ensures
        back is Some,
        alike(tree@.root, (back->0)@.root),
{
    layout_round_trips(tree@.root, entries@, restored@, 0);
    lemma_renumbered(tree@.root, 0);
}

/// A single pane is not written down as a layout, and several are.
pub proof fn a_single_pane_has_no_layout(
    tree: PaneTree,
    entries: HashMap<PanelId, usize>,
    layout: Option<PaneLayoutEntry>,
)
    requires
        call_ensures(PaneTree::to_layout, (&tree, &entries), layout),
    ensures
        tree@.root is Pane ==> layout is None,
        layout is Some ==> tree@.root is Split && (layout->0)@ is Split,
        layout matches Some(PaneLayoutEntry::Split { axis, ratio, children }) ==> {
            &&& axis == PaneLayoutAxis::Horizontal <==> tree@.root->axis == SplitAxis::Horizontal
            &&& ratio == tree@.root->ratio
            &&& children@.len() == 2
        },
{
    if let Some(PaneLayoutEntry::Split { axis, ratio, children }) = layout {
        lemma_layout_views_at(children@);
        assert((layout->0)@ == layout_view(layout->0));
    }
}

/// The tabs of a pane that came back.
pub open spec fn came_back(tabs: Seq<usize>, restored: Seq<Option<PanelId>>) -> spec_fn(
    int,
) -> bool {
    |i: int| tabs[i] < restored.len() && restored[tabs[i] as int] is Some
}

proof fn lemma_panels_places(tabs: Seq<usize>, restored: Seq<Option<PanelId>>) -> (places: Seq<int>)
    ensures
        places_are(places, came_back(tabs, restored), tabs.len() as int),
        panels_of(restored, tabs).len() == places.len(),
        forall|p: int|
            0 <= p < places.len() ==> Some(#[trigger] panels_of(restored, tabs)[p])
                == restored[tabs[places[p]] as int],
    decreases tabs.len(),
{
    reveal(Seq::filter_map);
    let picks = came_back(tabs, restored);
    let f = |entry: usize| panel_of(restored, entry);
    if tabs.len() == 0 {
        assert(panels_of(restored, tabs).len() == 0);
        Seq::empty()
    } else {
        let front = tabs.drop_last();
        let before = lemma_panels_places(front, restored);
        let k = front.len() as int;
        assert(places_are(before, picks, k)) by {
            let earlier = came_back(front, restored);
            assert forall|i: int| 0 <= i < k implies (#[trigger] picks(i) <==> before.contains(i)) by {
                assert(earlier(i) == picks(i));
            }
        }
        lemma_place_added(before, picks, k);
        let fewer = panels_of(restored, front);
        let all = panels_of(restored, tabs);
        assert(all == (match f(tabs.last()) {
            Some(panel) => fewer.push(panel),
            None => fewer,
        }));
        assert(picks(k) == (f(tabs.last()) is Some));
        let places = if picks(k) {
            before.push(k)
        } else {
            before
        };
        assert forall|p: int| 0 <= p < places.len() implies Some(#[trigger] all[p])
            == restored[tabs[places[p]] as int] by {
            if p < before.len() {
                assert(all[p] == fewer[p]);
                assert(front[before[p]] == tabs[before[p]]);
            }
        }
        places
    }
}

/// A pane comes back with those of its tabs that do, in their order, and with
/// the one on top that was, or else the last; one none of whose tabs comes
/// back is gone. The places of the tabs that come back are handed out.
pub proof fn a_pane_comes_back_with_its_tabs(
    tabs: Vec<usize>,
    active: Option<usize>,
    restored: &[Option<PanelId>],
    back: Option<PaneTree>,
) -> (places: Seq<int>)
    requires
        call_ensures(
            PaneTree::from_layout,
            (&PaneLayoutEntry::Pane { tabs, active }, restored),
            back,
        ),
    ensures
        places_are(places, came_back(tabs@, restored@), tabs@.len() as int),
        back is None <==> places.len() == 0,
        back is Some ==> {
            let root = (back->0)@.root;
            &&& root is Pane
            &&& root->Pane_0.tabs.len() == places.len()
            &&& root->Pane_0.id == (back->0)@.focused
            &&& forall|p: int|
                0 <= p < places.len() ==> Some(#[trigger] root->Pane_0.tabs[p])
                    == restored@[tabs@[places[p]] as int]
            &&& active is Some && active->0 < restored@.len() && restored@[active->0 as int] is Some
                && root->Pane_0.tabs.contains(restored@[active->0 as int]->0)
                ==> root->Pane_0.active == restored@[active->0 as int]
            &&& root->Pane_0.active is Some && root->Pane_0.tabs.contains(
                root->Pane_0.active->0,
            )
            &&& active is None ==> root->Pane_0.active == Some(root->Pane_0.tabs.last())
        },
{
    let layout = PaneLayoutEntry::Pane { tabs, active };
    assert(layout@ == layout_view(layout));
    assert(layout@ == (LayoutView::Pane { tabs: tabs@, active }));
    let places = lemma_panels_places(tabs@, restored@);
    if let Some(tree) = back {
        let root = tree@.root;
        let panels = panels_of(restored@, tabs@);
        assert(root == rebuilt(layout@, restored@, 0)->0);
        assert(panels.contains(panels.last())) by {
            assert(panels[panels.len() - 1] == panels.last());
        }
        assert(leaves_of(root)[0] == root->Pane_0);
    }
    places
}

proof fn lemma_same_shape(layout: LayoutView, restored: Seq<Option<PanelId>>, one: int, other: int)
    ensures
        match (rebuilt(layout, restored, one), rebuilt(layout, restored, other)) {
            (Some(left), Some(right)) => alike(left, right),
            (None, None) => true,
            _ => false,
        },
        rebuilt(layout, restored, one) is None ==> numbered_panes(layout, restored) == 0,
    decreases layout,
{
    match layout {
        LayoutView::Pane { .. } => {},
        LayoutView::Split { children, .. } => {
            lemma_same_shapes(children, restored, one, other);
        },
    }
}

proof fn lemma_same_shapes(
    layouts: Seq<LayoutView>,
    restored: Seq<Option<PanelId>>,
    one: int,
    other: int,
)
    ensures
        rebuilt_all(layouts, restored, one).len() == rebuilt_all(layouts, restored, other).len(),
        forall|i: int|
            0 <= i < rebuilt_all(layouts, restored, one).len() ==> alike(
                #[trigger] rebuilt_all(layouts, restored, one)[i],
                rebuilt_all(layouts, restored, other)[i],
            ),
        rebuilt_all(layouts, restored, one).len() == 0 ==> numbered_in_all(layouts, restored) == 0,
    decreases layouts,
{
    if layouts.len() > 0 {
        let front = layouts.drop_last();
        lemma_same_shapes(front, restored, one, other);
        let more = numbered_in_all(front, restored);
        lemma_same_shape(layouts.last(), restored, one + more, other + more);
        let left = rebuilt_all(layouts, restored, one);
        let right = rebuilt_all(layouts, restored, other);
        let fewer = rebuilt_all(front, restored, one);
        assert forall|i: int| 0 <= i < left.len() implies alike(#[trigger] left[i], right[i]) by {
            if i < fewer.len() {
                assert(left[i] == fewer[i]);
                assert(right[i] == rebuilt_all(front, restored, other)[i]);
            }
        }
    }
}

/// A split comes back from its halves: where both come back it divides them
/// the way it did, the first one first, and where only one does that one takes
/// its place; where neither does nothing is left.
pub proof fn a_split_comes_back_from_its_halves(
    axis: PaneLayoutAxis,
    ratio: SplitRatio,
    halves: Vec<PaneLayoutEntry>,
    restored: &[Option<PanelId>],
    whole: Option<PaneTree>,
    first: Option<PaneTree>,
    second: Option<PaneTree>,
)
    requires
        halves@.len() == 2,
        call_ensures(
            PaneTree::from_layout,
            (&PaneLayoutEntry::Split { axis, ratio, children: halves }, restored),
            whole,
        ),
        call_ensures(PaneTree::from_layout, (&halves@[0], restored), first),
        call_ensures(PaneTree::from_layout, (&halves@[1], restored), second),
    ensures
        whole is None <==> first is None && second is None,
        first is Some && second is None ==> alike((first->0)@.root, (whole->0)@.root),
        first is None && second is Some ==> alike((second->0)@.root, (whole->0)@.root),
        first is Some && second is Some ==> {
            let root = (whole->0)@.root;
            &&& root is Split
            &&& root->axis == SplitAxis::Horizontal <==> axis == PaneLayoutAxis::Horizontal
            &&& root->ratio == ratio.bounded()
            &&& alike((first->0)@.root, *root->first)
            &&& alike((second->0)@.root, *root->second)
        },
{
    let layout = PaneLayoutEntry::Split { axis, ratio, children: halves };
    assert(layout@ == layout_view(layout));
    lemma_layout_views_at(halves@);
    let views = layout_views(halves@);
    let (left, right) = (halves@[0]@, halves@[1]@);
    assert(views =~= seq![left, right]);
    let r = restored@;
    let n = numbered_panes(left, r) as int;
    lemma_same_shape(left, r, 0, 0);
    lemma_same_shape(right, r, 0, n);
    let one = seq![left];
    assert(views.drop_last() =~= one);
    assert(one.drop_last() =~= Seq::<LayoutView>::empty());
    assert(numbered_in_all(Seq::<LayoutView>::empty(), r) == 0);
    assert(rebuilt_all(Seq::<LayoutView>::empty(), r, 0) == Seq::<NodeView>::empty());
    assert(numbered_in_all(one, r) == n);
    assert(rebuilt_all(one, r, 0) == (match rebuilt(left, r, 0) {
        None => Seq::<NodeView>::empty(),
        Some(node) => Seq::<NodeView>::empty().push(node),
    }));
    assert(rebuilt_all(views, r, 0) == (match rebuilt(right, r, n) {
        None => rebuilt_all(one, r, 0),
        Some(node) => rebuilt_all(one, r, 0).push(node),
    }));
    if let Some(tree) = first {
        lemma_alike(tree@.root);
    }
}

} // verus!
