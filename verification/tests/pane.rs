use flowstate_workspace::pane::{PaneNode, PaneTree, SplitAxis, SplitRatio};
use flowstate_workspace::pane_layout::{PaneLayoutAxis, PaneLayoutEntry};

fn id(n: u128) -> u128 {
    n
}

fn share(ratio: f32) -> SplitRatio {
    SplitRatio(ratio.to_bits())
}

#[test]
fn tabs_land_in_the_focused_pane_and_one_doc_one_pane_holds() {
    let mut tree = PaneTree::default();
    tree.insert_tab(id(1));
    tree.insert_tab(id(2));
    assert_eq!(tree.pane_count(), 1);
    assert_eq!(tree.focused_active(), Some(id(2)));
    // Re-inserting an open doc ACTIVATES it instead of duplicating.
    tree.insert_tab(id(1));
    assert_eq!(tree.leaf(tree.focused).unwrap().tab_order.len(), 2);
    assert_eq!(tree.focused_active(), Some(id(1)));
}

#[test]
fn split_moves_the_active_tab_and_takes_focus() {
    let mut tree = PaneTree::default();
    tree.insert_tab(id(1));
    tree.insert_tab(id(2));
    let root_pane = tree.focused;
    let new_pane = tree.split(root_pane, SplitAxis::Horizontal).expect("split");
    assert_eq!(tree.pane_count(), 2);
    assert_eq!(tree.focused, new_pane, "the new pane takes focus");
    assert_eq!(tree.focused_active(), Some(id(2)), "the active tab moved with the split");
    assert_eq!(
        tree.leaf(root_pane).unwrap().active,
        Some(id(1)),
        "the source pane falls back to its remaining tab"
    );
    assert_eq!(tree.pane_of(id(2)), Some(new_pane), "one doc, one pane");
}

#[test]
fn closing_the_last_tab_collapses_the_split() {
    let mut tree = PaneTree::default();
    tree.insert_tab(id(1));
    tree.insert_tab(id(2));
    let new_pane = tree.split(tree.focused, SplitAxis::Vertical).expect("split");
    tree.remove_tab(id(2));
    assert_eq!(tree.pane_count(), 1, "the emptied pane collapsed into its sibling");
    assert!(tree.leaf(new_pane).is_none());
    assert_eq!(tree.focused_active(), Some(id(1)));
    // The ROOT pane never collapses — it goes empty (the home stands there).
    tree.remove_tab(id(1));
    assert_eq!(tree.pane_count(), 1);
    assert_eq!(tree.focused_active(), None);
}

#[test]
fn close_pane_moves_survivors_and_the_last_pane_refuses() {
    let mut tree = PaneTree::default();
    tree.insert_tab(id(1));
    tree.insert_tab(id(2));
    let new_pane = tree.split(tree.focused, SplitAxis::Horizontal).expect("split");
    tree.insert_tab(id(3)); // lands in the focused (new) pane
    assert!(tree.close_pane(new_pane), "closing a non-root pane succeeds");
    assert_eq!(tree.pane_count(), 1);
    let survivor = tree.leaf(tree.focused).unwrap();
    assert!(survivor.tab_order.contains(&id(2)) && survivor.tab_order.contains(&id(3)));
    assert!(!tree.close_pane(tree.focused), "the last pane refuses to close");
}

#[test]
fn a_closed_pane_gives_its_tabs_to_the_pane_beside_it() {
    let mut tree = PaneTree::default();
    tree.insert_tab(id(1));
    tree.insert_tab(id(2));
    tree.insert_tab(id(3));
    let first = tree.focused;
    let last = tree.split(first, SplitAxis::Horizontal).expect("split");
    let middle = tree.split(first, SplitAxis::Vertical).expect("split");
    let order: Vec<_> = tree.leaves().iter().map(|leaf| leaf.id).collect();
    assert_eq!(order, vec![first, middle, last]);

    let mut closed_last = tree.clone();
    assert!(closed_last.close_pane(last));
    assert_eq!(closed_last.pane_of(id(3)), Some(middle));
    assert_eq!(closed_last.focused, first);

    let mut closed_first = tree.clone();
    assert!(closed_first.close_pane(first));
    assert_eq!(closed_first.pane_of(id(1)), Some(middle));
    assert_eq!(closed_first.focused, middle);

    assert!(tree.close_pane(middle));
    assert_eq!(tree.pane_of(id(2)), Some(first));
    assert_eq!(tree.focused, first);
}

#[test]
fn tab_drops_move_or_split_and_ratios_address_splits_in_dfs_order() {
    let mut tree = PaneTree::default();
    tree.insert_tab(id(1));
    tree.insert_tab(id(2));
    let left = tree.focused;
    let right = tree.split(left, SplitAxis::Horizontal).expect("split");

    // Center drop: the tab moves panes, the emptied source collapses, and
    // the target keeps focus.
    tree.move_tab_to_pane(id(1), right);
    assert_eq!(tree.pane_of(id(1)), Some(right));
    assert_eq!(tree.focused, right);
    assert_eq!(tree.pane_count(), 1, "the emptied source collapsed away");

    // Edge drop: split the pane around the dragged tab; the NEW pane gets it.
    let target = tree.pane_of(id(2)).expect("pane");
    tree.split_pane_with_tab(target, SplitAxis::Vertical, id(1));
    assert_eq!(tree.pane_count(), 2);
    let new_pane = tree.pane_of(id(1)).expect("new pane");
    assert_ne!(new_pane, target);
    assert_eq!(tree.focused, new_pane);

    // Ratio addressing follows DFS order (one split here → index 0).
    tree.set_split_ratio(0, share(0.7));
    let PaneNode::Split { ratio, .. } = tree.root() else {
        panic!("expected a split root");
    };
    assert!((f32::from_bits(ratio.0) - 0.7).abs() < f32::EPSILON);
}

#[test]
fn layout_round_trips_through_entry_indices() {
    let mut tree = PaneTree::default();
    tree.insert_tab(id(1));
    tree.insert_tab(id(2));
    tree.split(tree.focused, SplitAxis::Horizontal);
    tree.insert_tab(id(3));

    let mut index_of = std::collections::HashMap::new();
    index_of.insert(id(1), 0usize);
    index_of.insert(id(2), 1usize);
    index_of.insert(id(3), 2usize);
    let layout = tree.to_layout(&index_of).expect("multi-pane layouts persist");

    // Full restore: same shape, same actives.
    let restored = vec![Some(id(1)), Some(id(2)), Some(id(3))];
    let rebuilt = PaneTree::from_layout(&layout, &restored).expect("rebuilds");
    assert_eq!(rebuilt.pane_count(), 2);
    assert_eq!(rebuilt.pane_of(id(1)), rebuilt.leaves().first().map(|leaf| leaf.id));
    assert_eq!(rebuilt.pane_of(id(2)), rebuilt.pane_of(id(3)), "the split pane kept both tabs");

    // Entry 2 fails to open → its tab drops but the pane survives on id(2).
    let partial = vec![Some(id(1)), Some(id(2)), None];
    let rebuilt = PaneTree::from_layout(&layout, &partial).expect("tolerant rebuild");
    assert_eq!(rebuilt.pane_count(), 2);
    assert_eq!(rebuilt.pane_of(id(3)), None);

    // The whole second pane fails → the split collapses to a single pane.
    let collapsed = vec![Some(id(1)), None, None];
    let rebuilt = PaneTree::from_layout(&layout, &collapsed).expect("collapses to one pane");
    assert_eq!(rebuilt.pane_count(), 1);

    // Nothing restored → None; the caller keeps the default tree.
    assert!(PaneTree::from_layout(&layout, &[None, None, None]).is_none());
}

#[test]
fn focus_cycles_in_layout_order() {
    let mut tree = PaneTree::default();
    tree.insert_tab(id(1));
    let first = tree.focused;
    tree.split(first, SplitAxis::Horizontal);
    let second = tree.focused;
    tree.split(second, SplitAxis::Vertical);
    let third = tree.focused;
    assert_eq!(tree.focus_next(), first);
    assert_eq!(tree.focus_next(), second);
    assert_eq!(tree.focus_next(), third);
}

#[test]
fn shares_are_held_to_their_bounds() {
    assert_eq!(share(0.5).clamped(), share(0.5));
    assert_eq!(share(0.0).clamped(), share(0.15));
    assert_eq!(share(-3.0).clamped(), share(0.15));
    assert_eq!(share(0.9).clamped(), share(0.85));
    assert_eq!(share(f32::INFINITY).clamped(), share(0.85));
    assert_eq!(share(f32::NEG_INFINITY).clamped(), share(0.15));
    let nan = share(f32::NAN);
    assert_eq!(nan.clamped(), nan);
}

#[test]
fn one_pane_needs_no_layout() {
    let mut tree = PaneTree::default();
    tree.insert_tab(id(7));
    assert!(tree.to_layout(&std::collections::HashMap::new()).is_none());
}

#[test]
fn a_layout_keeps_axes_and_shares() {
    let mut tree = PaneTree::default();
    tree.insert_tab(id(1));
    tree.insert_tab(id(2));
    tree.split(tree.focused, SplitAxis::Vertical);
    tree.set_split_ratio(0, share(0.25));
    let mut index_of = std::collections::HashMap::new();
    index_of.insert(id(1), 0usize);
    index_of.insert(id(2), 1usize);
    let layout = tree.to_layout(&index_of).expect("two panes");
    match &layout {
        PaneLayoutEntry::Split { axis, ratio, .. } => {
            assert_eq!(*axis, PaneLayoutAxis::Vertical);
            assert_eq!(f32::from_bits(ratio.0), 0.25);
        }
        _ => panic!("expected a split"),
    }
    let rebuilt = PaneTree::from_layout(&layout, &[Some(id(1)), Some(id(2))]).expect("rebuilds");
    match rebuilt.root() {
        PaneNode::Split { axis, ratio, .. } => {
            assert_eq!(*axis, SplitAxis::Vertical);
            assert_eq!(f32::from_bits(ratio.0), 0.25);
        }
        _ => panic!("expected a split"),
    }
}

#[test]
fn an_unknown_tab_moves_nothing() {
    let mut tree = PaneTree::default();
    tree.insert_tab(id(1));
    assert!(!tree.activate_tab(id(9)));
    tree.remove_tab(id(9));
    assert_eq!(tree.focused_active(), Some(id(1)));
    assert_eq!(tree.leaves().len(), 1);
}
