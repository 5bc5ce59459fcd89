//! What the outline promises, in terms of the document that it shows.

use crate::outline::{
    active_visible_outline_paragraph_from_visible, collect_visible_outline_paragraphs, entry_values,
    guide_values, node_values, outline_nodes_from_entries, OutlineCache, OutlineEntry, OutlineNode,
};
use crate::outline::{
    guides, guides_under, headings_of, inserted, items_for, levelled, levels_of, lone,
    parent_at, row_at, row_label, squeezed, style_level, the_outline_keeps_document_order, tree_of,
    visible, visible_under, EntryValue, GuideValue, NodeValue, OutlineParagraph,
};
use crate::styles::ParagraphStyle;
use crate::text::{decimal, is_space};
use std::collections::HashSet;
use vstd::prelude::*;

verus! {

/// A heading stands under an earlier one: that one is of a lesser depth, and
/// so is it than every heading between the two.
pub open spec fn stands_under(entries: Seq<EntryValue>, i: int, j: int) -> bool {
    &&& 0 <= i < j < entries.len()
    &&& forall|m: int| i < m <= j ==> (#[trigger] entries[m]).level > entries[i].level
}

/// A heading stands under one that is collapsed.
pub open spec fn is_hidden(entries: Seq<EntryValue>, collapsed: Set<usize>, j: int) -> bool {
    exists|i: int| #[trigger]
        stands_under(entries, i, j) && collapsed.contains(entries[i].paragraph_ix)
}

/// What would come next at a depth stands under a collapsed row of a tree.
spec fn blocked(nodes: Seq<NodeValue>, collapsed: Set<usize>, level: int) -> bool
    decreases nodes,
{
    nodes.len() > 0 && nodes.last().level < level && (collapsed.contains(nodes.last().paragraph_ix)
        || blocked(nodes.last().children, collapsed, level))
}

proof fn lemma_above_last(nodes: Seq<NodeValue>, above: int, level: usize, upto: int)
    requires
        levelled(nodes, above),
        0 <= upto <= nodes.len(),
        nodes.len() > 0 ==> nodes.last().level >= level,
    ensures
        parent_at(nodes, level, upto) is None,
    decreases nodes.len(), upto,
{
    if upto > 0 {
        if upto < nodes.len() {
            let front = nodes.drop_last();
            assert(front.last() == nodes[nodes.len() - 2]);
            lemma_above_last(front, above, level, upto);
            lemma_parent_shorter(nodes, front, level, upto);
        } else {
            lemma_above_last(nodes, above, level, upto - 1);
        }
    }
}

proof fn lemma_parent_shorter(
    nodes: Seq<NodeValue>,
    front: Seq<NodeValue>,
    level: usize,
    upto: int,
)
    requires
        front == nodes.drop_last(),
        nodes.len() > 0,
        0 <= upto <= front.len(),
    ensures
        parent_at(nodes, level, upto) == parent_at(front, level, upto),
    decreases upto,
{
    if upto > 0 {
        lemma_parent_shorter(nodes, front, level, upto - 1);
    }
}

proof fn lemma_inserted_last(nodes: Seq<NodeValue>, above: int, node: NodeValue)
    requires
        levelled(nodes, above),
    ensures
        nodes.len() > 0 && nodes.last().level < node.level ==> inserted(nodes, node)
            == nodes.drop_last().push(
            NodeValue { children: inserted(nodes.last().children, node), ..nodes.last() },
        ),
        !(nodes.len() > 0 && nodes.last().level < node.level) ==> inserted(nodes, node)
            == nodes.push(node),
{
    if nodes.len() > 0 && nodes.last().level < node.level {
        let at = nodes.len() - 1;
        assert(parent_at(nodes, node.level, nodes.len() as int) == Some(at));
        let grown = NodeValue {
            children: inserted(nodes.last().children, node),
            ..nodes.last()
        };
        assert(nodes.update(at, grown) =~= nodes.drop_last().push(grown));
    } else if node.level > 0 {
        lemma_above_last(nodes, above, node.level, nodes.len() as int);
    }
}

proof fn lemma_visible_grows(
    nodes: Seq<NodeValue>,
    above: int,
    node: NodeValue,
    collapsed: Set<usize>,
)
    requires
        levelled(nodes, above),
        node.children.len() == 0,
    ensures
        visible(inserted(nodes, node), collapsed) == (if blocked(
            nodes,
            collapsed,
            node.level as int,
        ) {
            visible(nodes, collapsed)
        } else {
            visible(nodes, collapsed).push(node.paragraph_ix)
        }),
    decreases nodes,
{
    lemma_inserted_last(nodes, above, node);
    let new = inserted(nodes, node);
    if nodes.len() > 0 && nodes.last().level < node.level {
        let last = nodes.last();
        let grown = NodeValue { children: inserted(last.children, node), ..last };
        assert(decreases_to!(nodes => nodes[nodes.len() - 1]));
        lemma_visible_grows(last.children, last.level as int, node, collapsed);
        assert(new.drop_last() =~= nodes.drop_last());
        assert(new.last() == grown);
        assert(visible(new, collapsed) == visible(nodes.drop_last(), collapsed) + visible_under(
            grown,
            collapsed,
        ));
        let before = visible_under(last, collapsed);
        let after = visible_under(grown, collapsed);
        assert(visible(nodes, collapsed) == visible(nodes.drop_last(), collapsed) + before);
        if collapsed.contains(last.paragraph_ix) {
            assert(before =~= after);
            assert(visible(new, collapsed) =~= visible(nodes, collapsed));
        } else if blocked(last.children, collapsed, node.level as int) {
            assert(visible(new, collapsed) =~= visible(nodes, collapsed));
        } else {
            assert(visible(new, collapsed) =~= visible(nodes, collapsed).push(node.paragraph_ix));
        }
    } else {
        assert(new.drop_last() =~= nodes);
        assert(visible(node.children, collapsed) =~= Seq::empty());
        assert(visible_under(node, collapsed) =~= seq![node.paragraph_ix]);
        assert(visible(new, collapsed) =~= visible(nodes, collapsed).push(node.paragraph_ix));
    }
}

proof fn lemma_blocked_grows(
    nodes: Seq<NodeValue>,
    above: int,
    node: NodeValue,
    collapsed: Set<usize>,
    level: int,
)
    requires
        levelled(nodes, above),
        node.children.len() == 0,
    ensures
        blocked(inserted(nodes, node), collapsed, level) == (node.level < level
            && collapsed.contains(node.paragraph_ix) || blocked(
            nodes,
            collapsed,
            if level < node.level {
                level
            } else {
                node.level as int
            },
        )),
    decreases nodes,
{
    lemma_inserted_last(nodes, above, node);
    let new = inserted(nodes, node);
    if nodes.len() > 0 && nodes.last().level < node.level {
        let last = nodes.last();
        assert(decreases_to!(nodes => nodes[nodes.len() - 1]));
        lemma_blocked_grows(last.children, last.level as int, node, collapsed, level);
        assert(new.last().children == inserted(last.children, node));
        assert(new.last().paragraph_ix == last.paragraph_ix);
    } else {
        assert(new.last() == node);
        assert(!blocked(node.children, collapsed, level));
    }
}

/// Some earlier heading that what comes next at a depth would stand under is
/// collapsed.
spec fn blocked_by(entries: Seq<EntryValue>, collapsed: Set<usize>, level: int, i: int) -> bool {
    &&& 0 <= i < entries.len()
    &&& entries[i].level < level
    &&& collapsed.contains(entries[i].paragraph_ix)
    &&& forall|m: int| i < m < entries.len() ==> (#[trigger] entries[m]).level > entries[i].level
}

proof fn lemma_blocked_by(entries: Seq<EntryValue>, collapsed: Set<usize>, level: int)
    ensures
        blocked(tree_of(entries), collapsed, level) <==> exists|i: int|
            blocked_by(entries, collapsed, level, i),
    decreases entries.len(),
{
    if entries.len() > 0 {
        let shorter = entries.drop_last();
        let last = entries.last();
        let lesser = if level < last.level {
            level
        } else {
            last.level as int
        };
        the_outline_keeps_document_order(shorter);
        lemma_blocked_grows(tree_of(shorter), -1, lone(last), collapsed, level);
        lemma_blocked_by(shorter, collapsed, lesser);
        if exists|i: int| blocked_by(entries, collapsed, level, i) {
            let i = choose|i: int| blocked_by(entries, collapsed, level, i);
            if i < shorter.len() {
                assert(entries[entries.len() - 1].level > entries[i].level);
                assert forall|m: int| i < m < shorter.len() implies (#[trigger] shorter[m]).level
                    > shorter[i].level by {
                    assert(entries[m].level > entries[i].level);
                }
                assert(blocked_by(shorter, collapsed, lesser, i));
            }
        }
        if exists|i: int| blocked_by(shorter, collapsed, lesser, i) {
            let i = choose|i: int| blocked_by(shorter, collapsed, lesser, i);
            assert forall|m: int| i < m < entries.len() implies (#[trigger] entries[m]).level
                > entries[i].level by {
                if m < shorter.len() {
                    assert(shorter[m].level > shorter[i].level);
                }
            }
            assert(blocked_by(entries, collapsed, level, i));
        }
        if last.level < level && collapsed.contains(last.paragraph_ix) {
            assert(blocked_by(entries, collapsed, level, entries.len() - 1));
        }
    }
}

/// A collapsed row hides what stands under it, and nothing else is hidden. The
/// visible rows of an outline are its headings in the document's order, but
/// for those that stand under a collapsed one at whatever depth. The places of
/// the headings that show are handed back.
pub proof fn collapsed_rows_hide_what_stands_under_them(
    entries: Seq<EntryValue>,
    collapsed: Set<usize>,
) -> (places: Seq<int>)
    ensures
        ({
            let rows = visible(tree_of(entries), collapsed);
            &&& rows.len() == places.len()
            &&& forall|p: int|
                #![trigger places[p]]
                #![trigger rows[p]]
                0 <= p < places.len() ==> 0 <= places[p] < entries.len() && rows[p]
                    == entries[places[p]].paragraph_ix
            &&& forall|p: int, q: int|
                0 <= p < q < places.len() ==> #[trigger] places[p] < #[trigger] places[q]
            &&& forall|j: int|
                0 <= j < entries.len() ==> (#[trigger] is_hidden(entries, collapsed, j)
                    <==> !places.contains(j))
        }),
    decreases entries.len(),
{
    if entries.len() == 0 {
        Seq::empty()
    } else {
        let shorter = entries.drop_last();
        let last = entries.last();
        let j = entries.len() - 1;
        let earlier = collapsed_rows_hide_what_stands_under_them(shorter, collapsed);
        the_outline_keeps_document_order(shorter);
        lemma_visible_grows(tree_of(shorter), -1, lone(last), collapsed);
        lemma_blocked_by(shorter, collapsed, last.level as int);
        if exists|i: int| blocked_by(shorter, collapsed, last.level as int, i) {
            let i = choose|i: int| blocked_by(shorter, collapsed, last.level as int, i);
            assert forall|m: int| i < m <= j implies (#[trigger] entries[m]).level
                > entries[i].level by {
                if m < j {
                    assert(shorter[m].level > shorter[i].level);
                }
            }
            assert(stands_under(entries, i, j));
            assert(is_hidden(entries, collapsed, j));
        }
        if is_hidden(entries, collapsed, j) {
            let i = choose|i: int| #[trigger]
                stands_under(entries, i, j) && collapsed.contains(entries[i].paragraph_ix);
            assert(entries[j].level > entries[i].level);
            assert forall|m: int| i < m < shorter.len() implies (#[trigger] shorter[m]).level
                > shorter[i].level by {
                assert(entries[m].level > entries[i].level);
            }
            assert(blocked_by(shorter, collapsed, last.level as int, i));
        }
        let hidden = is_hidden(entries, collapsed, j);
        let places = if hidden {
            earlier
        } else {
            earlier.push(j)
        };
        let rows = visible(tree_of(entries), collapsed);
        let rows_before = visible(tree_of(shorter), collapsed);
        assert forall|p: int|
            #![trigger places[p]]
            #![trigger rows[p]]
            0 <= p < places.len() implies 0 <= places[p] < entries.len() && rows[p]
            == entries[places[p]].paragraph_ix by {
            if p < earlier.len() {
                assert(places[p] == earlier[p]);
                assert(rows[p] == rows_before[p]);
                assert(shorter[earlier[p]] == entries[earlier[p]]);
            }
        }
        assert forall|m: int| 0 <= m < entries.len() implies (#[trigger] is_hidden(
            entries,
            collapsed,
            m,
        ) <==> !places.contains(m)) by {
            if m < j {
                lemma_hidden_shorter(entries, collapsed, m);
                if earlier.contains(m) {
                    let p = choose|p: int| 0 <= p < earlier.len() && earlier[p] == m;
                    assert(places[p] == m);
                }
                if places.contains(m) {
                    let p = choose|p: int| 0 <= p < places.len() && places[p] == m;
                    assert(earlier[p] == m);
                }
            } else {
                if !hidden {
                    assert(places[earlier.len() as int] == j);
                } else if places.contains(j) {
                    let p = choose|p: int| 0 <= p < places.len() && places[p] == j;
                    assert(earlier[p] < shorter.len());
                }
            }
        }
        places
    }
}

proof fn lemma_hidden_shorter(entries: Seq<EntryValue>, collapsed: Set<usize>, j: int)
    requires
        0 <= j < entries.len() - 1,
    ensures
        is_hidden(entries, collapsed, j) == is_hidden(entries.drop_last(), collapsed, j),
{
    let shorter = entries.drop_last();
    assert forall|i: int| #[trigger] stands_under(entries, i, j) == stands_under(shorter, i, j) by {
        if stands_under(entries, i, j) {
            assert forall|m: int| i < m <= j implies (#[trigger] shorter[m]).level
                > shorter[i].level by {
                assert(entries[m].level > entries[i].level);
            }
        }
        if stands_under(shorter, i, j) {
            assert forall|m: int| i < m <= j implies (#[trigger] entries[m]).level
                > entries[i].level by {
                assert(shorter[m].level > shorter[i].level);
            }
        }
    }
    if is_hidden(shorter, collapsed, j) {
        let i = choose|i: int| #[trigger]
            stands_under(shorter, i, j) && collapsed.contains(shorter[i].paragraph_ix);
        assert(stands_under(entries, i, j));
    }
    if is_hidden(entries, collapsed, j) {
        let i = choose|i: int| #[trigger]
            stands_under(entries, i, j) && collapsed.contains(entries[i].paragraph_ix);
        assert(stands_under(shorter, i, j));
    }
}

/// The node that a way down the tree leads to: a place at each depth.
pub open spec fn node_at(nodes: Seq<NodeValue>, way: Seq<int>) -> Option<NodeValue>
    decreases way.len(),
{
    if way.len() == 0 || way[0] < 0 || way[0] >= nodes.len() {
        None
    } else if way.len() == 1 {
        Some(nodes[way[0]])
    } else {
        node_at(nodes[way[0]].children, way.skip(1))
    }
}

/// No node above the end of a way is collapsed.
pub open spec fn way_is_open(nodes: Seq<NodeValue>, way: Seq<int>, collapsed: Set<usize>) -> bool {
    forall|d: int|
        0 < d < way.len() ==> (#[trigger] node_at(nodes, way.take(d)) matches Some(above)
            && !collapsed.contains(above.paragraph_ix))
}

/// A row of the outline's view is that of the node at the end of a way.
pub open spec fn row_shows(
    nodes: Seq<NodeValue>,
    collapsed: Set<usize>,
    depth: int,
    ancestors: Seq<usize>,
    row: usize,
    guide: GuideValue,
    way: Seq<int>,
) -> bool {
    &&& node_at(nodes, way) matches Some(node) && {
        &&& node.paragraph_ix == row
        &&& guide.extends_from_toggle <==> node.children.len() > 0 && !collapsed.contains(row)
    }
    &&& way_is_open(nodes, way, collapsed)
    &&& guide.ancestor_depths == ancestors + Seq::new(
        (way.len() - 1) as nat,
        |d: int| (depth + d) as usize,
    )
}

/// A row of the outline's view is that of some node.
pub open spec fn row_stands(
    nodes: Seq<NodeValue>,
    collapsed: Set<usize>,
    depth: int,
    ancestors: Seq<usize>,
    row: usize,
    guide: GuideValue,
) -> bool {
    exists|way: Seq<int>| row_shows(nodes, collapsed, depth, ancestors, row, guide, way)
}

proof fn lemma_way_of_first(nodes: Seq<NodeValue>, front: Seq<NodeValue>, way: Seq<int>)
    requires
        front == nodes.drop_last(),
        nodes.len() > 0,
        node_at(front, way) is Some,
    ensures
        node_at(nodes, way) == node_at(front, way),
{
}

/// Every row that shows has the guides of where it stands: a line for each
/// heading that it stands under, from the outermost in, none of them
/// collapsed, and one of its own exactly where it is expanded over others.
pub proof fn guides_show_where_a_row_stands(
    nodes: Seq<NodeValue>,
    collapsed: Set<usize>,
    depth: int,
    ancestors: Seq<usize>,
)
    ensures
        guides(nodes, collapsed, depth, ancestors).len() == visible(nodes, collapsed).len(),
        forall|r: int|
            0 <= r < visible(nodes, collapsed).len() ==> row_stands(
                nodes,
                collapsed,
                depth,
                ancestors,
                #[trigger] visible(nodes, collapsed)[r],
                guides(nodes, collapsed, depth, ancestors)[r],
            ),
    decreases nodes,
{
    if nodes.len() > 0 {
        let front = nodes.drop_last();
        let node = nodes.last();
        let at = nodes.len() - 1;
        let rows = visible(nodes, collapsed);
        let lines = guides(nodes, collapsed, depth, ancestors);
        let rows_front = visible(front, collapsed);
        let lines_front = guides(front, collapsed, depth, ancestors);
        let inner = ancestors.push(depth as usize);
        guides_show_where_a_row_stands(front, collapsed, depth, ancestors);
        assert(decreases_to!(nodes => nodes[nodes.len() - 1]));
        guides_show_where_a_row_stands(node.children, collapsed, depth + 1, inner);
        let rows_below = visible(node.children, collapsed);
        let lines_below = guides(node.children, collapsed, depth + 1, inner);
        if node.children.len() == 0 {
            assert(rows_below.len() == 0);
        }
        let own = visible_under(node, collapsed);
        let own_lines = guides_under(node, collapsed, depth, ancestors);
        assert(rows =~= rows_front + own);
        assert(lines =~= lines_front + own_lines);
        if collapsed.contains(node.paragraph_ix) {
            assert(own.len() == 1 && own_lines.len() == 1);
        } else {
            assert(own =~= seq![node.paragraph_ix] + rows_below);
            if node.children.len() > 0 {
                assert(own_lines.len() == 1 + lines_below.len());
                assert forall|b: int| 0 <= b < lines_below.len() implies own_lines[b + 1]
                    == #[trigger] lines_below[b] by {}
            } else {
                assert(own_lines.len() == 1);
            }
        }
        assert forall|r: int| 0 <= r < rows.len() implies row_stands(
            nodes,
            collapsed,
            depth,
            ancestors,
            #[trigger] rows[r],
            lines[r],
        ) by {
            if r < rows_front.len() {
                assert(rows[r] == rows_front[r]);
                assert(lines[r] == lines_front[r]);
                let way = choose|way: Seq<int>|
                    row_shows(
                        front,
                        collapsed,
                        depth,
                        ancestors,
                        rows_front[r],
                        lines_front[r],
                        way,
                    );
                lemma_way_of_first(nodes, front, way);
                assert forall|d: int| 0 < d < way.len() implies (#[trigger] node_at(
                    nodes,
                    way.take(d),
                ) matches Some(above) && !collapsed.contains(above.paragraph_ix)) by {
                    assert(node_at(front, way.take(d)) is Some);
                    lemma_way_of_first(nodes, front, way.take(d));
                }
                assert(way_is_open(nodes, way, collapsed));
                assert(row_shows(nodes, collapsed, depth, ancestors, rows[r], lines[r], way));
            } else if r == rows_front.len() {
                let way = seq![at];
                assert(node_at(nodes, way) == Some(node));
                assert(rows[r] == node.paragraph_ix);
                assert(lines[r].ancestor_depths =~= ancestors + Seq::new(
                    0,
                    |d: int| (depth + d) as usize,
                ));
                assert(row_shows(nodes, collapsed, depth, ancestors, rows[r], lines[r], way));
            } else {
                let below = r - rows_front.len() - 1;
                assert(!collapsed.contains(node.paragraph_ix) && node.children.len() > 0);
                assert(own[below + 1] == rows_below[below]);
                assert(own_lines[below + 1] == lines_below[below]);
                assert(rows[r] == rows_below[below]);
                assert(lines[r] == lines_below[below]);
                let deeper = depth + 1;
                let rest = choose|rest: Seq<int>|
                    row_shows(
                        node.children,
                        collapsed,
                        deeper,
                        inner,
                        rows_below[below],
                        lines_below[below],
                        rest,
                    );
                let way = seq![at] + rest;
                assert(way.skip(1) =~= rest);
                assert(node_at(nodes, way) == node_at(node.children, rest));
                assert forall|d: int| 0 < d < way.len() implies (#[trigger] node_at(
                    nodes,
                    way.take(d),
                ) matches Some(above) && !collapsed.contains(above.paragraph_ix)) by {
                    if d == 1 {
                        assert(way.take(1)[0] == at);
                        assert(node_at(nodes, way.take(1)) == Some(node));
                    } else {
                        assert(way.take(d).skip(1) =~= rest.take(d - 1));
                        assert(node_at(node.children, rest.take(d - 1)) is Some);
                        assert(node_at(nodes, way.take(d)) == node_at(
                            node.children,
                            rest.take(d - 1),
                        ));
                    }
                }
                assert(lines[r].ancestor_depths =~= ancestors + Seq::new(
                    (way.len() - 1) as nat,
                    |d: int| (depth + d) as usize,
                ));
                assert(row_shows(nodes, collapsed, depth, ancestors, rows[r], lines[r], way));
            }
        }
    }
}

/// The tree view has a row for each heading, in its place, under the
/// heading's own name, open exactly where the heading is not collapsed.
pub proof fn the_tree_view_mirrors_the_outline(
    nodes: Seq<NodeValue>,
    collapsed: Set<usize>,
    k: int,
)
    requires
        0 <= k < nodes.len(),
    ensures
        items_for(nodes, collapsed).len() == nodes.len(),
        ({
            let item = items_for(nodes, collapsed)[k];
            &&& item.label == nodes[k].text
            &&& item.expanded <==> !collapsed.contains(nodes[k].paragraph_ix)
            &&& item.id == "paragraph:"@ + decimal(nodes[k].paragraph_ix as nat)
            &&& item.children == items_for(nodes[k].children, collapsed)
        }),
    decreases nodes.len(),
{
    lemma_items_len(nodes, collapsed);
    lemma_items_len(nodes.drop_last(), collapsed);
    let own = crate::outline::item_for(nodes.last(), collapsed);
    assert(items_for(nodes, collapsed).last() == own);
    assert(own.children == items_for(nodes.last().children, collapsed));
    if k < nodes.len() - 1 {
        let front = nodes.drop_last();
        the_tree_view_mirrors_the_outline(front, collapsed, k);
        assert(items_for(nodes, collapsed)[k] == items_for(front, collapsed)[k]);
    }
}

proof fn lemma_items_len(nodes: Seq<NodeValue>, collapsed: Set<usize>)
    ensures
        items_for(nodes, collapsed).len() == nodes.len(),
    decreases nodes.len(),
{
    if nodes.len() > 0 {
        lemma_items_len(nodes.drop_last(), collapsed);
    }
}

proof fn lemma_levels_grow(nodes: Seq<NodeValue>, above: int, node: NodeValue)
    requires
        levelled(nodes, above),
        node.children.len() == 0,
    ensures
        levels_of(inserted(nodes, node)) == levels_of(nodes).insert(node.paragraph_ix, node.level),
    decreases nodes,
{
    lemma_inserted_last(nodes, above, node);
    let new = inserted(nodes, node);
    if nodes.len() > 0 && nodes.last().level < node.level {
        let last = nodes.last();
        assert(decreases_to!(nodes => nodes[nodes.len() - 1]));
        lemma_levels_grow(last.children, last.level as int, node);
        assert(new.drop_last() =~= nodes.drop_last());
        assert(levels_of(new) =~= levels_of(nodes).insert(node.paragraph_ix, node.level));
    } else {
        assert(new.drop_last() =~= nodes);
        assert(levels_of(node.children) =~= Map::empty());
        assert(levels_of(new) =~= levels_of(nodes).insert(node.paragraph_ix, node.level));
    }
}

/// A row's depth is that of its heading, and nothing but a heading has one.
pub proof fn a_row_has_its_headings_depth(entries: Seq<EntryValue>)
    ensures
        forall|i: int|
            0 <= i < entries.len() && (forall|m: int|
                i < m < entries.len() ==> (#[trigger] entries[m]).paragraph_ix
                    != entries[i].paragraph_ix) ==> levels_of(tree_of(entries)).contains_pair(
                (#[trigger] entries[i]).paragraph_ix,
                entries[i].level,
            ),
        forall|paragraph: usize| #[trigger]
            levels_of(tree_of(entries)).contains_key(paragraph) ==> exists|i: int|
                0 <= i < entries.len() && (#[trigger] entries[i]).paragraph_ix == paragraph,
    decreases entries.len(),
{
    if entries.len() > 0 {
        let shorter = entries.drop_last();
        let last = entries.last();
        a_row_has_its_headings_depth(shorter);
        the_outline_keeps_document_order(shorter);
        lemma_levels_grow(tree_of(shorter), -1, lone(last));
        let levels = levels_of(tree_of(entries));
        assert forall|i: int|
            0 <= i < entries.len() && (forall|m: int|
                i < m < entries.len() ==> (#[trigger] entries[m]).paragraph_ix
                    != entries[i].paragraph_ix) implies levels.contains_pair(
            (#[trigger] entries[i]).paragraph_ix,
            entries[i].level,
        ) by {
            if i < shorter.len() {
                assert(entries[entries.len() - 1].paragraph_ix != entries[i].paragraph_ix);
                assert(shorter[i] == entries[i]);
                assert forall|m: int| i < m < shorter.len() implies (
                #[trigger] shorter[m]).paragraph_ix != shorter[i].paragraph_ix by {
                    assert(entries[m].paragraph_ix != entries[i].paragraph_ix);
                }
            }
        }
        assert forall|paragraph: usize| #[trigger] levels.contains_key(paragraph) implies exists|
            i: int,
        |
            0 <= i < entries.len() && (#[trigger] entries[i]).paragraph_ix == paragraph by {
            if paragraph == last.paragraph_ix {
                assert(entries[entries.len() - 1].paragraph_ix == paragraph);
            } else {
                assert(levels_of(tree_of(shorter)).contains_key(paragraph));
                let i = choose|i: int|
                    0 <= i < shorter.len() && (#[trigger] shorter[i]).paragraph_ix == paragraph;
                assert(entries[i].paragraph_ix == paragraph);
            }
        }
    }
}

/// A paragraph that heads something.
pub open spec fn heads(style: ParagraphStyle) -> bool {
    match style {
        ParagraphStyle::Pocket => true,
        ParagraphStyle::Hat => true,
        ParagraphStyle::Block => true,
        ParagraphStyle::Tag => true,
        ParagraphStyle::Analytic => true,
        _ => false,
    }
}

/// Pockets hold hats, hats hold blocks, blocks hold tags and analytics, and
/// these hold nothing.
pub proof fn headings_stand_in_their_hierarchy(style: ParagraphStyle)
    ensures
        heads(style) <==> style_level(style) is Some,
        style_level(ParagraphStyle::Pocket) == Some(0usize),
        style_level(ParagraphStyle::Pocket)->0 < style_level(ParagraphStyle::Hat)->0,
        style_level(ParagraphStyle::Hat)->0 < style_level(ParagraphStyle::Block)->0,
        style_level(ParagraphStyle::Block)->0 < style_level(ParagraphStyle::Tag)->0,
        style_level(ParagraphStyle::Tag) == style_level(ParagraphStyle::Analytic),
        heads(style) ==> style_level(style)->0 <= style_level(ParagraphStyle::Tag)->0 == 3,
{
}

/// Every paragraph that heads something is in the outline, in the document's
/// order, under its own place, depth and label, and no other is.
pub proof fn every_heading_is_in_the_outline(paragraphs: Seq<OutlineParagraph>)
    requires
        paragraphs.len() <= usize::MAX,
    ensures
        ({
            let headings = headings_of(paragraphs);
            &&& forall|h: int|
                0 <= h < headings.len() ==> {
                    let heading = #[trigger] headings[h];
                    &&& heading.paragraph_ix < paragraphs.len()
                    &&& heads(paragraphs[heading.paragraph_ix as int].style)
                    &&& Some(heading.level) == style_level(
                        paragraphs[heading.paragraph_ix as int].style,
                    )
                    &&& heading.text == row_label(paragraphs[heading.paragraph_ix as int].text@)
                }
            &&& forall|h: int, g: int|
                0 <= h < g < headings.len() ==> (#[trigger] headings[h]).paragraph_ix < (
                #[trigger] headings[g]).paragraph_ix
            &&& forall|i: int|
                0 <= i < paragraphs.len() && heads((#[trigger] paragraphs[i]).style) ==> exists|
                    h: int,
                |
                    0 <= h < headings.len() && (#[trigger] headings[h]).paragraph_ix == i
        }),
    decreases paragraphs.len(),
{
    if paragraphs.len() > 0 {
        let front = paragraphs.drop_last();
        every_heading_is_in_the_outline(front);
        let before = headings_of(front);
        let headings = headings_of(paragraphs);
        assert forall|h: int| 0 <= h < headings.len() implies {
            let heading = #[trigger] headings[h];
            &&& heading.paragraph_ix < paragraphs.len()
            &&& heads(paragraphs[heading.paragraph_ix as int].style)
            &&& Some(heading.level) == style_level(paragraphs[heading.paragraph_ix as int].style)
            &&& heading.text == row_label(paragraphs[heading.paragraph_ix as int].text@)
        } by {
            if h < before.len() {
                assert(headings[h] == before[h]);
            }
        }
        assert forall|h: int, g: int| 0 <= h < g < headings.len() implies (
        #[trigger] headings[h]).paragraph_ix < (#[trigger] headings[g]).paragraph_ix by {
            assert(headings[h] == before[h]);
            assert(before[h].paragraph_ix < front.len());
            if g < before.len() {
                assert(headings[g] == before[g]);
            }
        }
        assert forall|i: int|
            0 <= i < paragraphs.len() && heads((#[trigger] paragraphs[i]).style) implies exists|
            h: int,
        |
            0 <= h < headings.len() && (#[trigger] headings[h]).paragraph_ix == i by {
            if i < front.len() {
                assert(front[i] == paragraphs[i]);
                let h = choose|h: int|
                    0 <= h < before.len() && (#[trigger] before[h]).paragraph_ix == i;
                assert(headings[h] == before[h]);
            } else {
                assert(headings[before.len() as int].paragraph_ix == i);
            }
        }
    }
}

/// The row of the caret is the last one at or before it: nothing that shows
/// stands between the two.
pub proof fn the_carets_row_is_the_last_before_it(paragraphs: Seq<usize>, caret: usize)
    ensures
        match row_at(paragraphs, caret) {
            Some(row) => exists|i: int|
                0 <= i < paragraphs.len() && #[trigger] paragraphs[i] == row && row <= caret
                    && forall|j: int| i < j < paragraphs.len() ==> #[trigger] paragraphs[j] > caret,
            None => forall|j: int| 0 <= j < paragraphs.len() ==> #[trigger] paragraphs[j] > caret,
        },
    decreases paragraphs.len(),
{
    if paragraphs.len() > 0 && paragraphs.last() > caret {
        let front = paragraphs.drop_last();
        the_carets_row_is_the_last_before_it(front, caret);
        if let Some(row) = row_at(front, caret) {
            let i = choose|i: int|
                0 <= i < front.len() && #[trigger] front[i] == row && row <= caret && forall|j: int|
                    i < j < front.len() ==> #[trigger] front[j] > caret;
            assert(paragraphs[i] == row);
            assert forall|j: int| i < j < paragraphs.len() implies #[trigger] paragraphs[j]
                > caret by {
                if j < front.len() {
                    assert(front[j] > caret);
                }
            }
        } else {
            assert forall|j: int| 0 <= j < paragraphs.len() implies #[trigger] paragraphs[j]
                > caret by {
                if j < front.len() {
                    assert(front[j] > caret);
                }
            }
        }
    } else if paragraphs.len() > 0 {
        assert(paragraphs[paragraphs.len() - 1] <= caret);
    }
}

/// The characters of a text that are no white space.
pub open spec fn marks(text: Seq<char>) -> Seq<char>
    decreases text.len(),
{
    if text.len() == 0 {
        Seq::empty()
    } else if is_space(text.last()) {
        marks(text.drop_last())
    } else {
        marks(text.drop_last()).push(text.last())
    }
}

/// A squeezed text keeps every character that is no white space, in order, has
/// no white space at its ends, and between words a single space exactly where
/// the text had some.
pub proof fn squeezing_keeps_the_words(text: Seq<char>)
    ensures
        is_space(' ') ==> marks(squeezed(text)) == marks(text),
        squeezed(text).len() > 0 ==> !is_space(squeezed(text).last()) && !is_space(
            squeezed(text)[0],
        ),
        forall|i: int|
            0 <= i < squeezed(text).len() && is_space(#[trigger] squeezed(text)[i]) ==> squeezed(
                text,
            )[i] == ' ' && 0 < i < squeezed(text).len() - 1 && !is_space(squeezed(text)[i - 1])
                && !is_space(squeezed(text)[i + 1]),
        (forall|i: int| 0 <= i < text.len() ==> !is_space(#[trigger] text[i])) ==> squeezed(text)
            == text,
    decreases text.len(),
{
    if text.len() > 0 {
        let front = text.drop_last();
        squeezing_keeps_the_words(front);
        let earlier = squeezed(front);
        let all = squeezed(text);
        let c = text.last();
        reveal_with_fuel(marks, 3);
        if is_space(c) {
        } else if earlier.len() > 0 && is_space(front.last()) {
            assert(all =~= earlier.push(' ').push(c));
            assert(all.drop_last() =~= earlier.push(' '));
            assert(earlier.push(' ').drop_last() =~= earlier);
            assert forall|i: int| 0 <= i < all.len() && is_space(#[trigger] all[i]) implies all[i]
                == ' ' && 0 < i < all.len() - 1 && !is_space(all[i - 1]) && !is_space(
                all[i + 1],
            ) by {
                if i < earlier.len() {
                    assert(all[i] == earlier[i]);
                    assert(all[i + 1] == earlier[i + 1]);
                    assert(all[i - 1] == earlier[i - 1]);
                } else {
                    assert(all[i - 1] == earlier.last());
                }
            }
            assert(all[0] == earlier[0]);
        } else {
            assert(all =~= earlier.push(c));
            assert(all.drop_last() =~= earlier);
            assert forall|i: int| 0 <= i < all.len() && is_space(#[trigger] all[i]) implies all[i]
                == ' ' && 0 < i < all.len() - 1 && !is_space(all[i - 1]) && !is_space(
                all[i + 1],
            ) by {
                assert(all[i] == earlier[i]);
                assert(all[i + 1] == earlier[i + 1]);
                assert(all[i - 1] == earlier[i - 1]);
            }
            if earlier.len() > 0 {
                assert(all[0] == earlier[0]);
            }
        }
        if forall|i: int| 0 <= i < text.len() ==> !is_space(#[trigger] text[i]) {
            assert forall|i: int| 0 <= i < front.len() implies !is_space(#[trigger] front[i]) by {
                assert(text[i] == front[i]);
            }
            assert(!is_space(text[text.len() - 1]));
            if front.len() > 0 {
                assert(!is_space(text[front.len() - 1]));
            }
            assert(all =~= text);
        }
    }
}

/// The places are those of the headings that show while some are collapsed,
/// and the rows are theirs.
pub open spec fn rows_show(
    rows: Seq<usize>,
    entries: Seq<EntryValue>,
    collapsed: Set<usize>,
    places: Seq<int>,
) -> bool {
    &&& rows.len() == places.len()
    &&& forall|p: int|
        #![trigger places[p]]
        #![trigger rows[p]]
        0 <= p < places.len() ==> 0 <= places[p] < entries.len() && rows[p]
            == entries[places[p]].paragraph_ix
    &&& forall|p: int, q: int|
        0 <= p < q < places.len() ==> #[trigger] places[p] < #[trigger] places[q]
    &&& forall|j: int|
        0 <= j < entries.len() ==> (#[trigger] is_hidden(entries, collapsed, j)
            <==> !places.contains(j))
}

/// The rows that are collected from the tree of a list of headings are those
/// that no collapsed row hides.
pub proof fn collected_rows_are_those_not_hidden(
    entries: Vec<OutlineEntry>,
    nodes: Vec<OutlineNode>,
    collapsed: HashSet<usize>,
    output: &mut Vec<usize>,
) -> (places: Seq<int>)
    requires
        call_ensures(outline_nodes_from_entries, (&entries,), nodes),
        call_ensures(
            collect_visible_outline_paragraphs,
            (&nodes, &collapsed, output),
            (),
        ),
        old(output)@.len() == 0,
    ensures
        rows_show(final(output)@, entry_values(entries@), collapsed@, places),
{
    let values = entry_values(entries@);
    assert(final(output)@ =~= visible(tree_of(values), collapsed@));
    collapsed_rows_hide_what_stands_under_them(values, collapsed@)
}

/// What the outline keeps of a document shows its headings: after an edit is
/// taken and the rows are rebuilt, they are those of the document's headings
/// that no collapsed row hides.
pub proof fn a_rebuilt_outline_shows_the_document(
    cache: &mut OutlineCache,
    shown: &mut OutlineCache,
    paragraphs: Vec<OutlineParagraph>,
    edit_generation: u64,
    changed: bool,
    revision: u64,
    collapsed: HashSet<usize>,
) -> (places: Seq<int>)
    requires
        call_ensures(
            OutlineCache::update_signature,
            (cache, &paragraphs, edit_generation),
            changed,
        ),
        *old(shown) == *final(cache),
        call_ensures(OutlineCache::rebuild_visible, (shown, revision, &collapsed), ()),
    ensures
        rows_show(
            final(shown).visible_paragraphs@,
            headings_of(paragraphs@),
            collapsed@,
            places,
        ),
        final(shown).row_guides@.len() == places.len(),
        changed ==> final(cache).visible_revision == u64::MAX,
        final(shown).visible_revision == revision,
{
    let entries = headings_of(paragraphs@);
    assert(node_values(final(cache).nodes@) == tree_of(entries));
    guides_show_where_a_row_stands(tree_of(entries), collapsed@, 0, Seq::empty());
    assert(guide_values(final(shown).row_guides@).len() == final(shown).row_guides@.len());
    collapsed_rows_hide_what_stands_under_them(entries, collapsed@)
}

/// The caret's row is the last that shows at or before it.
pub proof fn the_row_found_for_a_caret(rows: Vec<usize>, caret: usize, row: Option<usize>)
    requires
        call_ensures(active_visible_outline_paragraph_from_visible, (&rows, caret), row),
        forall|i: int, j: int| 0 <= i < j < rows@.len() ==> #[trigger] rows@[i] < #[trigger] rows@[j],
    ensures
        match row {
            Some(row) => row <= caret && rows@.contains(row) && forall|j: int|
                0 <= j < rows@.len() && #[trigger] rows@[j] <= caret ==> rows@[j] <= row,
            None => forall|j: int| 0 <= j < rows@.len() ==> #[trigger] rows@[j] > caret,
        },
{
    the_carets_row_is_the_last_before_it(rows@, caret);
    if let Some(row) = row {
        let i = choose|i: int|
            0 <= i < rows@.len() && #[trigger] rows@[i] == row && row <= caret && forall|j: int|
                i < j < rows@.len() ==> #[trigger] rows@[j] > caret;
        assert forall|j: int| 0 <= j < rows@.len() && #[trigger] rows@[j] <= caret implies rows@[j]
            <= row by {
            if j < i {
                assert(rows@[j] < rows@[i]);
            }
        }
    }
}

} // verus!
