//! The outline of a document: its headings as a tree, what of it is visible,
//! and how its rows are labelled.

use crate::pane::PanelId;
use crate::styles::ParagraphStyle;
use crate::text::{
    byte_len, char_width, chars_of, decimal, front_within, is_space, lemma_byte_len_concat,
    lemma_byte_len_push, parse_number, parsed, push_decimal, same_text, starts_with_text,
    text_between, width_of,
};
use std::collections::HashSet;
use vstd::prelude::*;
use vstd::string::StringExecFns;

verus! {

/// A paragraph as the outline reads it.
#[derive(Debug)]
pub struct OutlineParagraph {
    pub style: ParagraphStyle,
    pub text: String,
}

/// A heading: its paragraph, its depth in the hierarchy and its label.
#[derive(Debug)]
pub struct OutlineEntry {
    pub paragraph_ix: usize,
    pub level: usize,
    pub text: String,
}

#[derive(Debug)]
pub struct OutlineSignature {
    pub paragraph_count: usize,
    pub entries: Vec<OutlineEntry>,
}

/// A heading with the headings under it.
#[derive(Debug)]
pub struct OutlineNode {
    pub paragraph_ix: usize,
    pub level: usize,
    pub text: String,
    pub children: Vec<OutlineNode>,
}

/// The guide lines beside an outline row.
#[derive(Debug)]
pub struct OutlineRowGuides {
    pub ancestor_depths: Vec<usize>,
    pub extends_from_toggle: bool,
}

/// A heading as a value.
#[verifier::ext_equal]
pub struct EntryValue {
    pub paragraph_ix: usize,
    pub level: usize,
    pub text: Seq<char>,
}

/// A heading with the headings under it, as a value.
#[verifier::ext_equal]
pub struct NodeValue {
    pub paragraph_ix: usize,
    pub level: usize,
    pub text: Seq<char>,
    pub children: Seq<NodeValue>,
}

/// Guide lines as a value.
#[verifier::ext_equal]
pub struct GuideValue {
    pub ancestor_depths: Seq<usize>,
    pub extends_from_toggle: bool,
}

impl View for OutlineEntry {
    type V = EntryValue;

    open spec fn view(&self) -> EntryValue {
        EntryValue { paragraph_ix: self.paragraph_ix, level: self.level, text: self.text@ }
    }
}

impl View for OutlineRowGuides {
    type V = GuideValue;

    open spec fn view(&self) -> GuideValue {
        GuideValue {
            ancestor_depths: self.ancestor_depths@,
            extends_from_toggle: self.extends_from_toggle,
        }
    }
}

pub open spec fn entry_values(entries: Seq<OutlineEntry>) -> Seq<EntryValue> {
    entries.map_values(|entry: OutlineEntry| entry@)
}

pub open spec fn guide_values(guides: Seq<OutlineRowGuides>) -> Seq<GuideValue> {
    guides.map_values(|guide: OutlineRowGuides| guide@)
}

pub open spec fn node_value(node: OutlineNode) -> NodeValue
    decreases node,
{
    NodeValue {
        paragraph_ix: node.paragraph_ix,
        level: node.level,
        text: node.text@,
        children: node_values(node.children@),
    }
}

pub open spec fn node_values(nodes: Seq<OutlineNode>) -> Seq<NodeValue>
    decreases nodes,
{
    if nodes.len() == 0 {
        Seq::empty()
    } else {
        node_values(nodes.drop_last()).push(node_value(nodes.last()))
    }
}

proof fn lemma_node_values(nodes: Seq<OutlineNode>)
    ensures
        node_values(nodes).len() == nodes.len(),
        forall|k: int|
            0 <= k < nodes.len() ==> #[trigger] node_values(nodes)[k] == node_value(nodes[k]),
    decreases nodes.len(),
{
    if nodes.len() > 0 {
        lemma_node_values(nodes.drop_last());
    }
}

/// The depth of a heading style; none for a style that heads nothing.
pub open spec fn style_level(style: ParagraphStyle) -> Option<usize> {
    match style {
        ParagraphStyle::Pocket => Some(0usize),
        ParagraphStyle::Hat => Some(1usize),
        ParagraphStyle::Block => Some(2usize),
        ParagraphStyle::Tag => Some(3usize),
        ParagraphStyle::Analytic => Some(3usize),
        _ => None,
    }
}

pub fn outline_level(style: ParagraphStyle) -> (level: Option<usize>)
    ensures
        level == style_level(style),
{
    match style {
        ParagraphStyle::Pocket => Some(0),
        ParagraphStyle::Hat => Some(1),
        ParagraphStyle::Block => Some(2),
        ParagraphStyle::Tag | ParagraphStyle::Analytic => Some(3),
        ParagraphStyle::Normal | ParagraphStyle::Undertag | ParagraphStyle::Other(_) => None,
    }
}

/// The name of an outline depth.
pub fn outline_level_name(level: usize) -> (name: &'static str)
    ensures
        name@ == (if level == 0 {
            "Pocket"@
        } else if level == 1 {
            "Hat"@
        } else if level == 2 {
            "Block"@
        } else if level == 3 {
            "Tag / Analytic"@
        } else {
            "Entry"@
        }),
{
    match level {
        0 => "Pocket",
        1 => "Hat",
        2 => "Block",
        3 => "Tag / Analytic",
        _ => "Entry",
    }
}

/// The tree's id for a paragraph's row.
pub open spec fn item_id(paragraph_ix: usize) -> Seq<char> {
    "paragraph:"@ + decimal(paragraph_ix as nat)
}

pub fn outline_item_id(paragraph_ix: usize) -> (id: String)
    ensures
        id@ == item_id(paragraph_ix),
{
    let mut id = String::from_str("paragraph:");
    push_decimal(&mut id, paragraph_ix as u128);
    id
}

/// The paragraph that a row's id names.
pub open spec fn id_paragraph(id: Seq<char>) -> Option<int> {
    if crate::text::begins_with(id, "paragraph:"@) {
        parsed(id.skip(10), 10, usize::MAX as int)
    } else {
        None
    }
}

pub fn outline_paragraph_ix(id: &str) -> (paragraph: Option<usize>)
    ensures
        match paragraph {
            Some(paragraph) => id_paragraph(id@) == Some(paragraph as int),
            None => id_paragraph(id@) is None,
        },
{
    proof {
        reveal_strlit("paragraph:");
    }
    assert("paragraph:"@.len() == 10);
    if !starts_with_text(id, "paragraph:") {
        return None;
    }
    let chars = chars_of(id);
    let digits = text_between(&chars, 10, chars.len());
    assert(digits@ =~= id@.skip(10));
    match parse_number(digits.as_str(), 10, usize::MAX as u128) {
        Some(number) => Some(number as usize),
        None => None,
    }
}

/// A row's id names the paragraph it was made for.
pub proof fn row_ids_read_back(paragraph_ix: usize)
    ensures
        id_paragraph(item_id(paragraph_ix)) == Some(paragraph_ix as int),
{
    reveal_strlit("paragraph:");
    let id = item_id(paragraph_ix);
    assert("paragraph:"@.len() == 10);
    assert(id.subrange(0, 10) =~= "paragraph:"@);
    assert(id.skip(10) =~= decimal(paragraph_ix as nat));
    crate::text::numerals_read_back(paragraph_ix as nat, 10, usize::MAX as int);
}

/// The index of the last heading above a depth, none where all are at it or
/// below.
pub open spec fn parent_at(nodes: Seq<NodeValue>, level: usize, upto: int) -> Option<int>
    decreases upto,
{
    if upto <= 0 {
        None
    } else if nodes[upto - 1].level < level {
        Some(upto - 1)
    } else {
        parent_at(nodes, level, upto - 1)
    }
}

/// The tree with a heading added: at the top for the first depth, else under
/// the last heading above its depth, else at the top.
pub open spec fn inserted(nodes: Seq<NodeValue>, node: NodeValue) -> Seq<NodeValue>
    decreases nodes,
{
    if node.level == 0 {
        nodes.push(node)
    } else {
        let at = parent_at(nodes, node.level, nodes.len() as int);
        if at is Some && 0 <= at->0 < nodes.len() {
            let parent = nodes[at->0];
            nodes.update(
                at->0,
                NodeValue { children: inserted(parent.children, node), ..parent },
            )
        } else {
            nodes.push(node)
        }
    }
}

/// A heading with nothing under it yet.
pub open spec fn lone(entry: EntryValue) -> NodeValue {
    NodeValue {
        paragraph_ix: entry.paragraph_ix,
        level: entry.level,
        text: entry.text,
        children: Seq::empty(),
    }
}

/// The tree of a list of headings.
pub open spec fn tree_of(entries: Seq<EntryValue>) -> Seq<NodeValue>
    decreases entries.len(),
{
    if entries.len() == 0 {
        Seq::empty()
    } else {
        inserted(tree_of(entries.drop_last()), lone(entries.last()))
    }
}

fn insert_outline_node(nodes: &mut Vec<OutlineNode>, node: OutlineNode)
    ensures
        node_values(final(nodes)@) == inserted(node_values(old(nodes)@), node_value(node)),
    decreases old(nodes)@,
{
    let ghost before = nodes@;
    proof {
        lemma_node_values(before);
    }
    if node.level == 0 {
        nodes.push(node);
        assert(nodes@.drop_last() =~= before);
        return;
    }
    let mut at: usize = nodes.len();
    let ghost values = node_values(before);
    while at > 0 && nodes[at - 1].level >= node.level
        invariant
            nodes@ == before,
            values == node_values(before),
            values.len() == before.len(),
            forall|k: int| 0 <= k < before.len() ==> #[trigger] values[k] == node_value(before[k]),
            at <= nodes@.len(),
            parent_at(values, node.level, values.len() as int) == parent_at(
                values,
                node.level,
                at as int,
            ),
        decreases at,
    {
        assert(values[at - 1].level == before[at - 1].level);
        at = at - 1;
    }
    if at > 0 {
        assert(values[at - 1] == node_value(before[at - 1]));
        let ghost parent = nodes@[at - 1];
        insert_outline_node(&mut nodes[at - 1].children, node);
        proof {
            lemma_node_values(nodes@);
            let after = node_values(nodes@);
            let expected = inserted(values, node_value(node));
            assert(after.len() == expected.len());
            assert forall|k: int| 0 <= k < after.len() implies after[k] == expected[k] by {
                assert(after[k] == node_value(nodes@[k]));
                if k != at - 1 {
                    assert(nodes@[k] == before[k]);
                }
            }
            assert(after =~= expected);
        }
    } else {
        nodes.push(node);
        assert(nodes@.drop_last() =~= before);
    }
}

/// Builds the tree of a list of headings.
pub fn outline_nodes_from_entries(entries: &Vec<OutlineEntry>) -> (roots: Vec<OutlineNode>)
    ensures
        node_values(roots@) == tree_of(entry_values(entries@)),
{
    let mut roots: Vec<OutlineNode> = Vec::new();
    let ghost values = entry_values(entries@);
    let mut next: usize = 0;
    assert(values.take(0) =~= Seq::empty());
    while next < entries.len()
        invariant
            next <= entries@.len(),
            values == entry_values(entries@),
            node_values(roots@) == tree_of(values.take(next as int)),
        decreases entries@.len() - next,
    {
        let entry = &entries[next];
        let node = OutlineNode {
            paragraph_ix: entry.paragraph_ix,
            level: entry.level,
            text: entry.text.clone(),
            children: Vec::new(),
        };
        proof {
            let taken = values.take(next + 1);
            assert(taken.drop_last() =~= values.take(next as int));
            assert(taken.last() == entry@);
            assert(node_value(node) =~= lone(entry@));
        }
        insert_outline_node(&mut roots, node);
        next = next + 1;
    }
    assert(values.take(next as int) =~= values);
    roots
}

/// The paragraphs of the rows that are not under a collapsed row, in order.
pub open spec fn visible(nodes: Seq<NodeValue>, collapsed: Set<usize>) -> Seq<usize>
    decreases nodes,
{
    if nodes.len() == 0 {
        Seq::empty()
    } else {
        visible(nodes.drop_last(), collapsed) + visible_under(nodes.last(), collapsed)
    }
}

/// A row and what is visible under it.
pub open spec fn visible_under(node: NodeValue, collapsed: Set<usize>) -> Seq<usize>
    decreases node,
{
    if collapsed.contains(node.paragraph_ix) {
        seq![node.paragraph_ix]
    } else {
        seq![node.paragraph_ix] + visible(node.children, collapsed)
    }
}

/// The guides of the visible rows, in order: each row has a line for every
/// expanded row above it, and one of its own where it is expanded over
/// others.
pub open spec fn guides(
    nodes: Seq<NodeValue>,
    collapsed: Set<usize>,
    depth: int,
    ancestors: Seq<usize>,
) -> Seq<GuideValue>
    decreases nodes,
{
    if nodes.len() == 0 {
        Seq::empty()
    } else {
        guides(nodes.drop_last(), collapsed, depth, ancestors) + guides_under(
            nodes.last(),
            collapsed,
            depth,
            ancestors,
        )
    }
}

pub open spec fn guides_under(
    node: NodeValue,
    collapsed: Set<usize>,
    depth: int,
    ancestors: Seq<usize>,
) -> Seq<GuideValue>
    decreases node,
{
    let expanded = node.children.len() > 0 && !collapsed.contains(node.paragraph_ix);
    let own = seq![GuideValue { ancestor_depths: ancestors, extends_from_toggle: expanded }];
    if expanded {
        own + guides(node.children, collapsed, depth + 1, ancestors.push(depth as usize))
    } else {
        own
    }
}

/// The depth of the tree.
pub open spec fn tree_height(nodes: Seq<NodeValue>) -> nat
    decreases nodes,
{
    if nodes.len() == 0 {
        0
    } else {
        let rest = tree_height(nodes.drop_last());
        let last = 1 + tree_height(nodes.last().children);
        if rest > last {
            rest
        } else {
            last
        }
    }
}

proof fn lemma_height_member(nodes: Seq<NodeValue>, k: int)
    requires
        0 <= k < nodes.len(),
    ensures
        tree_height(nodes[k].children) + 1 <= tree_height(nodes),
    decreases nodes.len(),
{
    if k < nodes.len() - 1 {
        lemma_height_member(nodes.drop_last(), k);
    }
}

fn is_collapsed(collapsed: &HashSet<usize>, paragraph_ix: usize) -> (b: bool)
    ensures
        b == collapsed@.contains(paragraph_ix),
{
    broadcast use vstd::std_specs::hash::group_hash_axioms;

    collapsed.contains(&paragraph_ix)
}

/// Appends the visible rows' paragraphs.
pub fn collect_visible_outline_paragraphs(
    nodes: &Vec<OutlineNode>,
    collapsed_items: &HashSet<usize>,
    output: &mut Vec<usize>,
)
    ensures
        final(output)@ == old(output)@ + visible(node_values(nodes@), collapsed_items@),
    decreases nodes@,
{
    let ghost values = node_values(nodes@);
    let ghost before = output@;
    let mut next: usize = 0;
    proof {
        lemma_node_values(nodes@);
    }
    assert(values.take(0) =~= Seq::empty());
    assert(output@ =~= before + visible(values.take(0), collapsed_items@));
    while next < nodes.len()
        invariant
            next <= nodes@.len(),
            values == node_values(nodes@),
            values.len() == nodes@.len(),
            forall|k: int| 0 <= k < nodes@.len() ==> #[trigger] values[k] == node_value(nodes@[k]),
            output@ == before + visible(values.take(next as int), collapsed_items@),
        decreases nodes@.len() - next,
    {
        let node = &nodes[next];
        proof {
            let taken = values.take(next + 1);
            assert(taken.drop_last() =~= values.take(next as int));
            assert(taken.last() == node_value(*node));
        }
        let ghost so_far = output@;
        output.push(node.paragraph_ix);
        if !is_collapsed(collapsed_items, node.paragraph_ix) {
            assert(decreases_to!(nodes@ => nodes@[next as int]));
            collect_visible_outline_paragraphs(&node.children, collapsed_items, output);
        }
        assert(output@ =~= so_far + visible_under(node_value(*node), collapsed_items@));
        assert(output@ =~= before + visible(values.take(next + 1), collapsed_items@));
        next = next + 1;
    }
    assert(values.take(next as int) =~= values);
}

/// Appends the visible rows' guides.
pub fn collect_visible_outline_guides(
    nodes: &Vec<OutlineNode>,
    collapsed_items: &HashSet<usize>,
    output: &mut Vec<OutlineRowGuides>,
)
    requires
        tree_height(node_values(nodes@)) <= usize::MAX,
    ensures
        guide_values(final(output)@) == guide_values(old(output)@) + guides(
            node_values(nodes@),
            collapsed_items@,
            0,
            Seq::empty(),
        ),
{
    let mut ancestor_depths: Vec<usize> = Vec::new();
    collect_visible_outline_guides_with_ancestors(
        nodes,
        collapsed_items,
        0,
        &mut ancestor_depths,
        output,
    );
}

pub fn collect_visible_outline_guides_with_ancestors(
    nodes: &Vec<OutlineNode>,
    collapsed_items: &HashSet<usize>,
    depth: usize,
    ancestor_depths: &mut Vec<usize>,
    output: &mut Vec<OutlineRowGuides>,
)
    requires
        depth + tree_height(node_values(nodes@)) <= usize::MAX,
    ensures
        final(ancestor_depths)@ == old(ancestor_depths)@,
        guide_values(final(output)@) == guide_values(old(output)@) + guides(
            node_values(nodes@),
            collapsed_items@,
            depth as int,
            old(ancestor_depths)@,
        ),
    decreases nodes@,
{
    let ghost values = node_values(nodes@);
    let ghost before = guide_values(output@);
    let ghost ancestors = ancestor_depths@;
    let mut next: usize = 0;
    proof {
        lemma_node_values(nodes@);
    }
    assert(values.take(0) =~= Seq::empty());
    assert(guide_values(output@) =~= before + guides(
        values.take(0),
        collapsed_items@,
        depth as int,
        ancestors,
    ));
    while next < nodes.len()
        invariant
            next <= nodes@.len(),
            values == node_values(nodes@),
            values.len() == nodes@.len(),
            depth + tree_height(values) <= usize::MAX,
            forall|k: int| 0 <= k < nodes@.len() ==> #[trigger] values[k] == node_value(nodes@[k]),
            ancestor_depths@ == ancestors,
            guide_values(output@) == before + guides(
                values.take(next as int),
                collapsed_items@,
                depth as int,
                ancestors,
            ),
        decreases nodes@.len() - next,
    {
        let node = &nodes[next];
        proof {
            let taken = values.take(next + 1);
            assert(taken.drop_last() =~= values.take(next as int));
            assert(taken.last() == node_value(*node));
            lemma_height_member(values, next as int);
            lemma_node_values(node.children@);
        }
        let ghost so_far = guide_values(output@);
        let is_expanded_folder = node.children.len() > 0 && !is_collapsed(
            collapsed_items,
            node.paragraph_ix,
        );
        let own = ancestor_depths.clone();
        assert(own@ =~= ancestors);
        let guide = OutlineRowGuides {
            ancestor_depths: own,
            extends_from_toggle: is_expanded_folder,
        };
        let ghost listed = output@;
        output.push(guide);
        assert(guide_values(output@) =~= guide_values(listed).push(guide@));
        assert(guide_values(output@) =~= so_far + seq![guide@]);
        if is_expanded_folder {
            assert(decreases_to!(nodes@ => nodes@[next as int]));
            ancestor_depths.push(depth);
            collect_visible_outline_guides_with_ancestors(
                &node.children,
                collapsed_items,
                depth + 1,
                ancestor_depths,
                output,
            );
            ancestor_depths.pop();
            assert(ancestor_depths@ =~= ancestors);
        }
        assert(guide_values(output@) =~= so_far + guides_under(
            node_value(*node),
            collapsed_items@,
            depth as int,
            ancestors,
        ));
        assert(guide_values(output@) =~= before + guides(
            values.take(next + 1),
            collapsed_items@,
            depth as int,
            ancestors,
        ));
        next = next + 1;
    }
    assert(values.take(next as int) =~= values);
}

/// Each visible row has its guides.
pub proof fn one_guide_for_each_visible_row(
    nodes: Seq<NodeValue>,
    collapsed: Set<usize>,
    depth: int,
    ancestors: Seq<usize>,
)
    ensures
        guides(nodes, collapsed, depth, ancestors).len() == visible(nodes, collapsed).len(),
    decreases nodes,
{
    if nodes.len() > 0 {
        let node = nodes.last();
        one_guide_for_each_visible_row(nodes.drop_last(), collapsed, depth, ancestors);
        assert(decreases_to!(nodes => nodes[nodes.len() - 1]));
        one_guide_for_each_visible_row(
            node.children,
            collapsed,
            depth + 1,
            ancestors.push(depth as usize),
        );
        if node.children.len() == 0 {
            assert(visible(node.children, collapsed).len() == 0);
        }
        assert(guides_under(node, collapsed, depth, ancestors).len() == visible_under(
            node,
            collapsed,
        ).len());
    }
}

/// A heading's paragraph and those of the headings under it, in tree order.
pub open spec fn preorder(nodes: Seq<NodeValue>) -> Seq<usize>
    decreases nodes,
{
    if nodes.len() == 0 {
        Seq::empty()
    } else {
        preorder(nodes.drop_last()) + seq![nodes.last().paragraph_ix] + preorder(
            nodes.last().children,
        )
    }
}

/// Siblings never go deeper from one to the next, and what stands under a
/// heading is deeper than it.
pub open spec fn levelled(nodes: Seq<NodeValue>, above: int) -> bool
    decreases nodes,
{
    if nodes.len() == 0 {
        true
    } else {
        let last = nodes.last();
        &&& levelled(nodes.drop_last(), above)
        &&& last.level > above
        &&& (nodes.len() > 1 ==> last.level <= nodes[nodes.len() - 2].level)
        &&& levelled(last.children, last.level as int)
    }
}

proof fn lemma_levelled_last(nodes: Seq<NodeValue>, above: int, k: int)
    requires
        levelled(nodes, above),
        0 <= k < nodes.len(),
    ensures
        nodes[k].level >= nodes.last().level,
        nodes[k].level > above,
    decreases nodes.len(),
{
    if k < nodes.len() - 1 {
        lemma_levelled_last(nodes.drop_last(), above, k);
        assert(nodes.drop_last().last() == nodes[nodes.len() - 2]);
    }
}

/// In a levelled list the heading above a depth is the last one or there is
/// none.
proof fn lemma_parent_is_last(nodes: Seq<NodeValue>, above: int, level: usize, upto: int)
    requires
        levelled(nodes, above),
        0 <= upto <= nodes.len(),
        nodes.len() > 0 ==> nodes.last().level >= level,
    ensures
        parent_at(nodes, level, upto) is None,
    decreases upto,
{
    if upto > 0 {
        lemma_levelled_last(nodes, above, upto - 1);
        lemma_parent_is_last(nodes, above, level, upto - 1);
    }
}

proof fn lemma_inserted_in_order(nodes: Seq<NodeValue>, above: int, node: NodeValue)
    requires
        levelled(nodes, above),
        node.level > above,
        node.children.len() == 0,
    ensures
        levelled(inserted(nodes, node), above),
        preorder(inserted(nodes, node)) == preorder(nodes).push(node.paragraph_ix),
        inserted(nodes, node).len() >= nodes.len(),
        inserted(nodes, node).len() > 0,
        nodes.len() > 0 ==> inserted(nodes, node).last().level <= nodes.last().level,
    decreases nodes,
{
    let new = inserted(nodes, node);
    if nodes.len() > 0 && node.level > 0 && nodes.last().level < node.level {
        let last = nodes.last();
        let at = nodes.len() - 1;
        assert(parent_at(nodes, node.level, nodes.len() as int) == Some(at));
        assert(decreases_to!(nodes => nodes[nodes.len() - 1]));
        lemma_inserted_in_order(last.children, last.level as int, node);
        let grown = NodeValue { children: inserted(last.children, node), ..last };
        assert(new =~= nodes.update(at, grown));
        assert(new.drop_last() =~= nodes.drop_last());
        assert(new.last() == grown);
        if nodes.len() > 1 {
            assert(new[new.len() - 2] == nodes[nodes.len() - 2]);
        }
        assert(levelled(grown.children, grown.level as int));
        assert(levelled(new.drop_last(), above));
        assert(levelled(new, above));
        assert(preorder(new) =~= preorder(nodes).push(node.paragraph_ix));
    } else {
        if node.level > 0 {
            lemma_parent_is_last(nodes, above, node.level, nodes.len() as int);
        }
        assert(new =~= nodes.push(node));
        assert(new.drop_last() =~= nodes);
        assert(preorder(node.children) =~= Seq::empty());
        assert(preorder(new) =~= preorder(nodes).push(node.paragraph_ix));
        if nodes.len() > 0 {
            assert(new[new.len() - 2] == nodes.last());
        }
        assert(levelled(node.children, node.level as int));
        assert(levelled(new, above));
    }
}

/// The headings' paragraphs, in order.
pub open spec fn paragraphs_of(entries: Seq<EntryValue>) -> Seq<usize> {
    entries.map_values(|entry: EntryValue| entry.paragraph_ix)
}

/// The outline keeps the document's order: read in tree order it is the list
/// of headings it was made of. Headings stand under headings of a lesser
/// depth alone.
pub proof fn the_outline_keeps_document_order(entries: Seq<EntryValue>)
    ensures
        preorder(tree_of(entries)) == paragraphs_of(entries),
        levelled(tree_of(entries), -1),
    decreases entries.len(),
{
    if entries.len() == 0 {
        assert(preorder(tree_of(entries)) =~= paragraphs_of(entries));
    } else {
        let shorter = entries.drop_last();
        the_outline_keeps_document_order(shorter);
        lemma_inserted_in_order(tree_of(shorter), -1, lone(entries.last()));
        assert(paragraphs_of(entries) =~= paragraphs_of(shorter).push(
            entries.last().paragraph_ix,
        ));
    }
}

/// With nothing collapsed every heading is visible.
pub proof fn an_expanded_outline_shows_every_heading(nodes: Seq<NodeValue>)
    ensures
        visible(nodes, Set::empty()) == preorder(nodes),
    decreases nodes,
{
    if nodes.len() > 0 {
        an_expanded_outline_shows_every_heading(nodes.drop_last());
        assert(decreases_to!(nodes => nodes[nodes.len() - 1]));
        an_expanded_outline_shows_every_heading(nodes.last().children);
        assert(visible_under(nodes.last(), Set::empty()) == seq![nodes.last().paragraph_ix]
            + visible(nodes.last().children, Set::empty()));
        assert(visible(nodes, Set::empty()) =~= preorder(nodes));
    }
}

/// The paragraphs ascend.
pub open spec fn ascending(paragraphs: Seq<usize>) -> bool {
    forall|i: int, j: int|
        0 <= i < j < paragraphs.len() ==> #[trigger] paragraphs[i] < #[trigger] paragraphs[j]
}

proof fn lemma_visible_subsequence(nodes: Seq<NodeValue>, collapsed: Set<usize>)
    requires
        ascending(preorder(nodes)),
    ensures
        ascending(visible(nodes, collapsed)),
        forall|i: int|
            0 <= i < visible(nodes, collapsed).len() ==> preorder(nodes).contains(
                #[trigger] visible(nodes, collapsed)[i],
            ),
    decreases nodes,
{
    if nodes.len() > 0 {
        let front = nodes.drop_last();
        let last = nodes.last();
        let all = preorder(nodes);
        let own = preorder(front);
        let below = preorder(last.children);
        assert(all =~= own + seq![last.paragraph_ix] + below);
        assert forall|i: int, j: int| 0 <= i < j < own.len() implies #[trigger] own[i]
            < #[trigger] own[j] by {
            assert(all[i] < all[j]);
        }
        assert forall|i: int, j: int| 0 <= i < j < below.len() implies #[trigger] below[i]
            < #[trigger] below[j] by {
            assert(all[own.len() + 1 + i] < all[own.len() + 1 + j]);
        }
        lemma_visible_subsequence(front, collapsed);
        assert(decreases_to!(nodes => nodes[nodes.len() - 1]));
        lemma_visible_subsequence(last.children, collapsed);
        let seen_front = visible(front, collapsed);
        let seen_last = visible_under(last, collapsed);
        let seen = visible(nodes, collapsed);
        assert(seen =~= seen_front + seen_last);
        let seen_below = visible(last.children, collapsed);
        assert forall|i: int| 0 <= i < seen.len() implies {
            &&& all.contains(#[trigger] seen[i])
            &&& (i < seen_front.len() ==> seen[i] < last.paragraph_ix)
            &&& (i > seen_front.len() ==> seen[i] > last.paragraph_ix)
        } by {
            if i < seen_front.len() {
                let m = choose|m: int| 0 <= m < own.len() && own[m] == seen_front[i];
                assert(all[m] == seen[i]);
                assert(all[own.len() as int] == last.paragraph_ix);
            } else if i == seen_front.len() {
                assert(all[own.len() as int] == seen[i]);
            } else {
                let k = i - seen_front.len() - 1;
                assert(seen[i] == seen_below[k]);
                let m = choose|m: int| 0 <= m < below.len() && below[m] == seen_below[k];
                assert(all[own.len() + 1 + m] == seen[i]);
                assert(all[own.len() as int] == last.paragraph_ix);
            }
        }
        assert forall|i: int, j: int| 0 <= i < j < seen.len() implies #[trigger] seen[i]
            < #[trigger] seen[j] by {
            if j < seen_front.len() {
                assert(seen_front[i] < seen_front[j]);
            } else if i > seen_front.len() {
                let a = i - seen_front.len() - 1;
                let b = j - seen_front.len() - 1;
                assert(seen_below[a] < seen_below[b]);
            }
        }
    }
}

/// However rows are collapsed, the visible rows of a document's outline
/// ascend and are among its headings.
pub proof fn visible_rows_ascend(entries: Seq<EntryValue>, collapsed: Set<usize>)
    requires
        ascending(paragraphs_of(entries)),
    ensures
        ascending(visible(tree_of(entries), collapsed)),
        forall|i: int|
            0 <= i < visible(tree_of(entries), collapsed).len() ==> paragraphs_of(
                entries,
            ).contains(#[trigger] visible(tree_of(entries), collapsed)[i]),
{
    the_outline_keeps_document_order(entries);
    lemma_visible_subsequence(tree_of(entries), collapsed);
}

/// The last visible row at or before the caret.
pub open spec fn row_at(paragraphs: Seq<usize>, caret: usize) -> Option<usize>
    decreases paragraphs.len(),
{
    if paragraphs.len() == 0 {
        None
    } else if paragraphs.last() <= caret {
        Some(paragraphs.last())
    } else {
        row_at(paragraphs.drop_last(), caret)
    }
}

/// A row at or before the caret: of ascending rows the last such.
pub fn active_visible_outline_paragraph_from_visible(
    visible_paragraphs: &Vec<usize>,
    caret_paragraph: usize,
) -> (row: Option<usize>)
    ensures
        ascending(visible_paragraphs@) ==> row == row_at(visible_paragraphs@, caret_paragraph),
        row matches Some(row) ==> row <= caret_paragraph && visible_paragraphs@.contains(row),
{
    let mut low: usize = 0;
    let mut high: usize = visible_paragraphs.len();
    while low < high
        invariant
            low <= high <= visible_paragraphs@.len(),
            low > 0 ==> visible_paragraphs@[low - 1] <= caret_paragraph,
            ascending(visible_paragraphs@) ==> forall|i: int|
                high <= i < visible_paragraphs@.len() ==> #[trigger] visible_paragraphs@[i]
                    > caret_paragraph,
        decreases high - low,
    {
        let mid: usize = low + (high - low) / 2;
        if visible_paragraphs[mid] <= caret_paragraph {
            low = mid + 1;
        } else {
            proof {
                if ascending(visible_paragraphs@) {
                    assert forall|i: int| mid <= i < visible_paragraphs@.len() implies
                        #[trigger] visible_paragraphs@[i] > caret_paragraph by {
                        if i > mid {
                            assert(visible_paragraphs@[mid as int] < visible_paragraphs@[i]);
                        }
                    }
                }
            }
            high = mid;
        }
    }
    proof {
        if ascending(visible_paragraphs@) {
            lemma_row_at(visible_paragraphs@, caret_paragraph, low as int);
        }
    }
    if low == 0 {
        None
    } else {
        assert(visible_paragraphs@[low - 1] == visible_paragraphs@[low - 1]);
        Some(visible_paragraphs[low - 1])
    }
}

proof fn lemma_row_at(paragraphs: Seq<usize>, caret: usize, k: int)
    requires
        0 <= k <= paragraphs.len(),
        k > 0 ==> paragraphs[k - 1] <= caret,
        forall|i: int| k <= i < paragraphs.len() ==> #[trigger] paragraphs[i] > caret,
    ensures
        row_at(paragraphs, caret) == (if k == 0 {
            None
        } else {
            Some(paragraphs[k - 1])
        }),
    decreases paragraphs.len(),
{
    if paragraphs.len() > k {
        assert(paragraphs[paragraphs.len() - 1] > caret);
        lemma_row_at(paragraphs.drop_last(), caret, k);
    }
}

/// A text with every run of white space inside it as one space and none at
/// its ends.
pub open spec fn squeezed(text: Seq<char>) -> Seq<char>
    decreases text.len(),
{
    if text.len() == 0 {
        Seq::empty()
    } else {
        let front = text.drop_last();
        let earlier = squeezed(front);
        if is_space(text.last()) {
            earlier
        } else if earlier.len() > 0 && is_space(front.last()) {
            earlier.push(' ').push(text.last())
        } else {
            earlier.push(text.last())
        }
    }
}

/// Bytes a row's label keeps of a text that takes more.
pub const LABEL_KEPT_BYTES: usize = 77;

/// A text without a space at its end.
pub open spec fn unspaced(text: Seq<char>) -> Seq<char> {
    if text.len() > 0 && text.last() == ' ' {
        text.drop_last()
    } else {
        text
    }
}

/// A row's label: the squeezed text, cut with dots where it takes too many
/// bytes; a name for an empty one.
pub open spec fn row_label(text: Seq<char>) -> Seq<char> {
    let words = squeezed(text);
    let front = unspaced(front_within(words, LABEL_KEPT_BYTES as int));
    if front.len() == 0 {
        "(empty)"@
    } else if byte_len(words) <= LABEL_KEPT_BYTES {
        words
    } else {
        front + "..."@
    }
}

proof fn lemma_front_of_concat(left: Seq<char>, right: Seq<char>, limit: int)
    requires
        byte_len(left) <= limit,
    ensures
        front_within(left + right, limit) == left + front_within(right, limit - byte_len(left)),
    decreases left.len(),
{
    assert(vstd::utf8::encode_utf8(Seq::<char>::empty()).len() == 0);
    if left.len() == 0 {
        assert(left =~= Seq::empty());
        assert(left + right =~= right);
        assert(left + front_within(right, limit) =~= front_within(right, limit));
    } else {
        let all = left + right;
        let rest = left.skip(1);
        lemma_byte_len_concat(seq![left[0]], rest);
        assert(seq![left[0]] + rest =~= left);
        lemma_byte_len_push(Seq::empty(), left[0]);
        assert(Seq::<char>::empty().push(left[0]) =~= seq![left[0]]);
        lemma_front_of_concat(rest, right, limit - char_width(left[0]));
        assert(all.skip(1) =~= rest + right);
        assert(all[0] == left[0]);
        assert(front_within(all, limit) =~= left + front_within(right, limit - byte_len(left)));
    }
}

proof fn lemma_squeezed_prefix(text: Seq<char>, k: int) -> (rest: Seq<char>)
    requires
        0 <= k <= text.len(),
    ensures
        squeezed(text) == squeezed(text.take(k)) + rest,
    decreases text.len() - k,
{
    if k == text.len() {
        assert(text.take(k) =~= text);
        assert(squeezed(text) + Seq::<char>::empty() =~= squeezed(text));
        Seq::empty()
    } else {
        let rest = lemma_squeezed_prefix(text, k + 1);
        let next = text.take(k + 1);
        assert(next.drop_last() =~= text.take(k));
        let earlier = squeezed(text.take(k));
        let c = next.last();
        let step = if is_space(c) {
            Seq::empty()
        } else if earlier.len() > 0 && is_space(text.take(k).last()) {
            seq![' ', c]
        } else {
            seq![c]
        };
        assert(squeezed(next) =~= earlier + step);
        assert(squeezed(text) =~= earlier + (step + rest));
        step + rest
    }
}

/// Labels a row with a paragraph's text.
pub fn outline_paragraph_label(text: &str) -> (label: String)
    ensures
        label@ == row_label(text@),
{
    let chars = chars_of(text);
    let mut label = String::new();
    let mut bytes: usize = 0;
    let mut pending_space = false;
    let mut truncated = false;
    let mut next: usize = 0;
    assert(text@.take(0) =~= Seq::empty());
    assert(vstd::utf8::encode_utf8(Seq::<char>::empty()).len() == 0);
    while next < chars.len() && !truncated
        invariant
            chars@ == text@,
            next <= text@.len(),
            label@ == squeezed(text@.take(next as int)),
            bytes == byte_len(label@),
            bytes <= LABEL_KEPT_BYTES,
            (bytes == 0) == (label@.len() == 0),
            label@.len() > 0 ==> label@.last() != ' ',
            pending_space == (label@.len() > 0 && next > 0 && is_space(text@[next - 1])),
            truncated ==> next < text@.len() && !is_space(text@[next as int]) && bytes + (
            if pending_space {
                1int
            } else {
                0
            }) + char_width(text@[next as int]) > LABEL_KEPT_BYTES,
        decreases text@.len() - next + (if truncated { 0int } else { 1 }),
    {
        let c = chars[next];
        let ghost taken = text@.take(next + 1);
        proof {
            assert(taken.drop_last() =~= text@.take(next as int));
            assert(taken.last() == c);
            if next > 0 {
                assert(text@.take(next as int).last() == text@[next - 1]);
            }
        }
        if c.is_whitespace() {
            pending_space = bytes > 0;
            next = next + 1;
        } else {
            let space: usize = if pending_space {
                1
            } else {
                0
            };
            if bytes + space + width_of(c) > LABEL_KEPT_BYTES {
                truncated = true;
            } else {
                let ghost before = label@;
                if pending_space {
                    label.push(' ');
                    proof {
                        lemma_byte_len_push(before, ' ');
                    }
                }
                let ghost middle = label@;
                label.push(c);
                proof {
                    lemma_byte_len_push(middle, c);
                }
                bytes = bytes + space + width_of(c);
                pending_space = false;
                next = next + 1;
            }
        }
    }
    let ghost words = squeezed(text@);
    let ghost kept = label@;
    proof {
        if !truncated {
            assert(text@.take(next as int) =~= text@);
            lemma_front_of_concat(words, Seq::empty(), LABEL_KEPT_BYTES as int);
            assert(words + Seq::<char>::empty() =~= words);
            assert(front_within(words, LABEL_KEPT_BYTES as int) =~= words);
        } else {
            let c = text@[next as int];
            let after = text@.take(next + 1);
            assert(after.drop_last() =~= text@.take(next as int));
            assert(after.last() == c);
            if next > 0 {
                assert(text@.take(next as int).last() == text@[next - 1]);
            }
            let rest = lemma_squeezed_prefix(text@, next + 1);
            let tail = if pending_space {
                seq![' ', c] + rest
            } else {
                seq![c] + rest
            };
            assert(words =~= kept + tail);
            lemma_front_of_concat(kept, tail, LABEL_KEPT_BYTES as int);
            let left = LABEL_KEPT_BYTES - byte_len(kept);
            lemma_byte_len_concat(kept, tail);
            if pending_space {
                assert(tail.skip(1) =~= seq![c] + rest);
                assert(tail.skip(1)[0] == c);
                assert(tail[0] == ' ');
                if left >= 1 {
                    assert(front_within(tail.skip(1), left - 1) =~= Seq::empty());
                    assert(front_within(tail, left) =~= seq![' ']);
                    assert(unspaced(kept + seq![' ']) =~= kept);
                } else {
                    assert(front_within(tail, left) =~= Seq::empty());
                    assert(kept + Seq::<char>::empty() =~= kept);
                }
                lemma_byte_len_concat(seq![' ', c], rest);
                lemma_byte_len_push(seq![' '], c);
                lemma_byte_len_push(Seq::empty(), ' ');
                assert(Seq::<char>::empty().push(' ') =~= seq![' ']);
                assert(seq![' '].push(c) =~= seq![' ', c]);
            } else {
                assert(tail[0] == c);
                assert(front_within(tail, left) =~= Seq::empty());
                assert(kept + Seq::<char>::empty() =~= kept);
                lemma_byte_len_concat(seq![c], rest);
                lemma_byte_len_push(Seq::empty(), c);
                assert(Seq::<char>::empty().push(c) =~= seq![c]);
            }
            assert(byte_len(words) > LABEL_KEPT_BYTES);
        }
    }
    if bytes == 0 {
        label = String::from_str("(empty)");
    } else if truncated {
        label.append("...");
    }
    label
}

/// The headings of a document, in order.
pub open spec fn headings_of(paragraphs: Seq<OutlineParagraph>) -> Seq<EntryValue>
    decreases paragraphs.len(),
{
    if paragraphs.len() == 0 {
        Seq::empty()
    } else {
        let earlier = headings_of(paragraphs.drop_last());
        let paragraph = paragraphs.last();
        match style_level(paragraph.style) {
            None => earlier,
            Some(level) => earlier.push(
                EntryValue {
                    paragraph_ix: (paragraphs.len() - 1) as usize,
                    level,
                    text: row_label(paragraph.text@),
                },
            ),
        }
    }
}

/// A document's headings stand in ascending paragraphs.
pub proof fn headings_ascend(paragraphs: Seq<OutlineParagraph>)
    requires
        paragraphs.len() <= usize::MAX,
    ensures
        ascending(paragraphs_of(headings_of(paragraphs))),
        forall|i: int|
            0 <= i < headings_of(paragraphs).len() ==> (#[trigger] headings_of(
                paragraphs,
            )[i]).paragraph_ix < paragraphs.len(),
    decreases paragraphs.len(),
{
    if paragraphs.len() > 0 {
        let front = paragraphs.drop_last();
        headings_ascend(front);
        let earlier = headings_of(front);
        let all = headings_of(paragraphs);
        let rows = paragraphs_of(all);
        assert forall|i: int, j: int| 0 <= i < j < rows.len() implies #[trigger] rows[i]
            < #[trigger] rows[j] by {
            assert(all[i] == earlier[i]);
            assert(earlier[i].paragraph_ix < front.len());
            if j < earlier.len() {
                assert(paragraphs_of(earlier)[i] < paragraphs_of(earlier)[j]);
                assert(all[j] == earlier[j]);
            }
        }
    }
}

/// The headings of a document.
pub fn outline_signature(paragraphs: &Vec<OutlineParagraph>) -> (signature: OutlineSignature)
    ensures
        signature.paragraph_count == paragraphs@.len(),
        entry_values(signature.entries@) == headings_of(paragraphs@),
{
    let mut entries: Vec<OutlineEntry> = Vec::new();
    let mut next: usize = 0;
    assert(paragraphs@.take(0) =~= Seq::empty());
    assert(entry_values(entries@) =~= Seq::empty());
    while next < paragraphs.len()
        invariant
            next <= paragraphs@.len(),
            entry_values(entries@) == headings_of(paragraphs@.take(next as int)),
        decreases paragraphs@.len() - next,
    {
        proof {
            let taken = paragraphs@.take(next + 1);
            assert(taken.drop_last() =~= paragraphs@.take(next as int));
            assert(taken.last() == paragraphs@[next as int]);
        }
        let ghost before = entries@;
        if let Some(level) = outline_level(paragraphs[next].style) {
            let text = outline_paragraph_label(paragraphs[next].text.as_str());
            let entry = OutlineEntry { paragraph_ix: next, level, text };
            entries.push(entry);
            assert(entry_values(entries@) =~= entry_values(before).push(entry@));
        }
        next = next + 1;
    }
    assert(paragraphs@.take(next as int) =~= paragraphs@);
    OutlineSignature { paragraph_count: paragraphs.len(), entries }
}

fn same_entries(left: &Vec<OutlineEntry>, right: &Vec<OutlineEntry>) -> (same: bool)
    ensures
        same == (entry_values(left@) == entry_values(right@)),
{
    let ghost a = entry_values(left@);
    let ghost b = entry_values(right@);
    if left.len() != right.len() {
        assert(a.len() != b.len());
        return false;
    }
    let mut next: usize = 0;
    while next < left.len()
        invariant
            a == entry_values(left@),
            b == entry_values(right@),
            left@.len() == right@.len(),
            next <= left@.len(),
            forall|i: int| 0 <= i < next ==> #[trigger] a[i] == b[i],
        decreases left@.len() - next,
    {
        let l = &left[next];
        let r = &right[next];
        if l.paragraph_ix != r.paragraph_ix || l.level != r.level || !same_text(
            l.text.as_str(),
            r.text.as_str(),
        ) {
            assert(a[next as int] != b[next as int]);
            return false;
        }
        assert(a[next as int] =~= b[next as int]);
        next = next + 1;
    }
    assert(a =~= b);
    true
}

/// A row of the outline's tree view.
#[derive(Debug)]
pub struct OutlineTreeItem {
    pub id: String,
    pub label: String,
    pub expanded: bool,
    pub children: Vec<OutlineTreeItem>,
}

/// A tree view row as a value.
#[verifier::ext_equal]
pub struct ItemValue {
    pub id: Seq<char>,
    pub label: Seq<char>,
    pub expanded: bool,
    pub children: Seq<ItemValue>,
}

pub open spec fn item_value(item: OutlineTreeItem) -> ItemValue
    decreases item,
{
    ItemValue {
        id: item.id@,
        label: item.label@,
        expanded: item.expanded,
        children: item_values(item.children@),
    }
}

pub open spec fn item_values(items: Seq<OutlineTreeItem>) -> Seq<ItemValue>
    decreases items,
{
    if items.len() == 0 {
        Seq::empty()
    } else {
        item_values(items.drop_last()).push(item_value(items.last()))
    }
}

/// The tree view's rows for the headings: a heading is expanded unless it is
/// collapsed.
pub open spec fn items_for(nodes: Seq<NodeValue>, collapsed: Set<usize>) -> Seq<ItemValue>
    decreases nodes,
{
    if nodes.len() == 0 {
        Seq::empty()
    } else {
        items_for(nodes.drop_last(), collapsed).push(item_for(nodes.last(), collapsed))
    }
}

pub open spec fn item_for(node: NodeValue, collapsed: Set<usize>) -> ItemValue
    decreases node,
{
    ItemValue {
        id: item_id(node.paragraph_ix),
        label: node.text,
        expanded: !collapsed.contains(node.paragraph_ix),
        children: items_for(node.children, collapsed),
    }
}

fn outline_tree_items(nodes: &Vec<OutlineNode>, collapsed_items: &HashSet<usize>) -> (items: Vec<
    OutlineTreeItem,
>)
    ensures
        item_values(items@) == items_for(node_values(nodes@), collapsed_items@),
    decreases nodes@,
{
    let ghost values = node_values(nodes@);
    proof {
        lemma_node_values(nodes@);
    }
    let mut items: Vec<OutlineTreeItem> = Vec::new();
    let mut next: usize = 0;
    assert(values.take(0) =~= Seq::empty());
    while next < nodes.len()
        invariant
            next <= nodes@.len(),
            values == node_values(nodes@),
            values.len() == nodes@.len(),
            forall|k: int| 0 <= k < nodes@.len() ==> #[trigger] values[k] == node_value(nodes@[k]),
            item_values(items@) == items_for(values.take(next as int), collapsed_items@),
        decreases nodes@.len() - next,
    {
        let node = &nodes[next];
        proof {
            let taken = values.take(next + 1);
            assert(taken.drop_last() =~= values.take(next as int));
            assert(taken.last() == node_value(*node));
        }
        assert(decreases_to!(nodes@ => nodes@[next as int]));
        let children = outline_tree_items(&node.children, collapsed_items);
        let item = OutlineTreeItem {
            id: outline_item_id(node.paragraph_ix),
            label: node.text.clone(),
            expanded: !is_collapsed(collapsed_items, node.paragraph_ix),
            children,
        };
        let ghost before = items@;
        items.push(item);
        assert(items@.drop_last() =~= before);
        assert(item_value(item) =~= item_for(node_value(*node), collapsed_items@));
        next = next + 1;
    }
    assert(values.take(next as int) =~= values);
    items
}

/// The outline of the document on top, kept between frames.
#[derive(Debug)]
pub struct OutlineCache {
    pub document_id: PanelId,
    pub edit_generation: u64,
    pub signature: OutlineSignature,
    pub visible_revision: u64,
    pub nodes: Vec<OutlineNode>,
    pub visible_paragraphs: Vec<usize>,
    pub row_guides: Vec<OutlineRowGuides>,
    pub tree_items: Vec<OutlineTreeItem>,
}

impl OutlineCache {
    /// The tree is that of the headings it was last given.
    pub open spec fn in_step(self) -> bool {
        node_values(self.nodes@) == tree_of(entry_values(self.signature.entries@))
    }

    /// The rows shown are those that the collapsed rows leave visible.
    pub open spec fn shows(self, collapsed: Set<usize>) -> bool {
        &&& self.visible_paragraphs@ == visible(node_values(self.nodes@), collapsed)
        &&& guide_values(self.row_guides@) == guides(
            node_values(self.nodes@),
            collapsed,
            0,
            Seq::empty(),
        )
        &&& item_values(self.tree_items@) == items_for(node_values(self.nodes@), collapsed)
    }

    /// A cache with its tree and no rows yet.
    pub fn new(document_id: PanelId, edit_generation: u64, signature: OutlineSignature) -> (cache:
        Self)
        ensures
            cache.in_step(),
            cache.document_id == document_id,
            cache.edit_generation == edit_generation,
            cache.signature == signature,
            cache.visible_revision == u64::MAX,
            cache.visible_paragraphs@.len() == 0,
            cache.row_guides@.len() == 0,
            cache.tree_items@.len() == 0,
    {
        let nodes = outline_nodes_from_entries(&signature.entries);
        OutlineCache {
            document_id,
            edit_generation,
            signature,
            visible_revision: u64::MAX,
            nodes,
            visible_paragraphs: Vec::new(),
            row_guides: Vec::new(),
            tree_items: Vec::new(),
        }
    }

    /// Rebuilds the rows for the rows that are collapsed now.
    pub fn rebuild_visible(&mut self, revision: u64, collapsed_items: &HashSet<usize>)
        requires
            tree_height(node_values(old(self).nodes@)) <= usize::MAX,
        ensures
            final(self).shows(collapsed_items@),
            *final(self) == (OutlineCache {
                visible_revision: revision,
                visible_paragraphs: final(self).visible_paragraphs,
                row_guides: final(self).row_guides,
                tree_items: final(self).tree_items,
                ..*old(self)
            }),
    {
        let mut visible_paragraphs: Vec<usize> = Vec::new();
        collect_visible_outline_paragraphs(&self.nodes, collapsed_items, &mut visible_paragraphs);
        let mut row_guides: Vec<OutlineRowGuides> = Vec::new();
        assert(guide_values(row_guides@) =~= Seq::empty());
        collect_visible_outline_guides(&self.nodes, collapsed_items, &mut row_guides);
        let tree_items = outline_tree_items(&self.nodes, collapsed_items);
        proof {
            let rows = visible(node_values(self.nodes@), collapsed_items@);
            assert(Seq::<usize>::empty() + rows =~= rows);
            let lines = guides(node_values(self.nodes@), collapsed_items@, 0, Seq::empty());
            assert(Seq::<GuideValue>::empty() + lines =~= lines);
        }
        self.visible_paragraphs = visible_paragraphs;
        self.row_guides = row_guides;
        self.tree_items = tree_items;
        self.visible_revision = revision;
    }

    /// Takes the document after an edit; says whether its headings changed. A
    /// changed tree asks for its rows to be rebuilt.
    pub fn update_signature(&mut self, paragraphs: &Vec<OutlineParagraph>, edit_generation: u64) -> (
        changed: bool)
        requires
            old(self).in_step(),
        ensures
            final(self).in_step(),
            changed == !(old(self).signature.paragraph_count == paragraphs@.len() && entry_values(
                old(self).signature.entries@,
            ) == headings_of(paragraphs@)),
            final(self).signature.paragraph_count == paragraphs@.len(),
            entry_values(final(self).signature.entries@) == headings_of(paragraphs@),
            node_values(final(self).nodes@) == tree_of(headings_of(paragraphs@)),
            *final(self) == (OutlineCache {
                edit_generation,
                signature: final(self).signature,
                nodes: if changed {
                    final(self).nodes
                } else {
                    old(self).nodes
                },
                visible_revision: if changed {
                    u64::MAX
                } else {
                    old(self).visible_revision
                },
                ..*old(self)
            }),
    {
        let signature = outline_signature(paragraphs);
        let unchanged = self.signature.paragraph_count == signature.paragraph_count && same_entries(
            &self.signature.entries,
            &signature.entries,
        );
        self.signature = signature;
        self.edit_generation = edit_generation;
        if unchanged {
            return false;
        }
        self.nodes = outline_nodes_from_entries(&self.signature.entries);
        self.visible_revision = u64::MAX;
        true
    }

    /// The outline rows that hold a search match: for each matched paragraph
    /// the row it stands under.
    pub fn search_match_outline_paragraphs(&self, matched: &Vec<usize>) -> (rows: HashSet<usize>)
        requires
            ascending(self.visible_paragraphs@),
        ensures
            forall|row: usize| #[trigger]
                rows@.contains(row) <==> exists|i: int|
                    0 <= i < matched@.len() && row_at(
                        self.visible_paragraphs@,
                        #[trigger] matched@[i],
                    ) == Some(row),
    {
        broadcast use vstd::std_specs::hash::group_hash_axioms;

        let mut rows: HashSet<usize> = HashSet::new();
        let mut next: usize = 0;
        while next < matched.len()
            invariant
                next <= matched@.len(),
                ascending(self.visible_paragraphs@),
                forall|row: usize| #[trigger]
                    rows@.contains(row) <==> exists|i: int|
                        0 <= i < next && row_at(self.visible_paragraphs@, #[trigger] matched@[i])
                            == Some(row),
            decreases matched@.len() - next,
        {
            let ghost before = rows@;
            let found = active_visible_outline_paragraph_from_visible(
                &self.visible_paragraphs,
                matched[next],
            );
            if let Some(row) = found {
                rows.insert(row);
            }
            proof {
                assert forall|row: usize| #[trigger] rows@.contains(row) <==> exists|i: int|
                    0 <= i < next + 1 && row_at(self.visible_paragraphs@, #[trigger] matched@[i])
                        == Some(row) by {
                    if before.contains(row) {
                        let i = choose|i: int|
                            0 <= i < next && row_at(self.visible_paragraphs@, #[trigger] matched@[i])
                                == Some(row);
                        assert(row_at(self.visible_paragraphs@, matched@[i]) == Some(row));
                    } else if rows@.contains(row) {
                        assert(row_at(self.visible_paragraphs@, matched@[next as int]) == Some(row));
                    }
                }
            }
            next = next + 1;
        }
        rows
    }
}

/// The depth of a heading by its paragraph; a later heading of the same
/// paragraph counts.
pub open spec fn levels_of(nodes: Seq<NodeValue>) -> Map<usize, usize>
    decreases nodes,
{
    if nodes.len() == 0 {
        Map::empty()
    } else {
        let last = nodes.last();
        levels_of(nodes.drop_last()).insert(last.paragraph_ix, last.level).union_prefer_right(
            levels_of(last.children),
        )
    }
}

/// The depth under which a row's menu collapses and expands: that of its
/// heading, the tags' where it has none.
pub fn outline_row_level(nodes: &Vec<OutlineNode>, paragraph_ix: Option<usize>) -> (level: usize)
    ensures
        level == (match paragraph_ix {
            Some(ix) if levels_of(node_values(nodes@)).contains_key(ix) => levels_of(
                node_values(nodes@),
            )[ix],
            _ => 3,
        }),
{
    match paragraph_ix {
        None => 3,
        Some(ix) => match level_in(nodes, ix) {
            Some(level) => level,
            None => 3,
        },
    }
}

fn level_in(nodes: &Vec<OutlineNode>, paragraph_ix: usize) -> (level: Option<usize>)
    ensures
        match level {
            Some(level) => levels_of(node_values(nodes@)).contains_key(paragraph_ix) && levels_of(
                node_values(nodes@),
            )[paragraph_ix] == level,
            None => !levels_of(node_values(nodes@)).contains_key(paragraph_ix),
        },
    decreases nodes@,
{
    let ghost values = node_values(nodes@);
    proof {
        lemma_node_values(nodes@);
    }
    let mut level: Option<usize> = None;
    let mut next: usize = 0;
    assert(values.take(0) =~= Seq::empty());
    while next < nodes.len()
        invariant
            next <= nodes@.len(),
            values == node_values(nodes@),
            values.len() == nodes@.len(),
            forall|k: int| 0 <= k < nodes@.len() ==> #[trigger] values[k] == node_value(nodes@[k]),
            match level {
                Some(level) => levels_of(values.take(next as int)).contains_key(paragraph_ix)
                    && levels_of(values.take(next as int))[paragraph_ix] == level,
                None => !levels_of(values.take(next as int)).contains_key(paragraph_ix),
            },
        decreases nodes@.len() - next,
    {
        let node = &nodes[next];
        proof {
            let taken = values.take(next + 1);
            assert(taken.drop_last() =~= values.take(next as int));
            assert(taken.last() == node_value(*node));
        }
        if node.paragraph_ix == paragraph_ix {
            level = Some(node.level);
        }
        assert(decreases_to!(nodes@ => nodes@[next as int]));
        if let Some(inner) = level_in(&node.children, paragraph_ix) {
            level = Some(inner);
        }
        next = next + 1;
    }
    assert(values.take(next as int) =~= values);
    level
}

} // verus!
