//! What the window shows round its documents, and what a screen reader finds.

use crate::a11y::{
    first_picked, has_key, holds_run, is_paragraph_over, name_of, picked, text_value, A11yTree,
    AccessNode,
};
use crate::chrome::{
    render_document_pane, render_left_nav, render_sidebar_tree_row, tab_marks_view,
    workspace_layout, DocumentPaneView, LeftNav, RowAction, TabMark, TabMarksView, TreeRowView,
    WorkspaceLayout,
};
use crate::commands::{LeftNavMode, ToolkitTool};
use crate::ordering::places;
use crate::outline::OutlineRowGuides;
use crate::pane::PanelId;
use crate::text::{texts, trimmed};
use crate::toolkit::{InputParagraph, SearchHit, TubState};
use crate::toolkit_view::{
    render_content_area, RightEdge, ToolkitResults, ToolkitView,
};
use crate::tub::filter_tub_files_by_name;
use crate::tub_nav::{depths_fit, TreeUpdate, TubNav};
use crate::tub_tree_laws::{all_below, is_file, lemma_stands, stands_in};
use vstd::prelude::*;

verus! {

/// A tab shows two of its marks at most: unsaved changes first, then the
/// speech, then the session; only where it has all three does one fold into
/// the count.
pub proof fn a_tab_shows_two_marks(
    dirty: bool,
    speech: bool,
    collaboration: bool,
    view: TabMarksView,
)
    requires
        call_ensures(tab_marks_view, (dirty, speech, collaboration), view),
    ensures
        view.visible@.len() <= 2,
        view.visible@.contains(TabMark::Dirty) <==> dirty,
        view.visible@.contains(TabMark::Speech) <==> speech,
        view.visible@.contains(TabMark::Collaboration) <==> collaboration && !(dirty && speech),
        view.overflow is Some <==> dirty && speech && collaboration,
        dirty ==> view.visible@[0] == TabMark::Dirty,
        speech && collaboration && !dirty ==> view.visible@[0] == TabMark::Speech
            && view.visible@[1] == TabMark::Collaboration,
        dirty && speech ==> view.visible@[1] == TabMark::Speech,
        dirty && collaboration && !speech ==> view.visible@[1] == TabMark::Collaboration,
{
    let shown = view.visible@;
    let all = crate::chrome::tab_marks(dirty, speech, collaboration);
    if dirty {
        assert(all[0] == TabMark::Dirty);
        assert(shown[0] == TabMark::Dirty);
    }
    if speech {
        let at: int = if dirty {
            1
        } else {
            0
        };
        assert(all[at] == TabMark::Speech);
        assert(shown[at] == TabMark::Speech);
    }
    if collaboration && !(dirty && speech) {
        let at: int = if dirty || speech {
            1
        } else {
            0
        };
        assert(all[at] == TabMark::Collaboration);
        assert(shown[at] == TabMark::Collaboration);
    }
}

/// History stands in the place of its own document and of no other; what is on
/// top shows, and without it the empty state.
pub proof fn the_pane_shows_what_is_on_top(
    panels: usize,
    active: Option<PanelId>,
    search_bar_open: bool,
    has_document: bool,
    has_flow: bool,
    history_of: Option<PanelId>,
    view: DocumentPaneView,
)
    requires
        call_ensures(
            render_document_pane,
            (panels, active, search_bar_open, has_document, has_flow, history_of),
            view,
        ),
    ensures
        view.history <==> active is Some && history_of == active,
        view.document <==> has_document && !view.history,
        view.flow <==> has_flow,
        view.empty_state <==> !has_document && !has_flow,
        view.tab_bar <==> panels > 0,
        view.search_bar <==> active is Some && search_bar_open,
{
}

/// A window with nothing open shows the empty state alone; else its ribbon,
/// or a bar where that is folded. The left panel shows the tub where it is
/// asked for, else the outline of what is on top.
pub proof fn the_window_is_laid_out_by_what_is_open(
    documents: usize,
    flows: usize,
    collapsed: bool,
    layout: WorkspaceLayout,
    mode: LeftNavMode,
    flow_active: bool,
    nav: LeftNav,
)
    requires
        call_ensures(workspace_layout, (documents, flows, collapsed), layout),
        call_ensures(render_left_nav, (mode, flow_active), nav),
    ensures
        layout == WorkspaceLayout::Empty <==> documents == 0 && flows == 0,
        layout == WorkspaceLayout::CollapsedRibbon <==> documents + flows > 0 && collapsed,
        layout == WorkspaceLayout::Ribbon <==> documents + flows > 0 && !collapsed,
        nav == LeftNav::Tub <==> mode == LeftNavMode::Tub,
        nav == LeftNav::Flow <==> mode == LeftNavMode::Outline && flow_active,
        nav == LeftNav::Outline <==> mode == LeftNavMode::Outline && !flow_active,
{
}

/// The right edge shows the tool that is open, its icons where none is, and a
/// button where it is folded.
pub proof fn the_right_edge_shows_the_open_tool(
    collapsed: bool,
    tool: Option<ToolkitTool>,
    area: (RightEdge, (u16, u16)),
)
    requires
        call_ensures(render_content_area, (collapsed, tool), area),
    ensures
        area.0 == RightEdge::Collapsed <==> collapsed,
        area.0 == RightEdge::IconBar <==> !collapsed && tool is None,
        area.0 == RightEdge::Tub <==> !collapsed && tool == Some(ToolkitTool::Tub),
        area.0 == RightEdge::Comments <==> !collapsed && tool == Some(ToolkitTool::Comments),
        area.1.0 <= area.1.1,
{
}

/// A tree row has a guide at exactly the depths that it is given, one for each
/// depth before its own; a folder's icon folds it and a file's opens it; and
/// the colours of depths come round every five.
pub proof fn a_tree_row_is_drawn_as_it_lies(
    depth: usize,
    is_folder: bool,
    is_expanded: bool,
    has_icon: bool,
    is_active: bool,
    matched: bool,
    guide: OutlineRowGuides,
    view: TreeRowView,
    d: int,
)
    requires
        call_ensures(
            render_sidebar_tree_row,
            (depth, is_folder, is_expanded, has_icon, is_active, matched, &guide),
            view,
        ),
        0 <= d < depth,
    ensures
        view.guides@.len() == depth,
        view.guides@[d] <==> guide.ancestor_depths@.contains(d as usize),
        view.icon_action == RowAction::Toggle <==> has_icon && is_folder,
        view.icon_action == RowAction::Open <==> has_icon && !is_folder,
        view.caret is Some <==> is_folder && !has_icon,
        view.color < 5,
        depth < 5 ==> view.color == depth,
        (depth - view.color) % 5 == 0,
        view.accent is Some <==> is_active,
        view.search_highlight <==> matched,
        view.own_guide is Some <==> guide.extends_from_toggle,
{
}

proof fn lemma_picked(nodes: Seq<AccessNode>, test: spec_fn(AccessNode) -> bool, k: int)
    requires
        0 <= k <= nodes.len() <= usize::MAX,
    ensures
        forall|i: int|
            0 <= i < picked(nodes, test, k).len() ==> #[trigger] picked(nodes, test, k)[i] < k
                && test(nodes[picked(nodes, test, k)[i] as int]),
        forall|i: int, j: int|
            0 <= i < j < picked(nodes, test, k).len() ==> #[trigger] picked(nodes, test, k)[i]
                < #[trigger] picked(nodes, test, k)[j],
        forall|n: int|
            0 <= n < k && test(#[trigger] nodes[n]) ==> picked(nodes, test, k).contains(n as usize),
    decreases k,
{
    if k > 0 {
        lemma_picked(nodes, test, k - 1);
        let before = picked(nodes, test, k - 1);
        let all = picked(nodes, test, k);
        assert forall|n: int| 0 <= n < k && test(#[trigger] nodes[n]) implies all.contains(
            n as usize,
        ) by {
            if n == k - 1 {
                assert(all[before.len() as int] == n as usize);
            } else {
                let i = choose|i: int| 0 <= i < before.len() && before[i] == n as usize;
                assert(all[i] == n as usize);
            }
        }
    }
}

/// Asked for a role, a tree answers with every node of that role, in order, and
/// with no other.
pub proof fn every_node_of_a_role_is_found(tree: A11yTree, role: &str, found: Vec<usize>)
    requires
        call_ensures(A11yTree::by_role, (&tree, role), found),
    ensures
        forall|i: int|
            0 <= i < found@.len() ==> #[trigger] found@[i] < tree.nodes@.len()
                && tree.nodes@[found@[i] as int].role is Some && (
            tree.nodes@[found@[i] as int].role->0)@ == role@,
        forall|i: int, j: int|
            0 <= i < j < found@.len() ==> #[trigger] found@[i] < #[trigger] found@[j],
        forall|n: int|
            0 <= n < tree.nodes@.len() && (#[trigger] tree.nodes@[n]).role is Some && (
            tree.nodes@[n].role->0)@ == role@ ==> found@.contains(n as usize),
{
    let test = |node: AccessNode| text_value(node.role) == Some(role@);
    assert(tree.nodes.len() == tree.nodes@.len());
    lemma_picked(tree.nodes@, test, tree.nodes@.len() as int);
    assert forall|i: int| 0 <= i < found@.len() implies #[trigger] found@[i] < tree.nodes@.len()
        && tree.nodes@[found@[i] as int].role is Some && (tree.nodes@[found@[i] as int].role->0)@
        == role@ by {
        assert(test(tree.nodes@[found@[i] as int]));
    }
    assert forall|n: int|
        0 <= n < tree.nodes@.len() && (#[trigger] tree.nodes@[n]).role is Some && (
        tree.nodes@[n].role->0)@ == role@ implies found@.contains(n as usize) by {
        assert(test(tree.nodes@[n]));
    }
}

proof fn lemma_first_picked(nodes: Seq<AccessNode>, test: spec_fn(AccessNode) -> bool, from: int)
    requires
        0 <= from <= nodes.len(),
    ensures
        match first_picked(nodes, test, from) {
            Some(at) => from <= at < nodes.len() && test(nodes[at]) && forall|i: int|
                from <= i < at ==> !test(#[trigger] nodes[i]),
            None => forall|i: int| from <= i < nodes.len() ==> !test(#[trigger] nodes[i]),
        },
    decreases nodes.len() - from,
{
    if from < nodes.len() && !test(nodes[from]) {
        lemma_first_picked(nodes, test, from + 1);
    }
}

/// A node is announced by its label, else by its value.
pub open spec fn announced_as(node: AccessNode, name: Seq<char>) -> bool {
    if node.label is Some {
        (node.label->0)@ == name
    } else {
        node.value is Some && (node.value->0)@ == name
    }
}

/// Asked for a name, a tree answers with the first node that is announced by
/// it; asked for the focus, with the first node of its key.
pub proof fn the_first_node_of_a_name_is_found(
    tree: A11yTree,
    name: &str,
    found: Option<usize>,
    focused: Option<usize>,
)
    requires
        call_ensures(A11yTree::by_name, (&tree, name), found),
        call_ensures(A11yTree::focused_node, (&tree,), focused),
    ensures
        found is Some ==> found->0 < tree.nodes@.len() && announced_as(
            tree.nodes@[found->0 as int],
            name@,
        ),
        forall|i: int|
            0 <= i < tree.nodes@.len() && announced_as(#[trigger] tree.nodes@[i], name@)
                ==> found is Some && found->0 <= i,
        focused is Some ==> focused->0 < tree.nodes@.len() && tree.focus is Some && (
        tree.nodes@[focused->0 as int]).key@ == (tree.focus->0)@,
        forall|i: int|
            0 <= i < tree.nodes@.len() && tree.focus is Some && (#[trigger] tree.nodes@[i]).key@
                == (tree.focus->0)@ ==> focused is Some && focused->0 <= i,
{
    let test = |node: AccessNode| name_of(node) == Some(name@);
    lemma_first_picked(tree.nodes@, test, 0);
    assert forall|i: int|
        0 <= i < tree.nodes@.len() && announced_as(
            #[trigger] tree.nodes@[i],
            name@,
        ) implies found is Some && found->0 <= i by {
        assert(test(tree.nodes@[i]));
    }
    if found is Some {
        assert(test(tree.nodes@[found->0 as int]));
    }
    if let Some(key) = tree.focus {
        lemma_first_picked(tree.nodes@, has_key(key@), 0);
        assert forall|i: int|
            0 <= i < tree.nodes@.len() && (#[trigger] tree.nodes@[i]).key@
                == key@ implies focused is Some && focused->0 <= i by {
            assert(has_key(key@)(tree.nodes@[i]));
        }
        if focused is Some {
            assert(has_key(key@)(tree.nodes@[focused->0 as int]));
        }
    }
}

/// The id of the paragraph that holds a text is that of a node which lists a
/// run that holds it.
pub proof fn a_texts_id_is_its_paragraphs(tree: A11yTree, text: &str, id: Option<String>)
    requires
        call_ensures(A11yTree::accesskit_id_of_text, (&tree, text), id),
        id is Some,
    ensures
        exists|run: int, paragraph: int|
            #![trigger tree.nodes@[run], tree.nodes@[paragraph]]
            0 <= run < tree.nodes@.len() && 0 <= paragraph < tree.nodes@.len()
                && tree.nodes@[run].value is Some && crate::tub_laws::is_part_of(
                text@,
                (tree.nodes@[run].value->0)@,
            ) && crate::a11y::lists(tree.nodes@[paragraph].children@, tree.nodes@[run].key@)
                && tree.nodes@[paragraph].accesskit_id is Some && (
            tree.nodes@[paragraph].accesskit_id->0)@ == (id->0)@,
{
    let nodes = tree.nodes@;
    lemma_first_picked(nodes, holds_run(text@), 0);
    let run = first_picked(nodes, holds_run(text@), 0)->0;
    lemma_first_picked(nodes, is_paragraph_over(nodes[run].key@), 0);
    let paragraph = first_picked(nodes, is_paragraph_over(nodes[run].key@), 0)->0;
    assert(holds_run(text@)(nodes[run]));
    assert(is_paragraph_over(nodes[run].key@)(nodes[paragraph]));
    crate::tub_laws::lemma_part((nodes[run].value->0)@, text@);
    assert(nodes[run].value is Some);
}

/// A search in the left panel shows a tree of the files that it found, each in
/// its directory, and of no other; an empty one shows all files.
pub proof fn the_left_panel_shows_what_was_found(
    nav: &mut TubNav,
    root: &str,
    query: &str,
    update: TreeUpdate,
    found: Vec<usize>,
    way: Seq<Seq<char>>,
    path: Seq<char>,
    name: Seq<char>,
)
    requires
        depths_fit(old(nav).files@),
        call_ensures(TubNav::refresh_tub_file_search, (nav, Some(root), query), update),
        call_ensures(filter_tub_files_by_name, (&old(nav).files, query, 200usize), found),
    ensures
        final(nav).files == old(nav).files,
        final(nav).expanded@ == old(nav).expanded@,
        update is AllFiles <==> trimmed(query@).len() == 0,
        trimmed(query@).len() > 0 ==> (update matches TreeUpdate::Found(items) && (stands_in(
            items@,
            way,
            path,
            name,
        ) <==> exists|i: int|
            0 <= i < found@.len() && texts(
                old(nav).files@[#[trigger] found@[i] as int].parent@,
            ) == way && old(nav).files@[found@[i] as int].path@ == path
                && old(nav).files@[found@[i] as int].file_name@ == name)),
{
    let files = old(nav).files@;
    let all = places(found@);
    let none = Seq::<Seq<char>>::empty();
    if trimmed(query@).len() > 0 {
        let items = update->Found_0@;
        assert(crate::tub_nav::found_shown(final(nav).entries@, items, root@, files, all));
        let dirs = choose|dirs: Set<Seq<char>>| #[trigger]
            crate::tub_nav::opens_the_way(dirs, root@, files, all)
                && crate::tub_nav::items_of_files(items, root@, files, all, dirs)
                && crate::tub_nav::rows_of_files(final(nav).entries@, root@, files, all, dirs);
        assert(all_below(files, all, none)) by {
            assert forall|i: int| 0 <= i < all.len() implies {
                let parent = texts(files[#[trigger] all[i]].parent@);
                parent.len() >= none.len() && parent.take(none.len() as int) == none
            } by {
                let parent = texts(files[all[i]].parent@);
                assert(parent.take(0) =~= none);
            }
        }
        lemma_stands(
            items,
            root@,
            files,
            all,
            none,
            crate::tub::deepest(files, all, all.len() as int),
            dirs,
            way,
            path,
            name,
        );
        assert(none + way =~= way);
        if is_file(files, all, way, path, name) {
            let i = choose|i: int|
                0 <= i < all.len() && texts(files[#[trigger] all[i]].parent@) == way
                    && files[all[i]].path@ == path && files[all[i]].file_name@ == name;
            assert(all[i] == found@[i]);
            assert(texts(files[found@[i] as int].parent@) == way);
        }
        if exists|i: int|
            0 <= i < found@.len() && texts(files[#[trigger] found@[i] as int].parent@) == way
                && files[found@[i] as int].path@ == path && files[found@[i] as int].file_name@
                == name {
            let i = choose|i: int|
                0 <= i < found@.len() && texts(files[#[trigger] found@[i] as int].parent@) == way
                    && files[found@[i] as int].path@ == path && files[found@[i] as int].file_name@
                    == name;
            assert(all[i] == found@[i]);
            assert(texts(files[all[i]].parent@) == way);
        }
    }
}

/// A click on a directory folds or unfolds that one; a click on a file opens
/// that one and marks it.
pub proof fn a_click_folds_or_opens(
    nav: &mut TubNav,
    path: &str,
    is_folder: bool,
    open: Option<String>,
    other: Seq<char>,
)
    requires
        call_ensures(TubNav::row_clicked, (nav, path, is_folder), open),
    ensures
        open is Some <==> !is_folder,
        open is Some ==> (open->0)@ == path@ && final(nav).active_path is Some && (
        final(nav).active_path->0)@ == path@,
        is_folder ==> (final(nav).expanded@.contains(path@) <==> !old(nav).expanded@.contains(
            path@,
        )),
        other != path@ || !is_folder ==> (final(nav).expanded@.contains(other) <==> old(nav).expanded@.contains(other)),
        final(nav).files == old(nav).files,
{
}

/// Every hit has its card, in order, under its title or else its file's name;
/// what a card carries when it is dragged is what the hit inserts.
pub proof fn every_hit_has_its_card(
    state: TubState,
    view: ToolkitView,
    i: int,
    inserted: Vec<InputParagraph>,
    expanded: bool,
)
    requires
        call_ensures(TubState::render_toolkit_expanded, (&state,), view),
        0 <= i < state.hits@.len(),
        call_ensures(SearchHit::toolkit_hit_insert_paragraphs, (&state.hits@[i],), inserted),
        call_ensures(TubState::is_hit_expanded, (&state, &state.hits@[i]), expanded),
    ensures
        state.root is None ==> view.results is PickFolder,
        state.root is Some ==> (view.results matches ToolkitResults::Hits(cards) && {
            let card = cards@[i];
            let hit = state.hits@[i];
            &&& cards@.len() == state.hits@.len()
            &&& hit.title@.len() > 0 ==> card.title@ == hit.title@
            &&& hit.title@.len() == 0 ==> card.title@ == hit.file_name@
            &&& card.expanded == expanded
            &&& card.drag_text@ == hit.insert_text@
            &&& card.drag_paragraphs@.len() == inserted@.len()
            &&& forall|p: int|
                0 <= p < inserted@.len() ==> (#[trigger] card.drag_paragraphs@[p])@
                    == inserted@[p]@
        }),
{
    if let ToolkitResults::Hits(cards) = view.results {
        let card = cards@[i];
        assert(crate::toolkit_view::hit_shown(card, state, state.hits@[i]));
        let left = crate::toolkit::paragraph_values(card.drag_paragraphs@);
        let right = crate::toolkit::paragraph_values(inserted@);
        assert(left == right);
        assert(left.len() == card.drag_paragraphs@.len());
        assert(right.len() == inserted@.len());
        assert forall|p: int| 0 <= p < inserted@.len() implies (
        #[trigger] card.drag_paragraphs@[p])@ == inserted@[p]@ by {
            assert(left[p] == card.drag_paragraphs@[p]@);
            assert(right[p] == inserted@[p]@);
        }
    }
}

} // verus!
