//! What the panel over a tub shows of its folder, and how the folder is
//! scanned.

use crate::chrome::{RowAction, TreeRowView};
use crate::ordering::places;
use crate::text::{texts, trimmed};
use crate::toolkit::{
    left_nav_swap, CardHeight, SearchHit, ToolkitSearchFilter, TubState,
    TUB_FILE_SEARCH_LIMIT,
};
use crate::tub::{
    deepest, everything, filter_tub_files_by_name, list_rows, row_values, TubFile,
    TubTreeItem, TubTreeNode,
};
use crate::tub_nav::{
    depths_fit, items_of_files, render_tub_tree_row, tub_icon, TreeUpdate, TubIcon, TubNav,
    TubNavBody,
};
use crate::tub_tree_laws::{all_below, is_file, lemma_stands, stands_in};
use vstd::prelude::*;

verus! {

/// A tree of files holds each of them below its directories, and nothing else.
proof fn lemma_tree_of(
    items: Seq<TubTreeItem>,
    root: Seq<char>,
    files: Seq<TubFile>,
    members: Seq<int>,
    expanded: Set<Seq<char>>,
    way: Seq<Seq<char>>,
    path: Seq<char>,
    name: Seq<char>,
)
    requires
        items_of_files(items, root, files, members, expanded),
    ensures
        stands_in(items, way, path, name) <==> is_file(files, members, way, path, name),
{
    let none = Seq::<Seq<char>>::empty();
    assert(all_below(files, members, none)) by {
        assert forall|i: int| 0 <= i < members.len() implies {
            let parent = texts(files[#[trigger] members[i]].parent@);
            parent.len() >= none.len() && parent.take(none.len() as int) == none
        } by {
            let parent = texts(files[members[i]].parent@);
            assert(parent.take(0) =~= none);
        }
    }
    lemma_stands(
        items,
        root,
        files,
        members,
        none,
        deepest(files, members, members.len() as int),
        expanded,
        way,
        path,
        name,
    );
    assert(none + way =~= way);
}

/// Some file lies in these directories under this path and name.
pub open spec fn lies_in(
    files: Seq<TubFile>,
    way: Seq<Seq<char>>,
    path: Seq<char>,
    name: Seq<char>,
) -> bool {
    exists|i: int|
        0 <= i < files.len() && texts((#[trigger] files[i]).parent@) == way && files[i].path@
            == path && files[i].file_name@ == name
}

/// One of the files that were found lies in these directories under this path
/// and name.
pub open spec fn found_in(
    files: Seq<TubFile>,
    found: Seq<usize>,
    way: Seq<Seq<char>>,
    path: Seq<char>,
    name: Seq<char>,
) -> bool {
    exists|j: int|
        0 <= j < found.len() && texts(files[#[trigger] found[j] as int].parent@) == way
            && files[found[j] as int].path@ == path && files[found[j] as int].file_name@ == name
}

/// The rows are the open rows of some tree that holds just what `holds` says
/// of a file.
pub open spec fn rows_hold(
    rows: Seq<TubTreeNode>,
    way: Seq<Seq<char>>,
    path: Seq<char>,
    name: Seq<char>,
    holds: bool,
) -> bool {
    exists|items: Seq<TubTreeItem>|
        row_values(rows) == #[trigger] list_rows(items, 0) && (stands_in(items, way, path, name)
            <==> holds)
}

proof fn lemma_everything(
    files: Seq<TubFile>,
    way: Seq<Seq<char>>,
    path: Seq<char>,
    name: Seq<char>,
)
    ensures
        is_file(files, everything(files.len()), way, path, name) <==> lies_in(
            files,
            way,
            path,
            name,
        ),
{
    let all = everything(files.len());
    if lies_in(files, way, path, name) {
        let i = choose|i: int|
            0 <= i < files.len() && texts((#[trigger] files[i]).parent@) == way && files[i].path@
                == path && files[i].file_name@ == name;
        assert(all[i] == i);
        assert(texts(files[all[i]].parent@) == way);
    }
    if is_file(files, all, way, path, name) {
        let i = choose|i: int|
            0 <= i < all.len() && texts(files[#[trigger] all[i]].parent@) == way
                && files[all[i]].path@ == path && files[all[i]].file_name@ == name;
        assert(files[i] == files[all[i]]);
    }
}

proof fn lemma_listed(
    files: Seq<TubFile>,
    found: Seq<usize>,
    way: Seq<Seq<char>>,
    path: Seq<char>,
    name: Seq<char>,
)
    ensures
        is_file(files, places(found), way, path, name) <==> found_in(
            files,
            found,
            way,
            path,
            name,
        ),
{
    let all = places(found);
    if found_in(files, found, way, path, name) {
        let j = choose|j: int|
            0 <= j < found.len() && texts(files[#[trigger] found[j] as int].parent@) == way
                && files[found[j] as int].path@ == path && files[found[j] as int].file_name@
                == name;
        assert(all[j] == found[j]);
        assert(texts(files[all[j]].parent@) == way);
    }
    if is_file(files, all, way, path, name) {
        let j = choose|j: int|
            0 <= j < all.len() && texts(files[#[trigger] all[j]].parent@) == way
                && files[all[j]].path@ == path && files[all[j]].file_name@ == name;
        assert(all[j] == found[j]);
        assert(texts(files[found[j] as int].parent@) == way);
    }
}

/// Without a query the panel shows all files, and for a query the files that
/// a search by name finds, no more and no fewer, each below the directories it
/// lies in. Searching changes neither the files nor what is expanded.
pub proof fn the_panel_shows_the_files_that_answer(
    nav: &mut TubNav,
    root: &str,
    query: &str,
    update: TreeUpdate,
    found: Vec<usize>,
    way: Seq<Seq<char>>,
    path: Seq<char>,
    name: Seq<char>,
)
    requires
        depths_fit(old(nav).files@),
        call_ensures(TubNav::refresh_tub_file_search, (nav, Some(root), query), update),
        call_ensures(
            filter_tub_files_by_name,
            (&old(nav).files, query, TUB_FILE_SEARCH_LIMIT),
            found,
        ),
    ensures
        final(nav).files@ == old(nav).files@,
        final(nav).expanded@ == old(nav).expanded@,
        final(nav).active_path == old(nav).active_path,
        trimmed(query@).len() == 0 <==> update is AllFiles,
        trimmed(query@).len() > 0 <==> update is Found,
        update matches TreeUpdate::Found(items) ==> (stands_in(items@, way, path, name)
            <==> found_in(old(nav).files@, found@, way, path, name)),
        update is Found ==> rows_hold(
            final(nav).entries@,
            way,
            path,
            name,
            found_in(old(nav).files@, found@, way, path, name),
        ),
        update is AllFiles ==> rows_hold(
            final(nav).entries@,
            way,
            path,
            name,
            lies_in(old(nav).files@, way, path, name),
        ),
{
    let files = old(nav).files@;
    lemma_everything(files, way, path, name);
    lemma_listed(files, found@, way, path, name);
    if trimmed(query@).len() == 0 {
        let all = everything(files.len());
        assert(crate::tub_nav::rows_of_files(
            final(nav).entries@,
            root@,
            files,
            all,
            final(nav).expanded@,
        ));
        let items = choose|items: Seq<TubTreeItem>|
            row_values(final(nav).entries@) == list_rows(items, 0) && #[trigger] items_of_files(
                items,
                root@,
                files,
                all,
                final(nav).expanded@,
            );
        lemma_tree_of(items, root@, files, all, final(nav).expanded@, way, path, name);
        assert(row_values(final(nav).entries@) == list_rows(items, 0));
    } else {
        let listed = places(found@);
        let shown = update->Found_0@;
        let dirs = choose|dirs: Set<Seq<char>>| #[trigger]
            crate::tub_nav::opens_the_way(dirs, root@, files, listed) && items_of_files(
                shown,
                root@,
                files,
                listed,
                dirs,
            ) && crate::tub_nav::rows_of_files(
                final(nav).entries@,
                root@,
                files,
                listed,
                dirs,
            );
        lemma_tree_of(shown, root@, files, listed, dirs, way, path, name);
        let items = choose|items: Seq<TubTreeItem>|
            row_values(final(nav).entries@) == list_rows(items, 0) && #[trigger] items_of_files(
                items,
                root@,
                files,
                listed,
                dirs,
            );
        lemma_tree_of(items, root@, files, listed, dirs, way, path, name);
        assert(row_values(final(nav).entries@) == list_rows(items, 0));
    }
}

/// A scan's files are the panel's, and its tree holds every one of them below
/// its directories. What was expanded and what was last opened stay.
pub proof fn a_scans_files_stand_in_the_tree(
    nav: &mut TubNav,
    rebuilt: &mut TubNav,
    root: &str,
    files: Vec<TubFile>,
    query: &str,
    update: TreeUpdate,
    way: Seq<Seq<char>>,
    path: Seq<char>,
    name: Seq<char>,
)
    requires
        depths_fit(files@),
        call_ensures(TubNav::take_files, (nav, root, files, query), update),
        depths_fit(old(rebuilt).files@),
        call_ensures(TubNav::rebuild_tub_tree_cache, (rebuilt, Some(root)), ()),
    ensures
        final(nav).files@ == files@,
        final(nav).expanded@ == old(nav).expanded@,
        final(nav).active_path == old(nav).active_path,
        stands_in(final(nav).items@, way, path, name) <==> lies_in(files@, way, path, name),
        update is AllFiles <==> trimmed(query@).len() == 0,
        final(rebuilt).files@ == old(rebuilt).files@,
        final(rebuilt).expanded@ == old(rebuilt).expanded@,
        stands_in(final(rebuilt).items@, way, path, name) <==> lies_in(
            old(rebuilt).files@,
            way,
            path,
            name,
        ),
{
    lemma_everything(files@, way, path, name);
    lemma_tree_of(
        final(nav).items@,
        root@,
        files@,
        everything(files@.len()),
        old(nav).expanded@,
        way,
        path,
        name,
    );
    lemma_everything(old(rebuilt).files@, way, path, name);
    lemma_tree_of(
        final(rebuilt).items@,
        root@,
        old(rebuilt).files@,
        everything(old(rebuilt).files@.len()),
        old(rebuilt).expanded@,
        way,
        path,
        name,
    );
}

/// A panel without a folder shows no tree.
pub proof fn nothing_shows_without_a_folder(
    nav: &mut TubNav,
    rebuilt: &mut TubNav,
    query: &str,
    update: TreeUpdate,
)
    requires
        depths_fit(old(nav).files@),
        depths_fit(old(rebuilt).files@),
        call_ensures(TubNav::refresh_tub_file_search, (nav, None::<&str>, query), update),
        call_ensures(TubNav::rebuild_tub_tree_cache, (rebuilt, None::<&str>), ()),
    ensures
        update is Nothing,
        final(nav).entries@.len() == 0,
        final(rebuilt).items@.len() == 0,
        final(rebuilt).entries@.len() == 0,
{
}

/// A folder that is picked is expanded alone; that of the last session is
/// expanded beside what was. Either way the files of the folder before are
/// gone, and a search that was under way no longer counts.
pub proof fn a_folder_is_opened_expanded(
    picked: &mut TubNav,
    loaded: &mut TubNav,
    cleared: &mut TubNav,
    root: &str,
    dir: Seq<char>,
)
    requires
        call_ensures(TubNav::set_tub_root, (picked, root), ()),
        call_ensures(TubNav::load_tub_root, (loaded, root), ()),
        call_ensures(TubNav::clear_files, (cleared,), ()),
    ensures
        final(picked).expanded@.contains(dir) <==> dir == root@,
        final(loaded).expanded@.contains(dir) <==> dir == root@ || old(loaded).expanded@.contains(
            dir,
        ),
        final(cleared).expanded@ == old(cleared).expanded@,
        final(picked).files@.len() == 0,
        final(picked).items@.len() == 0,
        final(picked).entries@.len() == 0,
        final(loaded).files@.len() == 0,
        final(loaded).items@.len() == 0,
        final(loaded).entries@.len() == 0,
        final(cleared).files@.len() == 0,
        final(cleared).items@.len() == 0,
        final(cleared).entries@.len() == 0,
        final(picked).file_search_generation != old(picked).file_search_generation,
        final(loaded).file_search_generation != old(loaded).file_search_generation,
        final(cleared).file_search_generation != old(cleared).file_search_generation,
        final(picked).active_path == old(picked).active_path,
        final(loaded).active_path == old(loaded).active_path,
{
    assert(old(picked).file_search_generation.wrapping_add(1)
        != old(picked).file_search_generation);
    assert(old(loaded).file_search_generation.wrapping_add(1)
        != old(loaded).file_search_generation);
    assert(old(cleared).file_search_generation.wrapping_add(1)
        != old(cleared).file_search_generation);
}

/// A directory folds and unfolds in turn, and no other with it.
pub proof fn a_directory_folds_alone(
    first: &mut TubNav,
    second: &mut TubNav,
    dir: &str,
    other: Seq<char>,
)
    requires
        call_ensures(TubNav::remember_tub_dir_toggle, (first, dir), ()),
        *old(second) == *final(first),
        call_ensures(TubNav::remember_tub_dir_toggle, (second, dir), ()),
    ensures
        final(first).expanded@.contains(dir@) <==> !old(first).expanded@.contains(dir@),
        other != dir@ ==> (final(first).expanded@.contains(other)
            <==> old(first).expanded@.contains(other)),
        final(second).expanded@.contains(other) <==> old(first).expanded@.contains(other),
        final(first).files@ == old(first).files@,
        final(first).items@ == old(first).items@,
        final(first).entries@ == old(first).entries@,
        final(first).active_path == old(first).active_path,
{
}

/// The file that was opened last shows as active, and no other row does.
pub proof fn the_last_opened_file_is_active(
    nav: &mut TubNav,
    path: &str,
    row: &str,
    is_folder: bool,
    active: bool,
)
    requires
        call_ensures(TubNav::open_tub_tree_file, (nav, path), ()),
        call_ensures(TubNav::is_active_row, (&*final(nav), row, is_folder), active),
    ensures
        active <==> row@ == path@ && !is_folder,
        final(nav).files@ == old(nav).files@,
        final(nav).expanded@ == old(nav).expanded@,
{
}

/// Under its header the panel shows its tree where it has rows, and says why
/// where it has none: no folder, nothing found, or no files.
pub proof fn the_panel_says_why_it_is_empty(
    nav: TubNav,
    has_root: bool,
    query: &str,
    view: (bool, TubNavBody),
    text: Option<&'static str>,
)
    requires
        call_ensures(TubNav::render_tub_nav, (&nav, has_root, query), view),
        call_ensures(TubNavBody::text, (view.1,), text),
    ensures
        view.0 == has_root,
        view.1 == TubNavBody::Tree <==> has_root && nav.entries@.len() > 0,
        view.1 == TubNavBody::PickFolder <==> !has_root,
        view.1 == TubNavBody::NoMatch <==> has_root && nav.entries@.len() == 0
            && trimmed(query@).len() > 0,
        view.1 == TubNavBody::NoFiles <==> has_root && nav.entries@.len() == 0
            && trimmed(query@).len() == 0,
        text is None <==> view.1 == TubNavBody::Tree,
{
}

/// A row is drawn as what it is: a folder open or closed, which a click on its
/// icon turns over, or a file, which it opens. A guide runs through each depth
/// above it, and an open folder begins its own.
pub proof fn a_tub_row_is_drawn_as_what_it_is(
    depth: usize,
    is_folder: bool,
    is_expanded: bool,
    is_active: bool,
    icon: TubIcon,
    row: TreeRowView,
)
    requires
        call_ensures(tub_icon, (is_folder, is_expanded), icon),
        call_ensures(render_tub_tree_row, (depth, is_folder, is_expanded, is_active), row),
    ensures
        icon == TubIcon::File <==> !is_folder,
        icon == TubIcon::FolderOpen <==> is_folder && is_expanded,
        row.icon_action == RowAction::Toggle <==> is_folder,
        row.icon_action == RowAction::Open <==> !is_folder,
        row.guides@.len() == depth,
        forall|d: int| 0 <= d < depth ==> #[trigger] row.guides@[d],
        row.own_guide is Some <==> is_folder && is_expanded,
        row.accent is Some <==> is_active,
        row.hovers <==> !is_active,
        !row.search_highlight,
{
}

/// A folder that is opened is scanned at once, or queued behind the scan that
/// is under way, and has no index until it was scanned. A refresh scans the
/// folder there is, and without one says so.
pub proof fn a_folder_is_scanned_or_queued(
    loaded: &mut TubState,
    spawned: &mut TubState,
    refreshed: &mut TubState,
    root: &str,
    starts: (bool, bool),
    scan: Option<String>,
)
    requires
        call_ensures(TubState::load_tub_root, (loaded, root), starts.0),
        call_ensures(TubState::spawn_tub_scan, (spawned, root), starts.1),
        call_ensures(TubState::refresh_tub, (refreshed,), scan),
    ensures
        starts.0 <==> !old(loaded).scan_in_flight,
        final(loaded).root matches Some(folder) && folder@ == root@,
        final(loaded).scan_in_flight,
        !final(loaded).has_index,
        !final(loaded).watching,
        !starts.0 ==> final(loaded).scan_pending,
        starts.1 <==> !old(spawned).scan_in_flight,
        final(spawned).scan_in_flight,
        !starts.1 ==> final(spawned).scan_pending,
        starts.1 ==> final(spawned).hits@.len() == 0,
        final(spawned).root == old(spawned).root,
        scan is Some <==> old(refreshed).root is Some && !old(refreshed).scan_in_flight,
        scan matches Some(folder) ==> folder@ == (old(refreshed).root->0)@,
        old(refreshed).root is Some ==> final(refreshed).scan_in_flight,
        old(refreshed).root is Some && scan is None ==> final(refreshed).scan_pending,
        old(refreshed).root is None ==> final(refreshed).tub_status@ == "No tub selected"@
            && final(refreshed).scan_in_flight == old(refreshed).scan_in_flight,
        final(refreshed).root == old(refreshed).root,
{
}

/// One poll runs for the watcher: it starts with the first that watches, and
/// no second one beside it.
pub proof fn one_poll_watches_the_folder(
    first: &mut TubState,
    second: &mut TubState,
    watching: bool,
    polls: (bool, bool),
)
    requires
        call_ensures(TubState::start_tub_watch_poll, (first, watching), polls.0),
        *old(second) == *final(first),
        call_ensures(TubState::start_tub_watch_poll, (second, watching), polls.1),
    ensures
        polls.0 <==> watching && !old(first).polling,
        !polls.1,
        final(first).watching == watching,
        final(first).root == old(first).root,
        final(first).hits@ == old(first).hits@,
{
}

/// A hit opens its own file at its own paragraph; opening a file from the tree
/// is said with its name.
pub proof fn a_hit_opens_its_own_file(
    state: TubState,
    hit: usize,
    target: Option<(String, Option<usize>)>,
    opened: &mut TubState,
    name: &str,
)
    requires
        call_ensures(TubState::open_toolkit_hit, (&state, hit), target),
        call_ensures(TubState::open_tub_tree_file, (opened, name), ()),
    ensures
        target is Some <==> hit < state.hits@.len(),
        target matches Some((path, paragraph)) ==> path@ == state.hits@[hit as int].path@
            && paragraph == state.hits@[hit as int].paragraph_start,
        name@.is_suffix_of(final(opened).tub_status@),
        final(opened).root == old(opened).root,
        final(opened).hits@ == old(opened).hits@,
{
    let said = final(opened).tub_status@;
    assert(said.subrange(said.len() - name@.len(), said.len() as int) =~= name@);
}

/// Two hits of one file are told apart by their units, and a hit is titled by
/// its title, else by its file. A card that can be expanded keeps its height
/// until it is.
pub proof fn hits_of_a_file_are_told_apart(
    one: SearchHit,
    other: SearchHit,
    keys: (String, String),
    title: String,
    expands: bool,
    heights: (CardHeight, CardHeight),
)
    requires
        call_ensures(SearchHit::toolkit_hit_key, (&one,), keys.0),
        call_ensures(SearchHit::toolkit_hit_key, (&other,), keys.1),
        call_ensures(SearchHit::shown_title, (&one,), title),
        call_ensures(SearchHit::toolkit_hit_preview_can_expand, (&one,), expands),
        call_ensures(SearchHit::toolkit_hit_card_height, (&one, false), heights.0),
        call_ensures(SearchHit::toolkit_hit_card_height, (&one, true), heights.1),
    ensures
        one.file_id@ == other.file_id@ ==> (keys.0@ == keys.1@ <==> one.unit_id@
            == other.unit_id@),
        one.title@.len() > 0 ==> title@ == one.title@,
        one.title@.len() == 0 ==> title@ == one.file_name@,
        expands <==> heights.0 is Fixed,
        heights.1 is Within,
{
    if one.file_id@ == other.file_id@ && keys.0@ == keys.1@ {
        let head = one.file_id@ + ":"@;
        assert(keys.0@.skip(head.len() as int) =~= one.unit_id@);
        assert(keys.1@.skip(head.len() as int) =~= other.unit_id@);
    }
}

/// The button over the left panel offers the side that does not show.
pub proof fn the_left_panel_offers_its_other_side(
    mode: crate::commands::LeftNavMode,
    swap: (&'static str, &'static str, crate::commands::LeftNavMode),
)
    requires
        call_ensures(left_nav_swap, (mode,), swap),
    ensures
        swap.2 != mode,
        swap.1@ == "Swap to tub"@ <==> swap.2 == crate::commands::LeftNavMode::Tub,
{
    reveal_strlit("Swap to tub");
    reveal_strlit("Swap to outline");
    assert("Swap to tub"@.len() == 11);
    assert("Swap to outline"@.len() == 15);
}

/// A new search is of every kind, in no folder, with nothing found.
pub proof fn a_tub_begins_unselected(state: TubState, nav: TubNav)
    requires
        call_ensures(TubState::new, (), state),
        call_ensures(TubNav::new, (), nav),
    ensures
        state.root is None,
        !state.has_index,
        !state.scan_in_flight,
        !state.scan_pending,
        !state.polling,
        state.filter == ToolkitSearchFilter::All,
        state.hits@.len() == 0,
        forall|key: Seq<char>| !#[trigger] state.expanded_hits@.contains(key),
        nav.files@.len() == 0,
        nav.items@.len() == 0,
        nav.entries@.len() == 0,
        nav.active_path is None,
        forall|dir: Seq<char>| !#[trigger] nav.expanded@.contains(dir),
{
}

} // verus!
