//! The tub's tree: every file in its directory, and the rows that show.

use crate::ordering::{goes_before, places, stable_order, text_before, text_order_is_strict};
use crate::text::texts;
use crate::text_set::TextSet;
use crate::tub::{
    build_tub_tree_items, deepest, dir_shown, dir_text, item_rows, lemma_order_exists, lies_under,
    list_rows, members_here, members_under, names_below, row_values, sorted_members, sorted_texts,
    text_key, tub_tree_item_entries, RowValue, TubFile, TubTreeItem, TubTreeNode,
};
use vstd::prelude::*;

verus! {

/// A file of this path and name stands in a tree, below the directories of
/// these names.
pub open spec fn stands_in(
    items: Seq<TubTreeItem>,
    way: Seq<Seq<char>>,
    path: Seq<char>,
    name: Seq<char>,
) -> bool
    decreases way.len(),
{
    if way.len() == 0 {
        exists|i: int|
            0 <= i < items.len() && (#[trigger] items[i]).children@.len() == 0 && items[i].id@
                == path && items[i].label@ == name
    } else {
        exists|i: int|
            0 <= i < items.len() && (#[trigger] items[i]).children@.len() > 0 && items[i].label@
                == way[0] && stands_in(items[i].children@, way.skip(1), path, name)
    }
}

/// A file among those at some places lies below these directories, under this
/// path and name.
pub open spec fn is_file(
    files: Seq<TubFile>,
    members: Seq<int>,
    way: Seq<Seq<char>>,
    path: Seq<char>,
    name: Seq<char>,
) -> bool {
    exists|i: int|
        0 <= i < members.len() && texts(files[#[trigger] members[i]].parent@) == way
            && files[members[i]].path@ == path && files[members[i]].file_name@ == name
}

proof fn lemma_names(files: Seq<TubFile>, members: Seq<int>, depth: int, k: int, name: Seq<char>)
    requires
        0 <= k <= members.len(),
    ensures
        names_below(files, members, depth, k).contains(name) <==> exists|i: int|
            0 <= i < k && lies_under(files[#[trigger] members[i]], depth, name),
    decreases k,
{
    let names = names_below(files, members, depth, k);
    if k > 0 {
        let before = names_below(files, members, depth, k - 1);
        lemma_names(files, members, depth, k - 1, name);
        let last = files[members[k - 1]];
        if before.contains(name) {
            let i = choose|i: int| 0 <= i < before.len() && before[i] == name;
            assert(names[i] == name);
            let m = choose|m: int|
                0 <= m < k - 1 && lies_under(files[#[trigger] members[m]], depth, name);
            assert(lies_under(files[members[m]], depth, name));
        }
        if lies_under(last, depth, name) && !before.contains(name) {
            assert(names == before.push(name));
            assert(names[before.len() as int] == name);
        }
        if names.contains(name) && !before.contains(name) {
            let i = choose|i: int| 0 <= i < names.len() && names[i] == name;
            assert(i == before.len()) by {
                if i < before.len() {
                    assert(before[i] == name);
                }
            }
            assert(lies_under(files[members[k - 1]], depth, name));
        }
        if exists|i: int| 0 <= i < k && lies_under(files[#[trigger] members[i]], depth, name) {
            let m = choose|m: int|
                0 <= m < k && lies_under(files[#[trigger] members[m]], depth, name);
            if m < k - 1 {
                assert(lies_under(files[members[m]], depth, name));
            }
        }
    }
}

proof fn lemma_under(
    files: Seq<TubFile>,
    members: Seq<int>,
    depth: int,
    name: Seq<char>,
    k: int,
    m: int,
)
    requires
        0 <= k <= members.len(),
    ensures
        members_under(files, members, depth, name, k).contains(m) <==> lies_under(
            files[m],
            depth,
            name,
        ) && exists|i: int| 0 <= i < k && members[i] == m,
    decreases k,
{
    let under = members_under(files, members, depth, name, k);
    if k > 0 {
        lemma_under(files, members, depth, name, k - 1, m);
        let before = members_under(files, members, depth, name, k - 1);
        if before.contains(m) {
            let i = choose|i: int| 0 <= i < before.len() && before[i] == m;
            assert(under[i] == m);
        }
        if members[k - 1] == m && lies_under(files[m], depth, name) {
            assert(under[before.len() as int] == m);
        }
        if under.contains(m) && !before.contains(m) {
            let i = choose|i: int| 0 <= i < under.len() && under[i] == m;
            if i < before.len() {
                assert(before[i] == m);
            }
        }
    }
}

proof fn lemma_here(files: Seq<TubFile>, members: Seq<int>, depth: int, k: int, m: int)
    requires
        0 <= k <= members.len(),
    ensures
        members_here(files, members, depth, k).contains(m) <==> files[m].parent@.len() == depth
            && exists|i: int| 0 <= i < k && members[i] == m,
    decreases k,
{
    let here = members_here(files, members, depth, k);
    if k > 0 {
        lemma_here(files, members, depth, k - 1, m);
        let before = members_here(files, members, depth, k - 1);
        if before.contains(m) {
            let i = choose|i: int| 0 <= i < before.len() && before[i] == m;
            assert(here[i] == m);
        }
        if members[k - 1] == m && files[m].parent@.len() == depth {
            assert(here[before.len() as int] == m);
        }
        if here.contains(m) && !before.contains(m) {
            let i = choose|i: int| 0 <= i < here.len() && here[i] == m;
            if i < before.len() {
                assert(before[i] == m);
            }
        }
    }
}

proof fn lemma_sorted_texts(list: Seq<Seq<char>>)
    ensures
        sorted_texts(list).len() == list.len(),
        forall|text: Seq<char>| #[trigger]
            sorted_texts(list).contains(text) <==> list.contains(text),
        forall|i: int, j: int|
            0 <= i < j < list.len() ==> !text_before(
                #[trigger] sorted_texts(list)[j],
                #[trigger] sorted_texts(list)[i],
            ),
{
    let keys = list.map_values(|text: Seq<char>| text_key(text));
    lemma_order_exists(keys);
    let order = stable_order(keys);
    let sorted = sorted_texts(list);
    assert forall|text: Seq<char>| #[trigger] sorted.contains(text) <==> list.contains(text) by {
        if sorted.contains(text) {
            let i = choose|i: int| 0 <= i < sorted.len() && sorted[i] == text;
            assert(0 <= order[i] < list.len());
            assert(list[order[i]] == text);
        }
        if list.contains(text) {
            let i = choose|i: int| 0 <= i < list.len() && list[i] == text;
            assert(order.contains(i));
            let a = choose|a: int| 0 <= a < order.len() && order[a] == i;
            assert(sorted[a] == text);
        }
    }
    assert forall|i: int, j: int| 0 <= i < j < list.len() implies !text_before(
        #[trigger] sorted[j],
        #[trigger] sorted[i],
    ) by {
        assert(goes_before(keys, order[i], order[j]));
        assert(0 <= order[i] < keys.len() && 0 <= order[j] < keys.len());
        text_order_is_strict(sorted[i], sorted[j]);
        text_order_is_strict(sorted[j], sorted[i]);
    }
}

proof fn lemma_sorted_members(files: Seq<TubFile>, members: Seq<int>)
    ensures
        sorted_members(files, members).len() == members.len(),
        forall|m: int| #[trigger]
            sorted_members(files, members).contains(m) <==> members.contains(m),
        forall|i: int, j: int|
            0 <= i < j < members.len() ==> !text_before(
                files[#[trigger] sorted_members(files, members)[j]].file_name@,
                files[#[trigger] sorted_members(files, members)[i]].file_name@,
            ),
{
    let keys = members.map_values(|m: int| text_key(files[m].file_name@));
    lemma_order_exists(keys);
    let order = stable_order(keys);
    let sorted = sorted_members(files, members);
    assert forall|m: int| #[trigger] sorted.contains(m) <==> members.contains(m) by {
        if sorted.contains(m) {
            let i = choose|i: int| 0 <= i < sorted.len() && sorted[i] == m;
            assert(0 <= order[i] < members.len());
            assert(members[order[i]] == m);
        }
        if members.contains(m) {
            let i = choose|i: int| 0 <= i < members.len() && members[i] == m;
            assert(order.contains(i));
            let a = choose|a: int| 0 <= a < order.len() && order[a] == i;
            assert(sorted[a] == m);
        }
    }
    assert forall|i: int, j: int| 0 <= i < j < members.len() implies !text_before(
        files[#[trigger] sorted[j]].file_name@,
        files[#[trigger] sorted[i]].file_name@,
    ) by {
        assert(goes_before(keys, order[i], order[j]));
        assert(0 <= order[i] < keys.len() && 0 <= order[j] < keys.len());
        text_order_is_strict(files[sorted[i]].file_name@, files[sorted[j]].file_name@);
        text_order_is_strict(files[sorted[j]].file_name@, files[sorted[i]].file_name@);
    }
}

/// All files at some places lie below a directory.
pub open spec fn all_below(files: Seq<TubFile>, members: Seq<int>, dir: Seq<Seq<char>>) -> bool {
    forall|i: int|
        0 <= i < members.len() ==> {
            let parent = texts(files[#[trigger] members[i]].parent@);
            parent.len() >= dir.len() && parent.take(dir.len() as int) == dir
        }
}

proof fn lemma_below(
    files: Seq<TubFile>,
    members: Seq<int>,
    dir: Seq<Seq<char>>,
    name: Seq<char>,
)
    requires
        all_below(files, members, dir),
    ensures
        all_below(
            files,
            members_under(files, members, dir.len() as int, name, members.len() as int),
            dir.push(name),
        ),
{
    let total = members.len() as int;
    let depth = dir.len() as int;
    let under = members_under(files, members, depth, name, total);
    assert forall|i: int| 0 <= i < under.len() implies {
        let parent = texts(files[#[trigger] under[i]].parent@);
        parent.len() >= depth + 1 && parent.take(depth + 1) == dir.push(name)
    } by {
        let m = under[i];
        lemma_under(files, members, depth, name, total, m);
        assert(under.contains(m));
        let j = choose|j: int| 0 <= j < total && members[j] == m;
        let parent = texts(files[members[j]].parent@);
        assert(parent.take(depth) == dir);
        assert(parent[depth] == files[m].parent@[depth]@);
        assert(parent.take(depth + 1) =~= dir.push(name));
    }
}

proof fn lemma_not_empty(
    items: Seq<TubTreeItem>,
    root: Seq<char>,
    files: Seq<TubFile>,
    members: Seq<int>,
    dir: Seq<Seq<char>>,
    levels: nat,
    expanded: Set<Seq<char>>,
)
    requires
        dir_shown(items, root, files, members, dir, levels, expanded),
        members.len() > 0,
        all_below(files, members, dir),
    ensures
        items.len() > 0,
{
    let depth = dir.len() as int;
    let total = members.len() as int;
    let m = members[0];
    let parent = files[m].parent@;
    assert(texts(parent).len() == parent.len());
    lemma_here(files, members, depth, total, m);
    lemma_sorted_members(files, members_here(files, members, depth, total));
    lemma_sorted_texts(names_below(files, members, depth, total));
    if parent.len() > depth {
        lemma_names(files, members, depth, total, parent[depth]@);
        assert(lies_under(files[members[0]], depth, parent[depth]@));
        assert(names_below(files, members, depth, total).len() > 0);
    } else {
        assert(members_here(files, members, depth, total).len() > 0);
    }
}

pub(crate) proof fn lemma_stands(
    items: Seq<TubTreeItem>,
    root: Seq<char>,
    files: Seq<TubFile>,
    members: Seq<int>,
    dir: Seq<Seq<char>>,
    levels: nat,
    expanded: Set<Seq<char>>,
    way: Seq<Seq<char>>,
    path: Seq<char>,
    name: Seq<char>,
)
    requires
        dir_shown(items, root, files, members, dir, levels, expanded),
        all_below(files, members, dir),
    ensures
        stands_in(items, way, path, name) <==> is_file(files, members, dir + way, path, name),
    decreases way.len(),
{
    let depth = dir.len() as int;
    let total = members.len() as int;
    let below = names_below(files, members, depth, total);
    let names = sorted_texts(below);
    let local = members_here(files, members, depth, total);
    let here = sorted_members(files, local);
    lemma_sorted_texts(below);
    lemma_sorted_members(files, local);
    assert forall|i: int| 0 <= i < names.len() implies (#[trigger] items[i]).children@.len() > 0 by {
        let own = dir.push(names[i]);
        let under = members_under(files, members, depth, names[i], total);
        lemma_below(files, members, dir, names[i]);
        assert(names.contains(names[i]));
        lemma_names(files, members, depth, total, names[i]);
        let m = choose|m: int|
            0 <= m < total && lies_under(files[#[trigger] members[m]], depth, names[i]);
        lemma_under(files, members, depth, names[i], total, members[m]);
        assert(under.contains(members[m]));
        lemma_not_empty(
            items[i].children@,
            root,
            files,
            under,
            own,
            (levels - 1) as nat,
            expanded,
        );
    }
    if way.len() == 0 {
        assert(dir + way =~= dir);
        if stands_in(items, way, path, name) {
            let i = choose|i: int|
                0 <= i < items.len() && (#[trigger] items[i]).children@.len() == 0 && items[i].id@
                    == path && items[i].label@ == name;
            assert(i >= names.len());
            let m = here[i - names.len()];
            assert(here.contains(m));
            lemma_here(files, members, depth, total, m);
            let j = choose|j: int| 0 <= j < total && members[j] == m;
            let parent = texts(files[members[j]].parent@);
            assert(parent.take(depth) == dir);
            assert(parent =~= dir);
        }
        if is_file(files, members, dir, path, name) {
            let j = choose|j: int|
                0 <= j < members.len() && texts(files[#[trigger] members[j]].parent@) == dir
                    && files[members[j]].path@ == path && files[members[j]].file_name@ == name;
            let m = members[j];
            lemma_here(files, members, depth, total, m);
            assert(here.contains(m));
            let a = choose|a: int| 0 <= a < here.len() && here[a] == m;
            let at = a + names.len();
            assert(items[at].id@ == path);
        }
    } else {
        let rest = way.skip(1);
        let own = dir.push(way[0]);
        assert(dir + way =~= own + rest);
        let under = members_under(files, members, depth, way[0], total);
        lemma_below(files, members, dir, way[0]);
        if stands_in(items, way, path, name) {
            let i = choose|i: int|
                0 <= i < items.len() && (#[trigger] items[i]).children@.len() > 0 && items[i].label@
                    == way[0] && stands_in(items[i].children@, rest, path, name);
            assert(i < names.len());
            assert(names[i] == way[0]);
            lemma_stands(
                items[i].children@,
                root,
                files,
                under,
                own,
                (levels - 1) as nat,
                expanded,
                rest,
                path,
                name,
            );
            let j = choose|j: int|
                0 <= j < under.len() && texts(files[#[trigger] under[j]].parent@) == own + rest
                    && files[under[j]].path@ == path && files[under[j]].file_name@ == name;
            lemma_under(files, members, depth, way[0], total, under[j]);
            assert(under.contains(under[j]));
            let a = choose|a: int| 0 <= a < total && members[a] == under[j];
            assert(texts(files[members[a]].parent@) == dir + way);
        }
        if is_file(files, members, dir + way, path, name) {
            let j = choose|j: int|
                0 <= j < members.len() && texts(files[#[trigger] members[j]].parent@) == dir + way
                    && files[members[j]].path@ == path && files[members[j]].file_name@ == name;
            let m = members[j];
            let parent = texts(files[m].parent@);
            assert(parent[depth] == way[0]);
            assert(lies_under(files[members[j]], depth, way[0]));
            lemma_names(files, members, depth, total, way[0]);
            assert(names.contains(way[0]));
            let i = choose|i: int| 0 <= i < names.len() && names[i] == way[0];
            lemma_under(files, members, depth, way[0], total, m);
            assert(under.contains(m));
            let a = choose|a: int| 0 <= a < under.len() && under[a] == m;
            assert(texts(files[under[a]].parent@) == own + rest);
            assert(is_file(files, under, own + rest, path, name));
            assert(items[i].label@ == way[0]);
            lemma_stands(
                items[i].children@,
                root,
                files,
                under,
                own,
                (levels - 1) as nat,
                expanded,
                rest,
                path,
                name,
            );
            assert(items[i].children@.len() > 0);
        }
    }
}

/// The tree holds every file that it is of, below the directories it lies in
/// and under its own path and name, and nothing else.
pub proof fn every_file_stands_in_its_directory(
    root: &str,
    files: Vec<TubFile>,
    members: Vec<usize>,
    expanded: TextSet,
    items: Vec<TubTreeItem>,
    way: Seq<Seq<char>>,
    path: Seq<char>,
    name: Seq<char>,
)
    requires
        forall|i: int| 0 <= i < members@.len() ==> #[trigger] members@[i] < files@.len(),
        call_ensures(build_tub_tree_items, (root, &files, &members, &expanded), items),
    ensures
        stands_in(items@, way, path, name) <==> exists|i: int|
            0 <= i < members@.len() && texts(files@[#[trigger] members@[i] as int].parent@) == way
                && files@[members@[i] as int].path@ == path && files@[members@[i] as int].file_name@
                == name,
{
    let all = places(members@);
    let none = Seq::<Seq<char>>::empty();
    assert(all_below(files@, all, none)) by {
        assert forall|i: int| 0 <= i < all.len() implies {
            let parent = texts(files@[#[trigger] all[i]].parent@);
            parent.len() >= none.len() && parent.take(none.len() as int) == none
        } by {
            let parent = texts(files@[all[i]].parent@);
            assert(parent.take(0) =~= none);
        }
    }
    lemma_stands(
        items@,
        root@,
        files@,
        all,
        none,
        deepest(files@, all, members@.len() as int),
        expanded@,
        way,
        path,
        name,
    );
    assert(none + way =~= way);
    if is_file(files@, all, way, path, name) {
        let i = choose|i: int|
            0 <= i < all.len() && texts(files@[#[trigger] all[i]].parent@) == way
                && files@[all[i]].path@ == path && files@[all[i]].file_name@ == name;
        assert(all[i] == members@[i]);
        assert(texts(files@[members@[i] as int].parent@) == way);
    }
    if exists|i: int|
        0 <= i < members@.len() && texts(files@[#[trigger] members@[i] as int].parent@) == way
            && files@[members@[i] as int].path@ == path && files@[members@[i] as int].file_name@
            == name {
        let i = choose|i: int|
            0 <= i < members@.len() && texts(files@[#[trigger] members@[i] as int].parent@) == way
                && files@[members@[i] as int].path@ == path && files@[members@[i] as int].file_name@
                == name;
        assert(all[i] == members@[i]);
        assert(texts(files@[all[i]].parent@) == way);
    }
}

/// A directory's rows are in order: directories come before files and each
/// kind by name; a directory is named by where it lies, and is open exactly
/// where it is among those expanded. So down through its levels.
pub open spec fn in_order(
    items: Seq<TubTreeItem>,
    root: Seq<char>,
    dir: Seq<Seq<char>>,
    expanded: Set<Seq<char>>,
    levels: nat,
) -> bool
    decreases levels,
{
    &&& forall|i: int, j: int|
        0 <= i < j < items.len() ==> {
            let (above, under) = (#[trigger] items[i], #[trigger] items[j]);
            &&& under.children@.len() > 0 ==> above.children@.len() > 0
            &&& (under.children@.len() > 0) == (above.children@.len() > 0) ==> !text_before(
                under.label@,
                above.label@,
            )
        }
    &&& forall|i: int|
        0 <= i < items.len() ==> {
            let item = #[trigger] items[i];
            &&& item.children@.len() == 0 ==> !item.expanded
            &&& item.children@.len() > 0 ==> {
                &&& item.id@ == dir_text(root, dir.push(item.label@))
                &&& item.expanded <==> expanded.contains(item.id@)
                &&& levels > 0
                &&& in_order(
                    item.children@,
                    root,
                    dir.push(item.label@),
                    expanded,
                    (levels - 1) as nat,
                )
            }
        }
}

proof fn lemma_in_order(
    items: Seq<TubTreeItem>,
    root: Seq<char>,
    files: Seq<TubFile>,
    members: Seq<int>,
    dir: Seq<Seq<char>>,
    levels: nat,
    expanded: Set<Seq<char>>,
)
    requires
        dir_shown(items, root, files, members, dir, levels, expanded),
        all_below(files, members, dir),
    ensures
        in_order(items, root, dir, expanded, levels),
    decreases levels,
{
    let depth = dir.len() as int;
    let total = members.len() as int;
    let below = names_below(files, members, depth, total);
    let names = sorted_texts(below);
    let local = members_here(files, members, depth, total);
    let here = sorted_members(files, local);
    lemma_sorted_texts(below);
    lemma_sorted_members(files, local);
    assert forall|i: int| 0 <= i < names.len() implies {
        let item = #[trigger] items[i];
        &&& item.children@.len() > 0
        &&& in_order(item.children@, root, dir.push(item.label@), expanded, (levels - 1) as nat)
    } by {
        let own = dir.push(names[i]);
        let under = members_under(files, members, depth, names[i], total);
        lemma_below(files, members, dir, names[i]);
        assert(names.contains(names[i]));
        lemma_names(files, members, depth, total, names[i]);
        let m = choose|m: int|
            0 <= m < total && lies_under(files[#[trigger] members[m]], depth, names[i]);
        lemma_under(files, members, depth, names[i], total, members[m]);
        assert(under.contains(members[m]));
        lemma_not_empty(
            items[i].children@,
            root,
            files,
            under,
            own,
            (levels - 1) as nat,
            expanded,
        );
        lemma_in_order(
            items[i].children@,
            root,
            files,
            under,
            own,
            (levels - 1) as nat,
            expanded,
        );
    }
    assert forall|i: int, j: int| 0 <= i < j < items.len() implies {
        let (above, under) = (#[trigger] items[i], #[trigger] items[j]);
        &&& under.children@.len() > 0 ==> above.children@.len() > 0
        &&& (under.children@.len() > 0) == (above.children@.len() > 0) ==> !text_before(
            under.label@,
            above.label@,
        )
    } by {
        if j < names.len() {
            assert(items[i].label@ == names[i] && items[j].label@ == names[j]);
        } else if i >= names.len() {
            let (a, b) = (i - names.len(), j - names.len());
            assert(items[i].label@ == files[here[a]].file_name@);
            assert(items[j].label@ == files[here[b]].file_name@);
        }
    }
}

/// The tree lists directories before files and each by name, names each
/// directory by where it lies, and has those open that are expanded.
pub proof fn the_tree_is_in_order(
    root: &str,
    files: Vec<TubFile>,
    members: Vec<usize>,
    expanded: TextSet,
    items: Vec<TubTreeItem>,
) -> (levels: nat)
    requires
        forall|i: int| 0 <= i < members@.len() ==> #[trigger] members@[i] < files@.len(),
        call_ensures(build_tub_tree_items, (root, &files, &members, &expanded), items),
    ensures
        in_order(items@, root@, Seq::empty(), expanded@, levels),
{
    let all = places(members@);
    let none = Seq::<Seq<char>>::empty();
    assert(all_below(files@, all, none)) by {
        assert forall|i: int| 0 <= i < all.len() implies {
            let parent = texts(files@[#[trigger] all[i]].parent@);
            parent.len() >= none.len() && parent.take(none.len() as int) == none
        } by {
            let parent = texts(files@[all[i]].parent@);
            assert(parent.take(0) =~= none);
        }
    }
    let levels = deepest(files@, all, members@.len() as int);
    lemma_in_order(items@, root@, files@, all, none, levels, expanded@);
    levels
}

/// An item shows at a depth below a list: it is one of the list, or shows below
/// an open one.
pub open spec fn shows(items: Seq<TubTreeItem>, way: Seq<int>) -> bool
    decreases way.len(),
{
    &&& way.len() > 0
    &&& 0 <= way[0] < items.len()
    &&& way.len() > 1 ==> items[way[0]].expanded && shows(items[way[0]].children@, way.skip(1))
}

/// The item at the end of a way down.
pub open spec fn item_on(items: Seq<TubTreeItem>, way: Seq<int>) -> TubTreeItem
    decreases way.len(),
{
    if way.len() <= 1 {
        items[way[0]]
    } else {
        item_on(items[way[0]].children@, way.skip(1))
    }
}

/// A row is that of an item, so many levels down.
pub open spec fn row_is(row: RowValue, item: TubTreeItem, depth: int) -> bool {
    &&& row.id == item.id@
    &&& row.name == item.label@
    &&& row.is_dir == (item.children@.len() > 0)
    &&& row.expanded == item.expanded
    &&& row.depth == depth
}

/// Every item that shows has its row.
proof fn lemma_shown_rows(items: Seq<TubTreeItem>, way: Seq<int>, depth: int) -> (at: int)
    requires
        shows(items, way),
    ensures
        0 <= at < list_rows(items, depth).len(),
        row_is(list_rows(items, depth)[at], item_on(items, way), depth + way.len() - 1),
    decreases way.len(), items.len(),
{
    let rows = list_rows(items, depth);
    let last = items.len() - 1;
    let before = list_rows(items.drop_last(), depth);
    if way[0] < last {
        assert(items.drop_last()[way[0]] == items[way[0]]);
        let at = lemma_shown_rows(items.drop_last(), way, depth);
        assert(item_on(items.drop_last(), way) == item_on(items, way));
        assert(rows[at] == before[at]);
        at
    } else {
        let item = items.last();
        let own = item_rows(item, depth);
        assert(rows == before + own);
        if way.len() == 1 {
            assert(rows[before.len() as int] == own[0]);
            before.len() as int
        } else {
            let under = list_rows(item.children@, depth + 1);
            let below = lemma_shown_rows(item.children@, way.skip(1), depth + 1);
            let at = before.len() as int + 1 + below;
            assert(own[1 + below] == under[below]);
            assert(rows[at] == own[1 + below]);
            at
        }
    }
}

/// Every row is that of an item that shows.
proof fn lemma_row_shows(items: Seq<TubTreeItem>, depth: int, at: int) -> (way: Seq<int>)
    requires
        0 <= at < list_rows(items, depth).len(),
    ensures
        shows(items, way),
        row_is(list_rows(items, depth)[at], item_on(items, way), depth + way.len() - 1),
    decreases items, items.len(),
{
    let rows = list_rows(items, depth);
    let last = items.len() - 1;
    let before = list_rows(items.drop_last(), depth);
    let item = items.last();
    let own = item_rows(item, depth);
    assert(rows == before + own);
    if at < before.len() {
        let way = lemma_row_shows(items.drop_last(), depth, at);
        assert(items.drop_last()[way[0]] == items[way[0]]);
        assert(item_on(items.drop_last(), way) == item_on(items, way));
        assert(rows[at] == before[at]);
        way
    } else if at == before.len() {
        let way = seq![last];
        assert(rows[at] == own[0]);
        way
    } else {
        let under = list_rows(item.children@, depth + 1);
        let below = at - before.len() - 1;
        let rest = lemma_row_shows(item.children@, depth + 1, below);
        let way = seq![last] + rest;
        assert(way.skip(1) =~= rest);
        assert(own[1 + below] == under[below]);
        assert(rows[at] == own[1 + below]);
        way
    }
}

/// A row is that of an item that shows.
pub open spec fn is_row_of(items: Seq<TubTreeItem>, row: RowValue, depth: int) -> bool {
    exists|way: Seq<int>| #[trigger]
        shows(items, way) && row_is(row, item_on(items, way), depth + way.len() - 1)
}

/// A row shows for every item whose directories are all open, as deep as it
/// lies, and for no other.
pub proof fn rows_show_what_is_open(
    items: Vec<TubTreeItem>,
    depth: usize,
    rows: Vec<TubTreeNode>,
)
    requires
        call_ensures(tub_tree_item_entries, (&items, depth), rows),
    ensures
        forall|way: Seq<int>| #[trigger]
            shows(items@, way) ==> exists|at: int|
                0 <= at < rows@.len() && row_is(
                    (#[trigger] rows@[at])@,
                    item_on(items@, way),
                    depth + way.len() - 1,
                ),
        forall|at: int|
            0 <= at < rows@.len() ==> is_row_of(items@, (#[trigger] rows@[at])@, depth as int),
{
    let values = row_values(rows@);
    assert(values == list_rows(items@, depth as int));
    assert(values.len() == rows@.len());
    assert forall|way: Seq<int>| #[trigger] shows(items@, way) implies exists|at: int|
        0 <= at < rows@.len() && row_is(
            (#[trigger] rows@[at])@,
            item_on(items@, way),
            depth + way.len() - 1,
        ) by {
        let at = lemma_shown_rows(items@, way, depth as int);
        assert(values[at] == rows@[at]@);
    }
    assert forall|at: int| 0 <= at < rows@.len() implies is_row_of(
        items@,
        (#[trigger] rows@[at])@,
        depth as int,
    ) by {
        let way = lemma_row_shows(items@, depth as int, at);
        assert(values[at] == rows@[at]@);
        assert(shows(items@, way));
    }
}

} // verus!
