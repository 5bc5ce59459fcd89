//! The files of a tub: their tree, and finding one by name.

use crate::ordering::{
    keys_of, lemma_keys_push, lemma_places_push, ordered, places, sorted_order, stable_order,
    KeyView, SortKey,
};
use crate::text::{
    ascii_lowered, byte_count, byte_len, chars_of, contains_text, begins_with, holds_text, join_texts,
    joined_with, lemma_texts_push, lowered_ascii, same_text, starts_with_text, texts, trim, trimmed,
};
use crate::text_set::TextSet;
use vstd::prelude::*;

verus! {

/// A file of the tub.
#[derive(Debug)]
pub struct TubFile {
    pub path: String,
    pub file_name: String,
    pub display_path: String,
    /// The names of the directories above it, from the root down.
    pub parent: Vec<String>,
}

/// A row of the tub's tree. A directory is a row with rows under it.
#[derive(Debug)]
pub struct TubTreeItem {
    /// The path of a directory or a file.
    pub id: String,
    pub label: String,
    pub children: Vec<TubTreeItem>,
    pub expanded: bool,
}

/// A visible row.
#[derive(Debug)]
pub struct TubTreeNode {
    pub id: String,
    pub name: String,
    pub is_dir: bool,
    pub depth: usize,
    pub expanded: bool,
}

/// A directory's path: the root, and behind it the names on the way down.
pub open spec fn dir_text(root: Seq<char>, dir: Seq<Seq<char>>) -> Seq<char> {
    if dir.len() == 0 {
        root
    } else if root.len() == 0 || root.last() == '/' {
        root + joined_with(dir, "/"@)
    } else {
        root.push('/') + joined_with(dir, "/"@)
    }
}

/// A directory's path.
fn dir_path(root: &str, dir: &Vec<String>) -> (path: String)
    ensures
        path@ == dir_text(root@, texts(dir@)),
{
    let mut path = String::from_str(root);
    assert(texts(dir@).len() == dir@.len());
    if dir.len() == 0 {
        return path;
    }
    let chars = chars_of(root);
    if chars.len() > 0 && chars[chars.len() - 1] != '/' {
        path.push('/');
    }
    let below = join_texts(dir, "/");
    path.append(below.as_str());
    path
}

/// The file lies below a directory that is `depth` deep, under a directory of
/// this name.
pub open spec fn lies_under(file: TubFile, depth: int, name: Seq<char>) -> bool {
    file.parent@.len() > depth && file.parent@[depth]@ == name
}

/// Those of the first `k` files that lie under a directory of this name.
pub open spec fn members_under(
    files: Seq<TubFile>,
    members: Seq<int>,
    depth: int,
    name: Seq<char>,
    k: int,
) -> Seq<int>
    decreases k,
{
    if k <= 0 {
        Seq::empty()
    } else if lies_under(files[members[k - 1]], depth, name) {
        members_under(files, members, depth, name, k - 1).push(members[k - 1])
    } else {
        members_under(files, members, depth, name, k - 1)
    }
}

/// Those of the first `k` files that lie in a directory `depth` deep.
pub open spec fn members_here(files: Seq<TubFile>, members: Seq<int>, depth: int, k: int) -> Seq<
    int,
>
    decreases k,
{
    if k <= 0 {
        Seq::empty()
    } else if files[members[k - 1]].parent@.len() == depth {
        members_here(files, members, depth, k - 1).push(members[k - 1])
    } else {
        members_here(files, members, depth, k - 1)
    }
}

/// The names of the directories below, each once, as the first `k` files name
/// them.
pub open spec fn names_below(files: Seq<TubFile>, members: Seq<int>, depth: int, k: int) -> Seq<
    Seq<char>,
>
    decreases k,
{
    if k <= 0 {
        Seq::empty()
    } else {
        let before = names_below(files, members, depth, k - 1);
        let parent = files[members[k - 1]].parent@;
        if parent.len() > depth && !before.contains(parent[depth]@) {
            before.push(parent[depth]@)
        } else {
            before
        }
    }
}

/// A key that orders by text alone.
pub open spec fn text_key(text: Seq<char>) -> KeyView {
    (0, 0, text)
}

/// Texts in order.
pub open spec fn sorted_texts(list: Seq<Seq<char>>) -> Seq<Seq<char>> {
    stable_order(list.map_values(|text: Seq<char>| text_key(text))).map_values(|i: int| list[i])
}

/// Files in the order of their names; of equal names the first comes first.
pub open spec fn sorted_members(files: Seq<TubFile>, members: Seq<int>) -> Seq<int> {
    stable_order(members.map_values(|m: int| text_key(files[m].file_name@))).map_values(
        |i: int| members[i],
    )
}

/// A directory's rows are as they should be: first the directories in it in
/// the order of their names, each with its own rows, then its files in the
/// order of theirs.
pub open spec fn dir_shown(
    items: Seq<TubTreeItem>,
    root: Seq<char>,
    files: Seq<TubFile>,
    members: Seq<int>,
    dir: Seq<Seq<char>>,
    levels: nat,
    expanded: Set<Seq<char>>,
) -> bool
    decreases levels,
{
    let depth = dir.len() as int;
    let total = members.len() as int;
    let names = sorted_texts(names_below(files, members, depth, total));
    let here = sorted_members(files, members_here(files, members, depth, total));
    &&& items.len() == names.len() + here.len()
    &&& forall|i: int|
        0 <= i < names.len() ==> {
            let path = dir.push(names[i]);
            &&& (#[trigger] items[i]).id@ == dir_text(root, path)
            &&& items[i].label@ == names[i]
            &&& items[i].expanded == expanded.contains(dir_text(root, path))
            &&& levels > 0
            &&& dir_shown(
                items[i].children@,
                root,
                files,
                members_under(files, members, depth, names[i], total),
                path,
                (levels - 1) as nat,
                expanded,
            )
        }
    &&& forall|j: int|
        names.len() <= j < items.len() ==> {
            let file = files[here[j - names.len()]];
            &&& (#[trigger] items[j]).id@ == file.path@
            &&& items[j].label@ == file.file_name@
            &&& items[j].children@.len() == 0
            &&& !items[j].expanded
        }
}

/// How deep the deepest of the first `k` files lies.
pub open spec fn deepest(files: Seq<TubFile>, members: Seq<int>, k: int) -> nat
    decreases k,
{
    if k <= 0 {
        0
    } else {
        let before = deepest(files, members, k - 1);
        let here = files[members[k - 1]].parent@.len();
        if here > before {
            here
        } else {
            before
        }
    }
}

proof fn lemma_deepest(files: Seq<TubFile>, members: Seq<int>, i: int, k: int)
    requires
        0 <= i < k,
    ensures
        files[members[i]].parent@.len() <= deepest(files, members, k),
    decreases k,
{
    if i < k - 1 {
        lemma_deepest(files, members, i, k - 1);
    }
}

proof fn lemma_members_under(
    files: Seq<TubFile>,
    members: Seq<int>,
    depth: int,
    name: Seq<char>,
    k: int,
)
    requires
        0 <= k <= members.len(),
    ensures
        forall|i: int|
            0 <= i < members_under(files, members, depth, name, k).len() ==> members.contains(
                #[trigger] members_under(files, members, depth, name, k)[i],
            ),
    decreases k,
{
    if k > 0 {
        lemma_members_under(files, members, depth, name, k - 1);
        let before = members_under(files, members, depth, name, k - 1);
        let all = members_under(files, members, depth, name, k);
        assert forall|i: int| 0 <= i < all.len() implies members.contains(#[trigger] all[i]) by {
            if i < before.len() {
                assert(members.contains(before[i]));
            } else {
                assert(members[k - 1] == all[i]);
            }
        }
    }
}

proof fn lemma_members_here(files: Seq<TubFile>, members: Seq<int>, depth: int, k: int)
    requires
        0 <= k <= members.len(),
    ensures
        forall|i: int|
            0 <= i < members_here(files, members, depth, k).len() ==> members.contains(
                #[trigger] members_here(files, members, depth, k)[i],
            ),
    decreases k,
{
    if k > 0 {
        lemma_members_here(files, members, depth, k - 1);
        let before = members_here(files, members, depth, k - 1);
        let all = members_here(files, members, depth, k);
        assert forall|i: int| 0 <= i < all.len() implies members.contains(#[trigger] all[i]) by {
            if i < before.len() {
                assert(members.contains(before[i]));
            } else {
                assert(members[k - 1] == all[i]);
            }
        }
    }
}

proof fn lemma_named_deeper(files: Seq<TubFile>, members: Seq<int>, depth: int, k: int)
    requires
        0 <= k <= members.len(),
        names_below(files, members, depth, k).len() > 0,
    ensures
        exists|i: int| 0 <= i < k && files[#[trigger] members[i]].parent@.len() > depth,
    decreases k,
{
    if k > 0 {
        if files[members[k - 1]].parent@.len() > depth {
            assert(files[members[k - 1]].parent@.len() > depth);
        } else {
            lemma_named_deeper(files, members, depth, k - 1);
        }
    }
}

fn filter_under(files: &Vec<TubFile>, members: &Vec<usize>, depth: usize, name: &str) -> (under: Vec<
    usize,
>)
    requires
        forall|i: int| 0 <= i < members@.len() ==> #[trigger] members@[i] < files@.len(),
    ensures
        places(under@) == members_under(
            files@,
            places(members@),
            depth as int,
            name@,
            members@.len() as int,
        ),
        forall|i: int| 0 <= i < under@.len() ==> #[trigger] under@[i] < files@.len(),
{
    let mut under: Vec<usize> = Vec::new();
    let mut next: usize = 0;
    assert(places(under@) =~= Seq::empty());
    while next < members.len()
        invariant
            next <= members@.len(),
            forall|i: int| 0 <= i < members@.len() ==> #[trigger] members@[i] < files@.len(),
            forall|i: int| 0 <= i < under@.len() ==> #[trigger] under@[i] < files@.len(),
            places(under@) == members_under(
                files@,
                places(members@),
                depth as int,
                name@,
                next as int,
            ),
        decreases members@.len() - next,
    {
        let member: usize = members[next];
        assert(places(members@)[next as int] == member);
        let ghost before = under@;
        let parent = &files[member].parent;
        if parent.len() > depth && same_text(parent[depth].as_str(), name) {
            under.push(member);
            assert(places(under@) =~= places(before).push(member as int));
        }
        next = next + 1;
    }
    under
}

fn filter_here(files: &Vec<TubFile>, members: &Vec<usize>, depth: usize) -> (here: Vec<usize>)
    requires
        forall|i: int| 0 <= i < members@.len() ==> #[trigger] members@[i] < files@.len(),
    ensures
        places(here@) == members_here(
            files@,
            places(members@),
            depth as int,
            members@.len() as int,
        ),
        forall|i: int| 0 <= i < here@.len() ==> #[trigger] here@[i] < files@.len(),
{
    let mut here: Vec<usize> = Vec::new();
    let mut next: usize = 0;
    assert(places(here@) =~= Seq::empty());
    while next < members.len()
        invariant
            next <= members@.len(),
            forall|i: int| 0 <= i < members@.len() ==> #[trigger] members@[i] < files@.len(),
            forall|i: int| 0 <= i < here@.len() ==> #[trigger] here@[i] < files@.len(),
            places(here@) == members_here(files@, places(members@), depth as int, next as int),
        decreases members@.len() - next,
    {
        let member: usize = members[next];
        assert(places(members@)[next as int] == member);
        let ghost before = here@;
        if files[member].parent.len() == depth {
            here.push(member);
            assert(places(here@) =~= places(before).push(member as int));
        }
        next = next + 1;
    }
    here
}

fn names_of(files: &Vec<TubFile>, members: &Vec<usize>, depth: usize) -> (names: TextSet)
    requires
        forall|i: int| 0 <= i < members@.len() ==> #[trigger] members@[i] < files@.len(),
    ensures
        texts(names.items@) == names_below(
            files@,
            places(members@),
            depth as int,
            members@.len() as int,
        ),
{
    let mut names = TextSet::new();
    let mut next: usize = 0;
    names.items = Vec::new();
    assert(texts(names.items@) =~= Seq::empty());
    while next < members.len()
        invariant
            next <= members@.len(),
            forall|i: int| 0 <= i < members@.len() ==> #[trigger] members@[i] < files@.len(),
            texts(names.items@) == names_below(
                files@,
                places(members@),
                depth as int,
                next as int,
            ),
        decreases members@.len() - next,
    {
        let member: usize = members[next];
        assert(places(members@)[next as int] == member);
        let parent = &files[member].parent;
        if parent.len() > depth {
            let ghost before = names.items@;
            let ghost name = parent@[depth as int]@;
            let known = names.contains(parent[depth].as_str());
            proof {
                if known {
                    let i = choose|i: int| 0 <= i < before.len() && (#[trigger] before[i])@ == name;
                    assert(texts(before)[i] == name);
                } else if texts(before).contains(name) {
                    let i = choose|i: int| 0 <= i < before.len() && texts(before)[i] == name;
                    assert(before[i]@ == name);
                }
            }
            if !known {
                names.items.push(parent[depth].clone());
                assert(texts(names.items@) =~= texts(before).push(name));
            }
        }
        next = next + 1;
    }
    names
}

/// Sorts texts.
pub(crate) fn sort_texts(list: Vec<String>) -> (sorted: Vec<String>)
    ensures
        texts(sorted@) == sorted_texts(texts(list@)),
{
    let mut keys: Vec<SortKey> = Vec::new();
    let mut next: usize = 0;
    while next < list.len()
        invariant
            next <= list@.len(),
            keys_of(keys@) == texts(list@).take(next as int).map_values(
                |text: Seq<char>| text_key(text),
            ),
        decreases list@.len() - next,
    {
        let key = SortKey { rank: 0, length: 0, text: list[next].clone() };
        proof {
            lemma_keys_push(keys@, key);
        }
        keys.push(key);
        next = next + 1;
        assert(keys_of(keys@) =~= texts(list@).take(next as int).map_values(
            |text: Seq<char>| text_key(text),
        ));
    }
    assert(texts(list@).take(next as int) =~= texts(list@));
    assert(keys_of(keys@).len() == keys@.len());
    let order = sorted_order(&keys);
    let ghost all = places(order@);
    let mut sorted: Vec<String> = Vec::new();
    let mut at: usize = 0;
    while at < order.len()
        invariant
            at <= order@.len(),
            all == places(order@),
            keys@.len() == list@.len(),
            ordered(keys_of(keys@), all, 0, keys@.len() as int),
            texts(sorted@) == all.take(at as int).map_values(|i: int| texts(list@)[i]),
        decreases order@.len() - at,
    {
        assert(0 <= all[at as int] < keys@.len());
        let text = list[order[at]].clone();
        proof {
            lemma_texts_push(sorted@, text);
        }
        sorted.push(text);
        at = at + 1;
        assert(texts(sorted@) =~= all.take(at as int).map_values(|i: int| texts(list@)[i]));
    }
    assert(all.take(at as int) =~= all);
    sorted
}

/// Sorts files by their names.
fn sort_members(files: &Vec<TubFile>, members: Vec<usize>) -> (sorted: Vec<usize>)
    requires
        forall|i: int| 0 <= i < members@.len() ==> #[trigger] members@[i] < files@.len(),
    ensures
        places(sorted@) == sorted_members(files@, places(members@)),
        forall|i: int| 0 <= i < sorted@.len() ==> #[trigger] sorted@[i] < files@.len(),
{
    let mut keys: Vec<SortKey> = Vec::new();
    let mut next: usize = 0;
    while next < members.len()
        invariant
            next <= members@.len(),
            forall|i: int| 0 <= i < members@.len() ==> #[trigger] members@[i] < files@.len(),
            keys_of(keys@) == places(members@).take(next as int).map_values(
                |m: int| text_key(files@[m].file_name@),
            ),
        decreases members@.len() - next,
    {
        let key = SortKey {
            rank: 0,
            length: 0,
            text: files[members[next]].file_name.clone(),
        };
        proof {
            lemma_keys_push(keys@, key);
            assert(places(members@)[next as int] == members@[next as int]);
        }
        keys.push(key);
        next = next + 1;
        assert(keys_of(keys@) =~= places(members@).take(next as int).map_values(
            |m: int| text_key(files@[m].file_name@),
        ));
    }
    assert(places(members@).take(next as int) =~= places(members@));
    assert(keys_of(keys@).len() == keys@.len());
    let order = sorted_order(&keys);
    let ghost all = places(order@);
    let mut sorted: Vec<usize> = Vec::new();
    let mut at: usize = 0;
    while at < order.len()
        invariant
            at <= order@.len(),
            all == places(order@),
            keys@.len() == members@.len(),
            ordered(keys_of(keys@), all, 0, keys@.len() as int),
            forall|i: int| 0 <= i < members@.len() ==> #[trigger] members@[i] < files@.len(),
            forall|i: int| 0 <= i < sorted@.len() ==> #[trigger] sorted@[i] < files@.len(),
            places(sorted@) == all.take(at as int).map_values(|i: int| places(members@)[i]),
        decreases order@.len() - at,
    {
        assert(0 <= all[at as int] < keys@.len());
        proof {
            lemma_places_push(sorted@, members@[order@[at as int] as int]);
        }
        sorted.push(members[order[at]]);
        at = at + 1;
        assert(places(sorted@) =~= all.take(at as int).map_values(|i: int| places(members@)[i]));
    }
    assert(all.take(at as int) =~= all);
    sorted
}

fn extended(dir: &Vec<String>, name: &str) -> (path: Vec<String>)
    ensures
        texts(path@) == texts(dir@).push(name@),
{
    let mut path: Vec<String> = Vec::new();
    let mut next: usize = 0;
    while next < dir.len()
        invariant
            next <= dir@.len(),
            texts(path@) == texts(dir@).take(next as int),
        decreases dir@.len() - next,
    {
        let text = dir[next].clone();
        proof {
            lemma_texts_push(path@, text);
        }
        path.push(text);
        next = next + 1;
        assert(texts(path@) =~= texts(dir@).take(next as int));
    }
    let last = String::from_str(name);
    proof {
        lemma_texts_push(path@, last);
        assert(texts(dir@).take(next as int) =~= texts(dir@));
    }
    path.push(last);
    path
}

/// A directory's rows.
fn build_tub_tree_dir_items(
    root: &str,
    files: &Vec<TubFile>,
    members: &Vec<usize>,
    dir: &Vec<String>,
    levels: usize,
    expanded: &TextSet,
) -> (items: Vec<TubTreeItem>)
    requires
        forall|i: int| 0 <= i < members@.len() ==> #[trigger] members@[i] < files@.len(),
        forall|i: int|
            0 <= i < members@.len() ==> files@[#[trigger] members@[i] as int].parent@.len()
                <= dir@.len() + levels,
    ensures
        dir_shown(
            items@,
            root@,
            files@,
            places(members@),
            texts(dir@),
            levels as nat,
            expanded@,
        ),
    decreases levels,
{
    let depth: usize = dir.len();
    let ghost all = places(members@);
    let ghost below = names_below(files@, all, depth as int, all.len() as int);
    let named = names_of(files, members, depth);
    let names = sort_texts(named.items);
    let ghost sorted = texts(names@);
    let mut items: Vec<TubTreeItem> = Vec::new();
    let mut next: usize = 0;
    proof {
        if names@.len() > 0 {
            assert(sorted.len() == names@.len());
            assert(below.len() > 0) by {
                lemma_sorted_len(below);
            }
            lemma_named_deeper(files@, all, depth as int, all.len() as int);
            let i = choose|i: int|
                0 <= i < all.len() && files@[#[trigger] all[i]].parent@.len() > depth;
            assert(all[i] == members@[i]);
        }
    }
    while next < names.len()
        invariant
            next <= names@.len(),
            names@.len() > 0 ==> levels > 0,
            depth == dir@.len(),
            all == places(members@),
            sorted == texts(names@),
            items@.len() == next,
            forall|i: int| 0 <= i < members@.len() ==> #[trigger] members@[i] < files@.len(),
            forall|i: int|
                0 <= i < members@.len() ==> files@[#[trigger] members@[i] as int].parent@.len()
                    <= dir@.len() + levels,
            forall|i: int|
                0 <= i < next ==> {
                    let path = texts(dir@).push(sorted[i]);
                    &&& (#[trigger] items@[i]).id@ == dir_text(root@, path)
                    &&& items@[i].label@ == sorted[i]
                    &&& items@[i].expanded == expanded@.contains(dir_text(root@, path))
                    &&& dir_shown(
                        items@[i].children@,
                        root@,
                        files@,
                        members_under(files@, all, depth as int, sorted[i], all.len() as int),
                        path,
                        (levels - 1) as nat,
                        expanded@,
                    )
                },
        decreases names@.len() - next,
    {
        let name = names[next].as_str();
        assert(sorted[next as int] == name@);
        let path = extended(dir, name);
        assert(texts(path@).len() == path@.len());
        assert(texts(dir@).len() == dir@.len());
        let under = filter_under(files, members, depth, name);
        proof {
            lemma_members_under(files@, all, depth as int, name@, all.len() as int);
            assert forall|i: int| 0 <= i < under@.len() implies files@[#[trigger] under@[i] as
                int].parent@.len() <= path@.len() + (levels - 1) by {
                assert(places(under@)[i] == under@[i]);
                assert(all.contains(under@[i] as int));
                let j = choose|j: int| 0 <= j < all.len() && all[j] == under@[i];
                assert(members@[j] == under@[i]);
            }
        }
        let children = build_tub_tree_dir_items(root, files, &under, &path, levels - 1, expanded);
        let id = dir_path(root, &path);
        let is_expanded = expanded.contains(id.as_str());
        items.push(
            TubTreeItem { id, label: names[next].clone(), children, expanded: is_expanded },
        );
        next = next + 1;
    }
    let unsorted = filter_here(files, members, depth);
    let here = sort_members(files, unsorted);
    let ghost listed = places(here@);
    let mut at: usize = 0;
    let ghost dirs = items@;
    while at < here.len()
        invariant
            at <= here@.len(),
            listed == places(here@),
            items@.len() == dirs.len() + at,
            items@.take(dirs.len() as int) == dirs,
            forall|i: int| 0 <= i < here@.len() ==> #[trigger] here@[i] < files@.len(),
            forall|j: int|
                dirs.len() <= j < items@.len() ==> {
                    let file = files@[listed[j - dirs.len()]];
                    &&& (#[trigger] items@[j]).id@ == file.path@
                    &&& items@[j].label@ == file.file_name@
                    &&& items@[j].children@.len() == 0
                    &&& !items@[j].expanded
                },
        decreases here@.len() - at,
    {
        let file = &files[here[at]];
        assert(listed[at as int] == here@[at as int]);
        items.push(
            TubTreeItem {
                id: file.path.clone(),
                label: file.file_name.clone(),
                children: Vec::new(),
                expanded: false,
            },
        );
        at = at + 1;
        assert(items@.take(dirs.len() as int) =~= dirs);
    }
    proof {
        assert(texts(dir@).len() == depth);
        assert forall|i: int| 0 <= i < dirs.len() implies #[trigger] items@[i] == dirs[i] by {
            assert(items@.take(dirs.len() as int)[i] == items@[i]);
        }
        assert(sorted.len() == dirs.len());
        assert(listed.len() == here@.len());
    }
    items
}

proof fn lemma_sorted_len(list: Seq<Seq<char>>)
    ensures
        sorted_texts(list).len() > 0 ==> list.len() > 0,
{
    if list.len() == 0 {
        let keys = list.map_values(|text: Seq<char>| text_key(text));
        let none = Seq::<int>::empty();
        assert(ordered(keys, none, 0, 0));
        assert(ordered(keys, stable_order(keys), 0, 0));
    }
}

/// The places of all files.
pub open spec fn everything(count: nat) -> Seq<int> {
    Seq::new(count, |i: int| i)
}

/// The tree of the files at the given places.
pub fn build_tub_tree_items(
    root: &str,
    files: &Vec<TubFile>,
    members: &Vec<usize>,
    expanded: &TextSet,
) -> (items: Vec<TubTreeItem>)
    requires
        forall|i: int| 0 <= i < members@.len() ==> #[trigger] members@[i] < files@.len(),
    ensures
        dir_shown(
            items@,
            root@,
            files@,
            places(members@),
            Seq::empty(),
            deepest(files@, places(members@), members@.len() as int),
            expanded@,
        ),
{
    let ghost all = places(members@);
    let mut levels: usize = 0;
    let mut next: usize = 0;
    while next < members.len()
        invariant
            next <= members@.len(),
            all == places(members@),
            forall|i: int| 0 <= i < members@.len() ==> #[trigger] members@[i] < files@.len(),
            levels == deepest(files@, all, next as int),
        decreases members@.len() - next,
    {
        let here: usize = files[members[next]].parent.len();
        assert(all[next as int] == members@[next as int]);
        if here > levels {
            levels = here;
        }
        next = next + 1;
    }
    let top: Vec<String> = Vec::new();
    proof {
        assert(texts(top@) =~= Seq::empty());
        assert forall|i: int| 0 <= i < members@.len() implies files@[#[trigger] members@[i] as
            int].parent@.len() <= top@.len() + levels by {
            assert(all[i] == members@[i]);
            lemma_deepest(files@, all, i, members@.len() as int);
        }
    }
    build_tub_tree_dir_items(root, files, members, &top, levels, expanded)
}

/// A visible row by its values.
pub struct RowValue {
    pub id: Seq<char>,
    pub name: Seq<char>,
    pub is_dir: bool,
    pub depth: int,
    pub expanded: bool,
}

impl View for TubTreeNode {
    type V = RowValue;

    open spec fn view(&self) -> RowValue {
        RowValue {
            id: self.id@,
            name: self.name@,
            is_dir: self.is_dir,
            depth: self.depth as int,
            expanded: self.expanded,
        }
    }
}

/// Rows by their values.
pub open spec fn row_values(rows: Seq<TubTreeNode>) -> Seq<RowValue> {
    rows.map_values(|row: TubTreeNode| row@)
}

/// The visible rows of a row: itself, and where it is expanded those under it.
pub open spec fn item_rows(item: TubTreeItem, depth: int) -> Seq<RowValue>
    decreases item,
{
    seq![
        RowValue {
            id: item.id@,
            name: item.label@,
            is_dir: item.children@.len() > 0,
            depth,
            expanded: item.expanded,
        },
    ] + if item.expanded {
        list_rows(item.children@, depth + 1)
    } else {
        Seq::empty()
    }
}

/// The visible rows of a list.
pub open spec fn list_rows(items: Seq<TubTreeItem>, depth: int) -> Seq<RowValue>
    decreases items,
{
    if items.len() == 0 {
        Seq::empty()
    } else {
        list_rows(items.drop_last(), depth) + item_rows(items.last(), depth)
    }
}

/// How many levels a row's tree has.
pub open spec fn item_height(item: TubTreeItem) -> nat
    decreases item,
{
    1 + list_height(item.children@)
}

pub open spec fn list_height(items: Seq<TubTreeItem>) -> nat
    decreases items,
{
    if items.len() == 0 {
        0
    } else {
        let before = list_height(items.drop_last());
        let here = item_height(items.last());
        if here > before {
            here
        } else {
            before
        }
    }
}

proof fn lemma_list_height(items: Seq<TubTreeItem>, i: int)
    requires
        0 <= i < items.len(),
    ensures
        item_height(items[i]) <= list_height(items),
    decreases items.len(),
{
    if i < items.len() - 1 {
        lemma_list_height(items.drop_last(), i);
    }
}

/// The visible rows of a list, from a depth down.
pub fn tub_tree_item_entries(items: &Vec<TubTreeItem>, depth: usize) -> (rows: Vec<TubTreeNode>)
    requires
        depth + list_height(items@) <= usize::MAX,
    ensures
        row_values(rows@) == list_rows(items@, depth as int),
    decreases items@,
{
    let mut rows: Vec<TubTreeNode> = Vec::new();
    let mut next: usize = 0;
    assert(row_values(rows@) =~= Seq::empty());
    assert(items@.take(0) =~= Seq::empty());
    while next < items.len()
        invariant
            next <= items@.len(),
            depth + list_height(items@) <= usize::MAX,
            row_values(rows@) == list_rows(items@.take(next as int), depth as int),
        decreases items@.len() - next,
    {
        let item = &items[next];
        let ghost before = rows@;
        proof {
            lemma_list_height(items@, next as int);
            assert(decreases_to!(items@ => items@[next as int]));
            let taken = items@.take(next + 1);
            assert(taken.drop_last() =~= items@.take(next as int));
            assert(taken.last() == items@[next as int]);
        }
        rows.push(
            TubTreeNode {
                id: item.id.clone(),
                name: item.label.clone(),
                is_dir: item.children.len() > 0,
                depth,
                expanded: item.expanded,
            },
        );
        let ghost own = rows@.last()@;
        assert(row_values(rows@) =~= row_values(before).push(own));
        if item.expanded {
            assert(decreases_to!(items@[next as int] => items@[next as int].children));
            let below = tub_tree_item_entries(&item.children, depth + 1);
            append_rows(&mut rows, below);
            assert(row_values(before).push(own) + list_rows(item.children@, depth + 1)
                =~= row_values(before) + (seq![own] + list_rows(item.children@, depth + 1)));
        } else {
            assert(row_values(before).push(own) =~= row_values(before) + (seq![own]
                + Seq::empty()));
        }
        assert(row_values(rows@) == row_values(before) + item_rows(
            items@[next as int],
            depth as int,
        ));
        next = next + 1;
    }
    assert(items@.take(next as int) =~= items@);
    rows
}

proof fn lemma_shown_height(
    items: Seq<TubTreeItem>,
    root: Seq<char>,
    files: Seq<TubFile>,
    members: Seq<int>,
    dir: Seq<Seq<char>>,
    levels: nat,
    expanded: Set<Seq<char>>,
)
    requires
        dir_shown(items, root, files, members, dir, levels, expanded),
    ensures
        list_height(items) <= levels + 1,
    decreases levels,
{
    let total = members.len() as int;
    let depth = dir.len() as int;
    let names = sorted_texts(names_below(files, members, depth, total));
    assert forall|i: int| 0 <= i < items.len() implies item_height(#[trigger] items[i]) <= levels
        + 1 by {
        if i < names.len() {
            lemma_shown_height(
                items[i].children@,
                root,
                files,
                members_under(files, members, depth, names[i], total),
                dir.push(names[i]),
                (levels - 1) as nat,
                expanded,
            );
        } else {
            assert(items[i].children@.len() == 0);
        }
    }
    lemma_height_bound(items, levels + 1);
}

proof fn lemma_height_bound(items: Seq<TubTreeItem>, bound: nat)
    requires
        forall|i: int| 0 <= i < items.len() ==> item_height(#[trigger] items[i]) <= bound,
    ensures
        list_height(items) <= bound,
    decreases items.len(),
{
    if items.len() > 0 {
        assert forall|i: int| 0 <= i < items.drop_last().len() implies item_height(
            #[trigger] items.drop_last()[i],
        ) <= bound by {
            assert(items.drop_last()[i] == items[i]);
        }
        lemma_height_bound(items.drop_last(), bound);
        assert(item_height(items[items.len() - 1]) <= bound);
    }
}

/// The visible rows of the tree of the files at the given places.
pub fn tub_tree_entries_for_files(
    root: &str,
    files: &Vec<TubFile>,
    members: &Vec<usize>,
    expanded: &TextSet,
) -> (rows: Vec<TubTreeNode>)
    requires
        forall|i: int| 0 <= i < members@.len() ==> #[trigger] members@[i] < files@.len(),
        deepest(files@, places(members@), members@.len() as int) < usize::MAX,
    ensures
        exists|items: Seq<TubTreeItem>|
            row_values(rows@) == list_rows(items, 0) && #[trigger] dir_shown(
                items,
                root@,
                files@,
                places(members@),
                Seq::empty(),
                deepest(files@, places(members@), members@.len() as int),
                expanded@,
            ),
{
    let items = build_tub_tree_items(root, files, members, expanded);
    proof {
        lemma_shown_height(
            items@,
            root@,
            files@,
            places(members@),
            Seq::empty(),
            deepest(files@, places(members@), members@.len() as int),
            expanded@,
        );
    }
    tub_tree_item_entries(&items, 0)
}

fn append_rows(rows: &mut Vec<TubTreeNode>, more: Vec<TubTreeNode>)
    ensures
        row_values(final(rows)@) == row_values(old(rows)@) + row_values(more@),
{
    let mut more = more;
    let ghost added = more@;
    rows.append(&mut more);
    assert(row_values(rows@) =~= row_values(old(rows)@) + row_values(added));
}

/// Directories to open so that files show: the root and every directory on
/// the way to one of them.
pub open spec fn on_the_way(
    root: Seq<char>,
    files: Seq<TubFile>,
    members: Seq<int>,
    dir: Seq<char>,
) -> bool {
    dir == root || exists|i: int, k: int|
        0 <= i < members.len() && 0 <= k <= files[members[i]].parent@.len() && dir == dir_text(
            root,
            #[trigger] texts(files[#[trigger] members[i]].parent@).take(k),
        )
}

/// The directories to open for the files at the given places.
pub fn expanded_tub_search_dirs(root: &str, files: &Vec<TubFile>, members: &Vec<usize>) -> (dirs:
    TextSet)
    requires
        forall|i: int| 0 <= i < members@.len() ==> #[trigger] members@[i] < files@.len(),
    ensures
        forall|dir: Seq<char>| #[trigger]
            dirs@.contains(dir) <==> on_the_way(root@, files@, places(members@), dir),
{
    let ghost all = places(members@);
    let mut dirs = TextSet::new();
    dirs.insert(root);
    let mut next: usize = 0;
    while next < members.len()
        invariant
            next <= members@.len(),
            all == places(members@),
            forall|i: int| 0 <= i < members@.len() ==> #[trigger] members@[i] < files@.len(),
            dirs@.contains(root@),
            forall|dir: Seq<char>| #[trigger] dirs@.contains(dir) ==> on_the_way(root@, files@, all, dir),
            forall|i: int, k: int|
                0 <= i < next && 0 <= k <= files@[all[i]].parent@.len() ==> dirs@.contains(
                    dir_text(root@, #[trigger] texts(files@[#[trigger] all[i]].parent@).take(k)),
                ),
        decreases members@.len() - next,
    {
        let parent = &files[members[next]].parent;
        let ghost names = texts(parent@);
        assert(all[next as int] == members@[next as int]);
        let mut path: Vec<String> = Vec::new();
        let mut at: usize = 0;
        assert(texts(path@) =~= names.take(0));
        assert(dir_text(root@, names.take(0)) == root@);
        let ghost before = dirs@;
        while at < parent.len()
            invariant
                at <= parent@.len(),
                names == texts(parent@),
                texts(path@) == names.take(at as int),
                next < members@.len(),
                all == places(members@),
                files@[all[next as int]].parent@ == parent@,
                0 <= all[next as int] < files@.len(),
                dirs@.contains(root@),
                before.subset_of(dirs@),
                forall|dir: Seq<char>| #[trigger]
                    dirs@.contains(dir) ==> on_the_way(root@, files@, all, dir),
                forall|k: int| 0 <= k <= at ==> dirs@.contains(
                    dir_text(root@, #[trigger] names.take(k)),
                ),
            decreases parent@.len() - at,
        {
            let name = parent[at].clone();
            proof {
                lemma_texts_push(path@, name);
            }
            path.push(name);
            at = at + 1;
            assert(texts(path@) =~= names.take(at as int));
            let text = dir_path(root, &path);
            assert(text@ == dir_text(root@, texts(files@[all[next as int]].parent@).take(at as int)));
            let ghost earlier = dirs@;
            dirs.insert(text.as_str());
        }
        assert forall|i: int, k: int|
            0 <= i <= next && 0 <= k <= files@[all[i]].parent@.len() implies dirs@.contains(
            dir_text(root@, #[trigger] texts(files@[#[trigger] all[i]].parent@).take(k)),
        ) by {
            if i < next {
                assert(before.contains(dir_text(root@, texts(files@[all[i]].parent@).take(k))));
            }
        }
        next = next + 1;
    }
    assert forall|dir: Seq<char>| on_the_way(root@, files@, all, dir) implies #[trigger] dirs@.contains(
        dir,
    ) by {}
    dirs
}

/// How well a file's name answers a query: it begins with it, holds it, or
/// its path holds it.
pub open spec fn name_rank(file: TubFile, query: Seq<char>) -> Option<int> {
    let name = lowered_ascii(file.file_name@);
    if begins_with(name, query) {
        Some(0int)
    } else if holds_text(name, query) {
        Some(1int)
    } else if holds_text(lowered_ascii(file.display_path@), query) {
        Some(2int)
    } else {
        None
    }
}

/// The places of the files among the first `k` that answer the query.
pub open spec fn answers(files: Seq<TubFile>, query: Seq<char>, k: int) -> Seq<int>
    decreases k,
{
    if k <= 0 {
        Seq::empty()
    } else if name_rank(files[k - 1], query) is Some {
        answers(files, query, k - 1).push(k - 1)
    } else {
        answers(files, query, k - 1)
    }
}

/// What answers are sorted by: how well they answer, then the shorter path,
/// then the path.
pub open spec fn answer_key(file: TubFile, query: Seq<char>) -> KeyView {
    (
        match name_rank(file, query) {
            Some(rank) => rank,
            None => 3,
        },
        byte_len(file.display_path@) as int,
        file.display_path@,
    )
}

/// The answers, best first.
pub open spec fn ranked_answers(files: Seq<TubFile>, query: Seq<char>) -> Seq<int> {
    let found = answers(files, query, files.len() as int);
    stable_order(found.map_values(|m: int| answer_key(files[m], query))).map_values(
        |i: int| found[i],
    )
}

/// At most so many of a list.
pub open spec fn at_most(list: Seq<int>, limit: int) -> Seq<int> {
    if list.len() <= limit {
        list
    } else {
        list.take(limit)
    }
}

fn rank_of(file: &TubFile, query: &str) -> (rank: Option<u8>)
    ensures
        match rank {
            Some(rank) => name_rank(*file, query@) == Some(rank as int),
            None => name_rank(*file, query@) is None,
        },
{
    let name = ascii_lowered(file.file_name.as_str());
    if starts_with_text(name.as_str(), query) {
        return Some(0);
    }
    if contains_text(name.as_str(), query) {
        return Some(1);
    }
    let path = ascii_lowered(file.display_path.as_str());
    if contains_text(path.as_str(), query) {
        return Some(2);
    }
    None
}

/// The places of the files that answer a query, best first and at most so
/// many; for an empty query the first files.
pub open spec fn found_places(files: Seq<TubFile>, query: Seq<char>, limit: int) -> Seq<int> {
    let query = lowered_ascii(trimmed(query));
    at_most(
        if query.len() == 0 {
            everything(files.len())
        } else {
            ranked_answers(files, query)
        },
        limit,
    )
}

/// The places of the files that answer a query, best first and at most so
/// many; for an empty query the first files.
pub fn filter_tub_files_by_name(files: &Vec<TubFile>, query: &str, limit: usize) -> (found: Vec<
    usize,
>)
    ensures
        places(found@) == found_places(files@, query@, limit as int),
        forall|i: int| 0 <= i < found@.len() ==> #[trigger] found@[i] < files@.len(),
{
    let inner = trim(query);
    let query = ascii_lowered(inner.as_str());
    let query = query.as_str();
    let mut found: Vec<usize> = Vec::new();
    if query.is_empty() {
        let mut next: usize = 0;
        let ghost all = everything(files@.len());
        while next < files.len() && next < limit
            invariant
                next <= files@.len(),
                next <= limit,
                all == everything(files@.len()),
                places(found@) == all.take(next as int),
                forall|i: int| 0 <= i < found@.len() ==> #[trigger] found@[i] < files@.len(),
            decreases files@.len() - next,
        {
            proof {
                lemma_places_push(found@, next);
            }
            found.push(next);
            next = next + 1;
            assert(places(found@) =~= all.take(next as int));
        }
        assert(all.take(files@.len() as int) =~= all);
        return found;
    }
    let mut members: Vec<usize> = Vec::new();
    let mut keys: Vec<SortKey> = Vec::new();
    let mut next: usize = 0;
    assert(places(members@) =~= Seq::empty());
    assert(keys_of(keys@) =~= Seq::empty());
    while next < files.len()
        invariant
            next <= files@.len(),
            places(members@) == answers(files@, query@, next as int),
            keys_of(keys@) == places(members@).map_values(|m: int| answer_key(files@[m], query@)),
            forall|i: int| 0 <= i < members@.len() ==> #[trigger] members@[i] < files@.len(),
        decreases files@.len() - next,
    {
        let file = &files[next];
        if let Some(rank) = rank_of(file, query) {
            let ghost before = members@;
            let ghost earlier = keys@;
            members.push(next);
            keys.push(
                SortKey {
                    rank,
                    length: byte_count(file.display_path.as_str()),
                    text: file.display_path.clone(),
                },
            );
            assert(places(members@) =~= places(before).push(next as int));
            assert(keys_of(keys@) =~= places(members@).map_values(
                |m: int| answer_key(files@[m], query@),
            )) by {
                assert(keys_of(keys@) =~= keys_of(earlier).push(keys@.last()@));
            }
        }
        next = next + 1;
    }
    assert(keys_of(keys@).len() == keys@.len());
    assert(places(members@).len() == members@.len());
    let order = sorted_order(&keys);
    let ghost all = places(order@);
    let ghost ranked = all.map_values(|i: int| places(members@)[i]);
    let mut at: usize = 0;
    while at < order.len() && at < limit
        invariant
            at <= order@.len(),
            at <= limit,
            all == places(order@),
            keys@.len() == members@.len(),
            ranked == all.map_values(|i: int| places(members@)[i]),
            ordered(keys_of(keys@), all, 0, keys@.len() as int),
            forall|i: int| 0 <= i < members@.len() ==> #[trigger] members@[i] < files@.len(),
            forall|i: int| 0 <= i < found@.len() ==> #[trigger] found@[i] < files@.len(),
            places(found@) == ranked.take(at as int),
        decreases order@.len() - at,
    {
        assert(0 <= all[at as int] < keys@.len());
        proof {
            lemma_places_push(found@, members@[order@[at as int] as int]);
        }
        found.push(members[order[at]]);
        at = at + 1;
        assert(places(found@) =~= ranked.take(at as int));
    }
    assert(ranked.take(order@.len() as int) =~= ranked);
    found
}

/// A list of answers never has a file twice, holds only files that answer,
/// and a better answer never follows a worse one.
pub proof fn better_answers_come_first(files: Seq<TubFile>, query: Seq<char>, i: int, j: int)
    requires
        0 <= i < j < ranked_answers(files, query).len(),
    ensures
        ({
            let list = ranked_answers(files, query);
            &&& name_rank(files[list[i]], query) is Some
            &&& list[i] != list[j]
            &&& name_rank(files[list[i]], query)->0 <= name_rank(files[list[j]], query)->0
        }),
{
    let found = answers(files, query, files.len() as int);
    let keys = found.map_values(|m: int| answer_key(files[m], query));
    lemma_order_exists(keys);
    let order = stable_order(keys);
    lemma_answers(files, query, files.len() as int);
    assert(0 <= order[i] < found.len());
    assert(0 <= order[j] < found.len());
    assert(crate::ordering::goes_before(keys, order[i], order[j]));
    assert(order[i] != order[j]) by {
        if order[i] == order[j] {
            crate::ordering::text_order_is_strict(keys[order[i]].2, keys[order[j]].2);
        }
    }
}

pub(crate) proof fn lemma_answers(files: Seq<TubFile>, query: Seq<char>, k: int)
    ensures
        forall|i: int|
            0 <= i < answers(files, query, k).len() ==> 0 <= #[trigger] answers(files, query, k)[i]
                < k && name_rank(files[answers(files, query, k)[i]], query) is Some,
        forall|i: int, j: int|
            0 <= i < j < answers(files, query, k).len() ==> #[trigger] answers(files, query, k)[i]
                < #[trigger] answers(files, query, k)[j],
    decreases k,
{
    if k > 0 {
        lemma_answers(files, query, k - 1);
    }
}

pub(crate) proof fn lemma_order_exists(keys: Seq<KeyView>)
    ensures
        ordered(keys, stable_order(keys), 0, keys.len() as int),
{
    crate::ordering::every_list_has_an_order(keys, keys.len() as int);
    let order = choose|order: Seq<int>| ordered(keys, order, 0, keys.len() as int);
    assert(ordered(keys, order, 0, keys.len() as int));
}

} // verus!
