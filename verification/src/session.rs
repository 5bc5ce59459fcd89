//! The session of a window: what is written down of its open tabs, and how
//! they come back.

use crate::comments::CommentReadState;
use crate::pane::PanelId;
use crate::text::{
    hexadecimal, padded_hexadecimal_text, parse_number, parsed, zero_padded,
};
use vstd::prelude::*;

verus! {

#[derive(Clone, Copy, Debug, PartialEq, Eq, Structural)]
pub enum TemporaryWorkspaceSessionEntryKind {
    Document,
    Flow,
}

/// A tab that is written down.
#[derive(Debug)]
pub struct TemporaryWorkspaceSessionEntry {
    pub kind: TemporaryWorkspaceSessionEntryKind,
    pub path: String,
    pub collapsed_outline_items: Vec<usize>,
    pub outline_scrolled_paragraph: Option<usize>,
    pub viewport_paragraph: Option<usize>,
}

/// A window's session.
#[derive(Debug)]
pub struct TemporaryWorkspaceSession {
    pub entries: Vec<TemporaryWorkspaceSessionEntry>,
    pub active_index: Option<usize>,
    pub ribbon_collapsed: bool,
    pub outline_collapsed: bool,
    pub pinned_entry_indices: Vec<usize>,
    pub speech_entry_index: Option<usize>,
    pub left_nav_tub: bool,
    /// The panel's width, by the bits of its number.
    pub nav_width_bits: Option<u32>,
    pub tub_tool_open: bool,
    pub toolkit_filter: Option<String>,
    pub tub_expanded_dirs: Vec<String>,
    /// Seen comment threads, each with its stamp.
    pub comment_last_seen: Vec<(String, i64)>,
}

/// An open tab, as the session sees it.
#[derive(Debug)]
pub struct SessionTab {
    pub id: PanelId,
    pub kind: TemporaryWorkspaceSessionEntryKind,
    /// Where it saves; a tab without a file is not written down.
    pub path: Option<String>,
    /// It shows before it can be edited; such a tab is not written down yet.
    pub pending: bool,
    pub collapsed_outline_items: Vec<usize>,
    pub outline_scrolled_paragraph: Option<usize>,
    pub viewport_paragraph: Option<usize>,
}

/// The window's toggles, as the session writes them.
#[derive(Debug)]
pub struct SessionToggles {
    pub ribbon_collapsed: bool,
    pub outline_collapsed: bool,
    pub left_nav_tub: bool,
    pub nav_width_bits: Option<u32>,
    pub tub_tool_open: bool,
    pub toolkit_filter: Option<String>,
    pub tub_expanded_dirs: Vec<String>,
}

/// Whether a tab is written down: it has a file, and can be edited.
pub open spec fn is_kept(tab: SessionTab) -> bool {
    tab.path is Some && !tab.pending
}

/// The ids of the tabs among the first `k` that are written down.
pub open spec fn kept_ids(tabs: Seq<SessionTab>, k: int) -> Seq<PanelId>
    decreases k,
{
    if k <= 0 {
        Seq::empty()
    } else if is_kept(tabs[k - 1]) {
        kept_ids(tabs, k - 1).push(tabs[k - 1].id)
    } else {
        kept_ids(tabs, k - 1)
    }
}

/// The places of the tabs among the first `k` that are written down.
pub open spec fn kept_places(tabs: Seq<SessionTab>, k: int) -> Seq<int>
    decreases k,
{
    if k <= 0 {
        Seq::empty()
    } else if is_kept(tabs[k - 1]) {
        kept_places(tabs, k - 1).push(k - 1)
    } else {
        kept_places(tabs, k - 1)
    }
}

/// An entry is that of a tab.
pub open spec fn entry_of(entry: TemporaryWorkspaceSessionEntry, tab: SessionTab) -> bool {
    &&& entry.kind == tab.kind
    &&& tab.path is Some && entry.path@ == (tab.path->0)@
    &&& if tab.kind == TemporaryWorkspaceSessionEntryKind::Document {
        &&& entry.collapsed_outline_items@ == tab.collapsed_outline_items@
        &&& entry.outline_scrolled_paragraph == tab.outline_scrolled_paragraph
        &&& entry.viewport_paragraph == tab.viewport_paragraph
    } else {
        &&& entry.collapsed_outline_items@.len() == 0
        &&& entry.outline_scrolled_paragraph is None
        &&& entry.viewport_paragraph is None
    }
}

/// Where an id stands last among the first `k`.
pub open spec fn place_of(ids: Seq<PanelId>, id: PanelId, k: int) -> Option<usize>
    decreases k,
{
    if k <= 0 {
        None
    } else if ids[k - 1] == id {
        Some((k - 1) as usize)
    } else {
        place_of(ids, id, k - 1)
    }
}

/// The places of the first `k` wanted ids, those that stand nowhere left out.
pub open spec fn places_of(ids: Seq<PanelId>, wanted: Seq<PanelId>, k: int) -> Seq<usize>
    decreases k,
{
    if k <= 0 {
        Seq::empty()
    } else {
        match place_of(ids, wanted[k - 1], ids.len() as int) {
            Some(place) => places_of(ids, wanted, k - 1).push(place),
            None => places_of(ids, wanted, k - 1),
        }
    }
}

/// An optional id's place.
pub open spec fn optional_place(ids: Seq<PanelId>, id: Option<PanelId>) -> Option<usize> {
    match id {
        Some(id) => place_of(ids, id, ids.len() as int),
        None => None,
    }
}

fn find_place(ids: &Vec<PanelId>, id: PanelId) -> (place: Option<usize>)
    ensures
        place == place_of(ids@, id, ids@.len() as int),
{
    let mut left: usize = ids.len();
    while left > 0
        invariant
            left <= ids@.len(),
            place_of(ids@, id, ids@.len() as int) == place_of(ids@, id, left as int),
        decreases left,
    {
        if ids[left - 1] == id {
            return Some(left - 1);
        }
        left = left - 1;
    }
    None
}

pub(crate) fn copy_places(list: &Vec<usize>) -> (copy: Vec<usize>)
    ensures
        copy@ == list@,
{
    let mut copy: Vec<usize> = Vec::new();
    let mut next: usize = 0;
    while next < list.len()
        invariant
            next <= list@.len(),
            copy@ == list@.take(next as int),
        decreases list@.len() - next,
    {
        copy.push(list[next]);
        next = next + 1;
        assert(copy@ =~= list@.take(next as int));
    }
    assert(list@.take(next as int) =~= list@);
    copy
}

/// Read stamps as they are written down: the id in hexadecimal, padded.
pub open spec fn written_stamp(stamp: (u128, i64), written: (String, i64)) -> bool {
    &&& written.0@ == zero_padded(hexadecimal(stamp.0 as nat), 32)
    &&& written.1 == stamp.1
}

fn write_stamps(stamps: &Vec<(u128, i64)>) -> (written: Vec<(String, i64)>)
    ensures
        written@.len() == stamps@.len(),
        forall|i: int|
            0 <= i < stamps@.len() ==> written_stamp(stamps@[i], #[trigger] written@[i]),
{
    let mut written: Vec<(String, i64)> = Vec::new();
    let mut next: usize = 0;
    while next < stamps.len()
        invariant
            next <= stamps@.len(),
            written@.len() == next,
            forall|i: int| 0 <= i < next ==> written_stamp(stamps@[i], #[trigger] written@[i]),
        decreases stamps@.len() - next,
    {
        let (id, seen): (u128, i64) = stamps[next];
        written.push((padded_hexadecimal_text(id, 32), seen));
        next = next + 1;
    }
    written
}

/// The session holds the tabs that are written down, in order, and which of
/// them are on top, pinned and spoken from.
pub open spec fn writes_down(
    tabs: Seq<SessionTab>,
    active: Option<PanelId>,
    pinned: Seq<PanelId>,
    speech: Option<PanelId>,
    session: TemporaryWorkspaceSession,
) -> bool {
    let ids = kept_ids(tabs, tabs.len() as int);
    let kept = kept_places(tabs, tabs.len() as int);
    &&& session.entries@.len() == kept.len()
    &&& forall|i: int|
        0 <= i < kept.len() ==> entry_of(#[trigger] session.entries@[i], tabs[kept[i]])
    &&& session.active_index == optional_place(ids, active)
    &&& session.pinned_entry_indices@ == places_of(ids, pinned, pinned.len() as int)
    &&& session.speech_entry_index == optional_place(ids, speech)
}

/// The session of a window: its tabs with a file that can be edited,
/// documents before flows as they are given, and which of them are on top, pinned and spoken from.
pub fn snapshot_session(
    tabs: &Vec<SessionTab>,
    active: Option<PanelId>,
    pinned: &Vec<PanelId>,
    speech: Option<PanelId>,
    toggles: SessionToggles,
    stamps: &Vec<(u128, i64)>,
) -> (session: TemporaryWorkspaceSession)
    ensures
        writes_down(tabs@, active, pinned@, speech, session),
        session.ribbon_collapsed == toggles.ribbon_collapsed,
        session.outline_collapsed == toggles.outline_collapsed,
        session.left_nav_tub == toggles.left_nav_tub,
        session.nav_width_bits == toggles.nav_width_bits,
        session.tub_tool_open == toggles.tub_tool_open,
        session.toolkit_filter == toggles.toolkit_filter,
        session.tub_expanded_dirs == toggles.tub_expanded_dirs,
        session.comment_last_seen@.len() == stamps@.len(),
        forall|i: int|
            0 <= i < stamps@.len() ==> written_stamp(
                stamps@[i],
                #[trigger] session.comment_last_seen@[i],
            ),
{
    let mut entries: Vec<TemporaryWorkspaceSessionEntry> = Vec::new();
    let mut ids: Vec<PanelId> = Vec::new();
    let mut next: usize = 0;
    while next < tabs.len()
        invariant
            next <= tabs@.len(),
            ids@ == kept_ids(tabs@, next as int),
            entries@.len() == kept_places(tabs@, next as int).len(),
            forall|i: int|
                0 <= i < entries@.len() ==> entry_of(
                    #[trigger] entries@[i],
                    tabs@[kept_places(tabs@, next as int)[i]],
                ),
        decreases tabs@.len() - next,
    {
        let tab = &tabs[next];
        let ghost before = entries@;
        let kept = match &tab.path {
            Some(path) => if tab.pending {
                None
            } else {
                Some(path)
            },
            None => None,
        };
        if let Some(path) = kept {
            ids.push(tab.id);
            let entry = match tab.kind {
                TemporaryWorkspaceSessionEntryKind::Document => TemporaryWorkspaceSessionEntry {
                    kind: tab.kind,
                    path: path.clone(),
                    collapsed_outline_items: copy_places(&tab.collapsed_outline_items),
                    outline_scrolled_paragraph: tab.outline_scrolled_paragraph,
                    viewport_paragraph: tab.viewport_paragraph,
                },
                TemporaryWorkspaceSessionEntryKind::Flow => TemporaryWorkspaceSessionEntry {
                    kind: tab.kind,
                    path: path.clone(),
                    collapsed_outline_items: Vec::new(),
                    outline_scrolled_paragraph: None,
                    viewport_paragraph: None,
                },
            };
            entries.push(entry);
        }
        next = next + 1;
    }
    let active_index: Option<usize> = match active {
        Some(id) => find_place(&ids, id),
        None => None,
    };
    let speech_entry_index: Option<usize> = match speech {
        Some(id) => find_place(&ids, id),
        None => None,
    };
    let mut pinned_entry_indices: Vec<usize> = Vec::new();
    let mut at: usize = 0;
    while at < pinned.len()
        invariant
            at <= pinned@.len(),
            pinned_entry_indices@ == places_of(ids@, pinned@, at as int),
        decreases pinned@.len() - at,
    {
        if let Some(place) = find_place(&ids, pinned[at]) {
            pinned_entry_indices.push(place);
        }
        at = at + 1;
    }
    TemporaryWorkspaceSession {
        entries,
        active_index,
        ribbon_collapsed: toggles.ribbon_collapsed,
        outline_collapsed: toggles.outline_collapsed,
        pinned_entry_indices,
        speech_entry_index,
        left_nav_tub: toggles.left_nav_tub,
        nav_width_bits: toggles.nav_width_bits,
        tub_tool_open: toggles.tub_tool_open,
        toolkit_filter: toggles.toolkit_filter,
        tub_expanded_dirs: toggles.tub_expanded_dirs,
        comment_last_seen: write_stamps(stamps),
    }
}

/// Which restored tabs are on top, pinned and spoken from.
#[derive(Debug)]
pub struct RestoredMarks {
    pub active: Option<PanelId>,
    pub pinned: Vec<PanelId>,
    pub speech: Option<PanelId>,
}

/// The tab that an entry came back as.
pub open spec fn opened_at(opened: Seq<Option<PanelId>>, index: Option<usize>) -> Option<PanelId> {
    match index {
        Some(index) => if index < opened.len() {
            opened[index as int]
        } else {
            None
        },
        None => None,
    }
}

/// The pinned tabs among the first `k` entries that came back.
pub open spec fn restored_pins(opened: Seq<Option<PanelId>>, pinned: Seq<usize>, k: int) -> Seq<
    PanelId,
>
    decreases k,
{
    if k <= 0 {
        Seq::empty()
    } else {
        match opened[k - 1] {
            Some(id) => if pinned.contains((k - 1) as usize) {
                restored_pins(opened, pinned, k - 1).push(id)
            } else {
                restored_pins(opened, pinned, k - 1)
            },
            None => restored_pins(opened, pinned, k - 1),
        }
    }
}

fn holds_place(list: &Vec<usize>, place: usize) -> (b: bool)
    ensures
        b == list@.contains(place),
{
    let mut next: usize = 0;
    while next < list.len()
        invariant
            next <= list@.len(),
            forall|i: int| 0 <= i < next ==> list@[i] != place,
        decreases list@.len() - next,
    {
        if list[next] == place {
            assert(list@[next as int] == place);
            return true;
        }
        next = next + 1;
    }
    false
}

impl TemporaryWorkspaceSession {
    /// Which tabs are on top, pinned and spoken from once the entries have
    /// come back: each as the tab it opened as, or not at all where its file
    /// is gone. Pins come back in the order of the entries.
    pub fn restored_marks(&self, opened: &Vec<Option<PanelId>>) -> (marks: RestoredMarks)
        ensures
            marks.active == opened_at(opened@, self.active_index),
            marks.pinned@ == restored_pins(
                opened@,
                self.pinned_entry_indices@,
                opened@.len() as int,
            ),
            marks.speech == opened_at(opened@, self.speech_entry_index),
    {
        let active = match self.active_index {
            Some(index) => if index < opened.len() {
                opened[index]
            } else {
                None
            },
            None => None,
        };
        let speech = match self.speech_entry_index {
            Some(index) => if index < opened.len() {
                opened[index]
            } else {
                None
            },
            None => None,
        };
        let mut pinned: Vec<PanelId> = Vec::new();
        let mut next: usize = 0;
        while next < opened.len()
            invariant
                next <= opened@.len(),
                pinned@ == restored_pins(opened@, self.pinned_entry_indices@, next as int),
            decreases opened@.len() - next,
        {
            if let Some(id) = opened[next] {
                if holds_place(&self.pinned_entry_indices, next) {
                    pinned.push(id);
                }
            }
            next = next + 1;
        }
        RestoredMarks { active, pinned, speech }
    }

    /// Whether the session is written: one without tabs is taken off the disk.
    pub fn is_written(&self) -> (b: bool)
        ensures
            b == (self.entries@.len() > 0),
    {
        self.entries.len() > 0
    }
}

/// Read stamps after those of the first `k` written ones: an id that cannot
/// be read is passed over.
pub open spec fn stamps_after(
    seen: Map<u128, i64>,
    written: Seq<(String, i64)>,
    k: int,
) -> Map<u128, i64>
    decreases k,
{
    if k <= 0 {
        seen
    } else {
        match parsed(written[k - 1].0@, 16, u128::MAX as int) {
            Some(id) => stamps_after(seen, written, k - 1).insert(id as u128, written[k - 1].1),
            None => stamps_after(seen, written, k - 1),
        }
    }
}

/// Takes read stamps back from a session.
pub fn restore_read_state(state: &mut CommentReadState, written: &Vec<(String, i64)>)
    ensures
        final(state).last_seen@ == stamps_after(
            old(state).last_seen@,
            written@,
            written@.len() as int,
        ),
{
    broadcast use vstd::std_specs::hash::group_hash_axioms;

    let mut next: usize = 0;
    while next < written.len()
        invariant
            next <= written@.len(),
            state.last_seen@ == stamps_after(old(state).last_seen@, written@, next as int),
        decreases written@.len() - next,
    {
        if let Some(id) = parse_number(written[next].0.as_str(), 16, u128::MAX) {
            state.last_seen.insert(id, written[next].1);
        }
        next = next + 1;
    }
}

/// Read stamps survive a restart: what is written down of a thread comes back
/// under its id.
pub proof fn read_stamps_survive_a_restart(
    seen: Map<u128, i64>,
    stamps: Seq<(u128, i64)>,
    written: Seq<(String, i64)>,
    i: int,
)
    requires
        written.len() == stamps.len(),
        forall|j: int|
            0 <= j < stamps.len() ==> written_stamp(stamps[j], #[trigger] written[j]),
        forall|j: int, k: int|
            0 <= j < k < stamps.len() ==> (#[trigger] stamps[j]).0 != (#[trigger] stamps[k]).0,
        0 <= i < stamps.len(),
    ensures
        ({
            let after = stamps_after(seen, written, written.len() as int);
            after.contains_key(stamps[i].0) && after[stamps[i].0] == stamps[i].1
        }),
{
    lemma_stamp_stays(seen, stamps, written, i, written.len() as int);
}

proof fn lemma_stamp_stays(
    seen: Map<u128, i64>,
    stamps: Seq<(u128, i64)>,
    written: Seq<(String, i64)>,
    i: int,
    k: int,
)
    requires
        written.len() == stamps.len(),
        forall|j: int|
            0 <= j < stamps.len() ==> written_stamp(stamps[j], #[trigger] written[j]),
        forall|j: int, k: int|
            0 <= j < k < stamps.len() ==> (#[trigger] stamps[j]).0 != (#[trigger] stamps[k]).0,
        0 <= i < k <= stamps.len(),
    ensures
        stamps_after(seen, written, k).contains_key(stamps[i].0),
        stamps_after(seen, written, k)[stamps[i].0] == stamps[i].1,
    decreases k,
{
    let id = stamps[k - 1].0;
    assert(written_stamp(stamps[k - 1], written[k - 1]));
    crate::text::padded_numerals_read_back(id as nat, 16, 32, u128::MAX as int);
    assert(parsed(written[k - 1].0@, 16, u128::MAX as int) == Some(id as int));
    if i < k - 1 {
        lemma_stamp_stays(seen, stamps, written, i, k - 1);
        assert(stamps[i].0 != stamps[k - 1].0);
    }
}

/// The tab on top and the speech tab survive a restart: where the entry of a
/// tab comes back, its mark comes back on it.
pub proof fn marks_survive_a_restart(
    tabs: Seq<SessionTab>,
    active: PanelId,
    opened: Seq<Option<PanelId>>,
    i: int,
)
    requires
        0 <= i < kept_ids(tabs, tabs.len() as int).len() <= usize::MAX,
        opened.len() == kept_ids(tabs, tabs.len() as int).len(),
        kept_ids(tabs, tabs.len() as int)[i] == active,
        forall|j: int|
            i < j < kept_ids(tabs, tabs.len() as int).len() ==> kept_ids(tabs, tabs.len() as int)[j]
                != active,
    ensures
        opened_at(
            opened,
            optional_place(kept_ids(tabs, tabs.len() as int), Some(active)),
        ) == opened[i],
{
    let ids = kept_ids(tabs, tabs.len() as int);
    lemma_last_place(ids, active, i, ids.len() as int);
}

pub(crate) proof fn lemma_kept(tabs: Seq<SessionTab>, k: int)
    requires
        0 <= k <= tabs.len(),
    ensures
        kept_ids(tabs, k).len() == kept_places(tabs, k).len() <= k,
        forall|i: int|
            0 <= i < kept_places(tabs, k).len() ==> 0 <= (#[trigger] kept_places(tabs, k)[i]) < k
                && kept_ids(tabs, k)[i] == tabs[kept_places(tabs, k)[i]].id,
        forall|i: int, j: int|
            0 <= i < j < kept_places(tabs, k).len() ==> #[trigger] kept_places(tabs, k)[i]
                < #[trigger] kept_places(tabs, k)[j],
    decreases k,
{
    if k > 0 {
        lemma_kept(tabs, k - 1);
    }
}

/// Pins survive a restart: a tab whose entry comes back is pinned after it
/// exactly if it was pinned before.
pub proof fn pins_survive_a_restart(
    ids: Seq<PanelId>,
    pinned: Seq<PanelId>,
    opened: Seq<Option<PanelId>>,
    i: int,
)
    requires
        ids.no_duplicates(),
        ids.len() == opened.len() <= usize::MAX,
        0 <= i < ids.len(),
        opened[i] is Some,
        forall|j: int| 0 <= j < opened.len() && j != i ==> opened[j] != opened[i],
    ensures
        restored_pins(
            opened,
            places_of(ids, pinned, pinned.len() as int),
            opened.len() as int,
        ).contains(opened[i]->0) == pinned.contains(ids[i]),
{
    let places = places_of(ids, pinned, pinned.len() as int);
    lemma_places(ids, pinned, pinned.len() as int, i);
    lemma_restored(opened, places, opened.len() as int, i);
}

pub(crate) proof fn lemma_places(ids: Seq<PanelId>, pinned: Seq<PanelId>, k: int, i: int)
    requires
        ids.no_duplicates(),
        ids.len() <= usize::MAX,
        0 <= i < ids.len(),
        0 <= k <= pinned.len(),
    ensures
        places_of(ids, pinned, k).contains(i as usize) == exists|j: int|
            0 <= j < k && pinned[j] == ids[i],
    decreases k,
{
    if k > 0 {
        lemma_places(ids, pinned, k - 1, i);
        let before = places_of(ids, pinned, k - 1);
        let all = places_of(ids, pinned, k);
        let last = pinned[k - 1];
        lemma_place(ids, last, ids.len() as int);
        if last == ids[i] {
            lemma_last_place(ids, last, i, ids.len() as int);
            assert(all[before.len() as int] == i as usize);
            assert(pinned[k - 1] == ids[i]);
        }
        if before.contains(i as usize) {
            let at = choose|at: int| 0 <= at < before.len() && before[at] == i as usize;
            assert(all[at] == i as usize);
        }
        if all.contains(i as usize) && !before.contains(i as usize) {
            let at = choose|at: int| 0 <= at < all.len() && all[at] == i as usize;
            if at < before.len() {
                assert(before[at] == i as usize);
            }
            assert(place_of(ids, last, ids.len() as int) == Some(i as usize));
            assert(ids[i] == last);
        }
        if exists|j: int| 0 <= j < k && pinned[j] == ids[i] {
            let j = choose|j: int| 0 <= j < k && pinned[j] == ids[i];
            if j < k - 1 {
                assert(pinned[j] == ids[i]);
            }
        }
    }
}

pub(crate) proof fn lemma_place(ids: Seq<PanelId>, id: PanelId, k: int)
    requires
        0 <= k <= ids.len() <= usize::MAX,
    ensures
        place_of(ids, id, k) is Some ==> (place_of(ids, id, k)->0) < k && ids[place_of(
            ids,
            id,
            k,
        )->0 as int] == id,
    decreases k,
{
    if k > 0 {
        lemma_place(ids, id, k - 1);
    }
}

proof fn lemma_restored(opened: Seq<Option<PanelId>>, places: Seq<usize>, k: int, i: int)
    requires
        0 <= k <= opened.len() <= usize::MAX,
        0 <= i < opened.len(),
        opened[i] is Some,
        forall|j: int| 0 <= j < opened.len() && j != i ==> opened[j] != opened[i],
    ensures
        restored_pins(opened, places, k).contains(opened[i]->0) == (i < k && places.contains(
            i as usize,
        )),
    decreases k,
{
    if k > 0 {
        lemma_restored(opened, places, k - 1, i);
        let before = restored_pins(opened, places, k - 1);
        let all = restored_pins(opened, places, k);
        let id = opened[i]->0;
        if before.contains(id) {
            let at = choose|at: int| 0 <= at < before.len() && before[at] == id;
            assert(all[at] == id);
        }
        if all.contains(id) && !before.contains(id) {
            let at = choose|at: int| 0 <= at < all.len() && all[at] == id;
            if at < before.len() {
                assert(before[at] == id);
            }
            assert(opened[k - 1] == Some(id));
        }
        if i == k - 1 && places.contains(i as usize) {
            assert(all[before.len() as int] == id);
        }
    }
}

pub(crate) proof fn lemma_last_place(ids: Seq<PanelId>, id: PanelId, i: int, k: int)
    requires
        0 <= i < k <= ids.len() <= usize::MAX,
        ids[i] == id,
        forall|j: int| i < j < ids.len() ==> ids[j] != id,
    ensures
        place_of(ids, id, k) == Some(i as usize),
    decreases k,
{
    if i < k - 1 {
        lemma_last_place(ids, id, i, k - 1);
    }
}

/// When a session is written: changes within a short time are written once,
/// and those of a window that does not own the session never.
#[derive(Debug)]
pub struct SessionWriter {
    pub owner: bool,
    pub pending: Option<TemporaryWorkspaceSession>,
    pub scheduled: bool,
}

/// How long changes are gathered before a session is written.
pub const SESSION_PERSIST_MILLIS: u64 = 150;

impl SessionWriter {
    pub fn new(owner: bool) -> (writer: Self)
        ensures
            writer == (SessionWriter { owner, pending: None, scheduled: false }),
    {
        SessionWriter { owner, pending: None, scheduled: false }
    }

    /// Takes the latest session of the window that owns it. Says whether
    /// writing must be scheduled.
    pub fn persist_temporary_workspace_session(&mut self, session: TemporaryWorkspaceSession) -> (schedule:
        bool)
        ensures
            schedule == (old(self).owner && !old(self).scheduled),
            *final(self) == (if old(self).owner {
                SessionWriter { owner: true, pending: Some(session), scheduled: true }
            } else {
                *old(self)
            }),
    {
        if !self.owner {
            return false;
        }
        self.pending = Some(session);
        if self.scheduled {
            return false;
        }
        self.scheduled = true;
        true
    }

    /// The time has come: hands back the latest session.
    pub fn write_due(&mut self) -> (session: Option<TemporaryWorkspaceSession>)
        ensures
            session == old(self).pending,
            *final(self) == (SessionWriter { pending: None, scheduled: false, ..*old(self) }),
    {
        self.scheduled = false;
        let mut session = None;
        std::mem::swap(&mut session, &mut self.pending);
        session
    }
}

} // verus!
