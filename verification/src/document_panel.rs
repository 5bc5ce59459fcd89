//! A document's panel: its title, its search state and how matches are
//! walked and replaced.

use crate::ids::{is_random_id, random_id};
use crate::pane::PanelId;
use crate::search_bar::{
    any_set, run_passes, style_slot, DocumentSearchBar, DocumentSearchBarEvent,
};
use crate::styles::{runs_len, ParagraphStyle, TextRun};
use vstd::prelude::*;
use vstd::string::StringExecFns;

verus! {

/// A place in a document: a paragraph and a byte of its text.
#[derive(Clone, Copy, Debug, PartialEq, Eq, Structural)]
pub struct DocumentOffset {
    pub paragraph: usize,
    pub byte: usize,
}

/// A half-open range of a document.
#[derive(Clone, Copy, Debug, PartialEq, Eq, Structural)]
pub struct DocumentRange {
    pub start: DocumentOffset,
    pub end: DocumentOffset,
}

/// What search reads of a paragraph.
#[derive(Debug)]
pub struct SearchedParagraph {
    pub style: ParagraphStyle,
    pub runs: Vec<TextRun>,
}

/// What the editor is asked to find.
#[derive(Debug)]
pub struct SearchRequest {
    pub query: String,
    pub case_sensitive: bool,
    pub whole_words: bool,
    pub use_regex: bool,
}

/// What a search bar event asks of its panel.
#[derive(Clone, Copy, Debug, PartialEq, Eq, Structural)]
pub enum PanelSearchAction {
    Refresh,
    SelectPrevious,
    SelectNext,
    ReplaceCurrent,
    ReplaceAll,
    Close,
}

pub open spec fn search_action(event: DocumentSearchBarEvent) -> PanelSearchAction {
    match event {
        DocumentSearchBarEvent::QueryChanged => PanelSearchAction::Refresh,
        DocumentSearchBarEvent::CaseSensitivityChanged => PanelSearchAction::Refresh,
        DocumentSearchBarEvent::WholeWordsChanged => PanelSearchAction::Refresh,
        DocumentSearchBarEvent::RegexModeChanged => PanelSearchAction::Refresh,
        DocumentSearchBarEvent::StyleFilterChanged => PanelSearchAction::Refresh,
        DocumentSearchBarEvent::PreviousRequested => PanelSearchAction::SelectPrevious,
        DocumentSearchBarEvent::NextRequested => PanelSearchAction::SelectNext,
        DocumentSearchBarEvent::ApplyReplaceCurrentRequested => PanelSearchAction::ReplaceCurrent,
        DocumentSearchBarEvent::ApplyReplaceRequested => PanelSearchAction::ReplaceAll,
        DocumentSearchBarEvent::CloseRequested => PanelSearchAction::Close,
    }
}

/// What the panel does about a search bar event.
pub fn action_for_event(event: DocumentSearchBarEvent) -> (action: PanelSearchAction)
    ensures
        action == search_action(event),
{
    match event {
        DocumentSearchBarEvent::QueryChanged
        | DocumentSearchBarEvent::CaseSensitivityChanged
        | DocumentSearchBarEvent::WholeWordsChanged
        | DocumentSearchBarEvent::RegexModeChanged
        | DocumentSearchBarEvent::StyleFilterChanged => PanelSearchAction::Refresh,
        DocumentSearchBarEvent::PreviousRequested => PanelSearchAction::SelectPrevious,
        DocumentSearchBarEvent::NextRequested => PanelSearchAction::SelectNext,
        DocumentSearchBarEvent::ApplyReplaceCurrentRequested => PanelSearchAction::ReplaceCurrent,
        DocumentSearchBarEvent::ApplyReplaceRequested => PanelSearchAction::ReplaceAll,
        DocumentSearchBarEvent::CloseRequested => PanelSearchAction::Close,
    }
}

/// An open document.
#[derive(Debug)]
pub struct DocumentPanel {
    pub id: PanelId,
    pub title: String,
    pub path: Option<String>,
    pub search_bar: DocumentSearchBar,
    pub active: bool,
    pub search_bar_open: bool,
    pub search_matches: Vec<DocumentRange>,
    pub active_search_match: Option<usize>,
}

/// Some run filter is on.
pub open spec fn run_filters_on(bar: DocumentSearchBar) -> bool {
    any_set(bar.highlight_types@) || bar.underline || bar.strikethrough || any_set(
        bar.semantic_styles@,
    )
}

/// The bar's filters let a match through: its paragraph exists, its style is
/// searched, and with a run filter on some run under the match passes.
pub open spec fn match_passes(
    bar: DocumentSearchBar,
    paragraphs: Seq<SearchedParagraph>,
    range: DocumentRange,
) -> bool {
    &&& range.start.paragraph < paragraphs.len()
    &&& ({
        let paragraph = paragraphs[range.start.paragraph as int];
        &&& (style_slot(paragraph.style) is Some ==> bar.enabled_styles@[style_slot(
            paragraph.style,
        )->0])
        &&& (run_filters_on(bar) ==> exists|i: int|
            0 <= i < paragraph.runs@.len() && #[trigger] run_passes(
                bar,
                paragraph.runs@,
                i,
                range.start.byte as int,
                range.end.byte as int,
            ))
    })
}

/// The matches that the bar's filters let through, in order.
pub open spec fn passing(
    bar: DocumentSearchBar,
    paragraphs: Seq<SearchedParagraph>,
    found: Seq<DocumentRange>,
) -> Seq<DocumentRange> {
    found.filter(|range: DocumentRange| match_passes(bar, paragraphs, range))
}

/// The match after the active one, the first after the last.
pub open spec fn next_match(active: Option<usize>, count: int) -> Option<usize> {
    if count == 0 {
        None
    } else {
        match active {
            None => Some(0usize),
            Some(ix) => Some(((ix + 1) % count) as usize),
        }
    }
}

/// The match before the active one, the last before the first.
pub open spec fn previous_match(active: Option<usize>, count: int) -> Option<usize> {
    if count == 0 {
        None
    } else {
        match active {
            None => Some((count - 1) as usize),
            Some(ix) => if ix == 0 {
                Some((count - 1) as usize)
            } else {
                Some((ix - 1) as usize)
            },
        }
    }
}

/// The panel after its search was refreshed: an empty query clears the
/// matches, a pattern that does not compile clears them and shows its fault,
/// else the matches that the filters let through stay and the first is
/// active.
pub open spec fn refreshed(
    before: DocumentPanel,
    after: DocumentPanel,
    found: Result<Vec<DocumentRange>, String>,
    paragraphs: Seq<SearchedParagraph>,
) -> bool {
    &&& after.count_shown()
    &&& after.active_search_match == (if after.search_matches@.len() > 0 {
        Some(0usize)
    } else {
        None
    })
    &&& after.search_matches@ == (if before.search_bar.query@.len() == 0 {
        Seq::empty()
    } else {
        match found {
            Ok(ranges) => passing(before.search_bar, paragraphs, ranges@),
            Err(_) => Seq::empty(),
        }
    })
    &&& match after.search_bar.regex_error {
        None => before.search_bar.query@.len() == 0 || found is Ok,
        Some(error) => before.search_bar.query@.len() > 0 && found is Err && error@
            == found->Err_0@,
    }
    &&& after == (DocumentPanel {
        search_matches: after.search_matches,
        active_search_match: after.active_search_match,
        search_bar: DocumentSearchBar {
            regex_error: after.search_bar.regex_error,
            active_match: after.search_bar.active_match,
            match_count: after.search_bar.match_count,
            ..before.search_bar
        },
        ..before
    })
}

/// The panel after its bar was closed: the matches are forgotten.
pub open spec fn search_closed(before: DocumentPanel, after: DocumentPanel) -> bool {
    &&& after.search_matches@.len() == 0
    &&& after == (DocumentPanel {
        search_bar_open: false,
        search_matches: after.search_matches,
        active_search_match: None,
        search_bar: before.search_bar.unmatched(),
        ..before
    })
}

/// The panel after an event of its search bar, given what the editor finds.
/// A replacement begins by finding the matches anew.
pub open spec fn panel_follows(
    before: DocumentPanel,
    after: DocumentPanel,
    event: DocumentSearchBarEvent,
    found: Result<Vec<DocumentRange>, String>,
    paragraphs: Seq<SearchedParagraph>,
) -> bool {
    match search_action(event) {
        PanelSearchAction::Refresh => refreshed(before, after, found, paragraphs),
        PanelSearchAction::SelectPrevious => after == before.at_match(
            previous_match(before.active_search_match, before.search_matches@.len() as int),
        ),
        PanelSearchAction::SelectNext => after == before.at_match(
            next_match(before.active_search_match, before.search_matches@.len() as int),
        ),
        PanelSearchAction::ReplaceCurrent => refreshed(before, after, found, paragraphs),
        PanelSearchAction::ReplaceAll => refreshed(before, after, found, paragraphs),
        PanelSearchAction::Close => search_closed(before, after),
    }
}

/// Walking on and back again ends at the same match, and so does walking
/// back and on.
pub proof fn match_walks_undo_each_other(active: usize, count: int)
    requires
        0 <= active < count <= usize::MAX,
    ensures
        previous_match(next_match(Some(active), count), count) == Some(active),
        next_match(previous_match(Some(active), count), count) == Some(active),
{
    if active + 1 < count {
        vstd::arithmetic::div_mod::lemma_small_mod((active + 1) as nat, count as nat);
    } else {
        assert((active + 1) % count == 0) by (nonlinear_arith)
            requires
                active + 1 == count,
                count > 0,
        ;
    }
    if active > 0 {
        vstd::arithmetic::div_mod::lemma_small_mod(active as nat, count as nat);
    } else {
        assert((count - 1 + 1) % count == 0) by (nonlinear_arith)
            requires
                count > 0,
        ;
    }
}

/// The name a document shows: its file's, or that of an unsaved one.
pub open spec fn file_title(file_name: Option<String>) -> Seq<char> {
    match file_name {
        Some(name) => name@,
        None => "Untitled.db8"@,
    }
}

/// The title of a document by the last component of its path.
pub fn title_for_path(file_name: Option<String>) -> (title: String)
    ensures
        title@ == file_title(file_name),
{
    match file_name {
        Some(name) => name,
        None => String::from_str("Untitled.db8"),
    }
}

impl DocumentPanel {
    /// The bar shows the panel's count and place.
    pub open spec fn count_shown(self) -> bool {
        self.search_bar.active_match == self.active_search_match && self.search_bar.match_count
            == self.search_matches@.len()
    }

    /// The active match is one of the matches.
    pub open spec fn place_valid(self) -> bool {
        match self.active_search_match {
            Some(ix) => ix < self.search_matches@.len(),
            None => true,
        }
    }

    /// With a match made the active one, or none.
    pub open spec fn at_match(self, active: Option<usize>) -> DocumentPanel {
        DocumentPanel {
            active_search_match: active,
            search_bar: DocumentSearchBar {
                active_match: active,
                match_count: self.search_matches@.len() as usize,
                ..self.search_bar
            },
            ..self
        }
    }

    /// A new panel: its search bar is fresh and closed, and a title given wins
    /// over the file's name.
    pub open spec fn is_new(
        self,
        title: Option<String>,
        path: Option<String>,
        file_name: Option<String>,
    ) -> bool {
        &&& self.title@ == (match title {
            Some(title) => title@,
            None => file_title(file_name),
        })
        &&& self.path == path
        &&& !self.active
        &&& !self.search_bar_open
        &&& self.search_matches@.len() == 0
        &&& self.active_search_match is None
        &&& self.count_shown()
        &&& self.search_bar.is_fresh()
    }

    /// A new panel under a random id.
    pub fn new_with_title(
        title: Option<String>,
        path: Option<String>,
        file_name: Option<String>,
    ) -> (panel: Self)
        ensures
            is_random_id(panel.id),
            panel.is_new(title, path, file_name),
    {
        DocumentPanel::new_with_id(random_id(), title, path, file_name)
    }

    /// A new panel under an id.
    pub fn new_with_id(
        id: PanelId,
        title: Option<String>,
        path: Option<String>,
        file_name: Option<String>,
    ) -> (panel: Self)
        ensures
            panel.id == id,
            panel.is_new(title, path, file_name),
    {
        let title = match title {
            Some(title) => title,
            None => title_for_path(file_name),
        };
        DocumentPanel {
            id,
            title,
            path,
            search_bar: DocumentSearchBar::new(),
            active: false,
            search_bar_open: false,
            search_matches: Vec::new(),
            active_search_match: None,
        }
    }

    pub fn id(&self) -> (id: PanelId)
        ensures
            id == self.id,
    {
        self.id
    }

    pub fn path(&self) -> (path: Option<&String>)
        ensures
            match path {
                Some(path) => self.path == Some(*path),
                None => self.path is None,
            },
    {
        match &self.path {
            Some(path) => Some(path),
            None => None,
        }
    }

    pub fn title_text(&self) -> (title: String)
        ensures
            title@ == self.title@,
    {
        self.title.clone()
    }

    pub fn search_bar_open(&self) -> (b: bool)
        ensures
            b == self.search_bar_open,
    {
        self.search_bar_open
    }

    /// The open bar has the keyboard.
    pub fn search_bar_focused(&self, search_focused: bool, replace_focused: bool) -> (b: bool)
        ensures
            b == (self.search_bar_open && (search_focused || replace_focused)),
    {
        self.search_bar_open && self.search_bar.input_focused(search_focused, replace_focused)
    }

    /// The paragraph each match begins in.
    pub fn search_match_paragraphs(&self) -> (paragraphs: Vec<usize>)
        ensures
            paragraphs@ == self.search_matches@.map_values(
                |range: DocumentRange| range.start.paragraph,
            ),
    {
        let mut paragraphs: Vec<usize> = Vec::new();
        let mut next: usize = 0;
        while next < self.search_matches.len()
            invariant
                next <= self.search_matches@.len(),
                paragraphs@.len() == next,
                forall|i: int|
                    0 <= i < next ==> #[trigger] paragraphs@[i]
                        == self.search_matches@[i].start.paragraph,
            decreases self.search_matches@.len() - next,
        {
            paragraphs.push(self.search_matches[next].start.paragraph);
            next = next + 1;
        }
        assert(paragraphs@ =~= self.search_matches@.map_values(
            |range: DocumentRange| range.start.paragraph,
        ));
        paragraphs
    }

    /// The document now lives at a path; its title is the file's name.
    pub fn set_path(&mut self, path: String, file_name: Option<String>)
        ensures
            final(self).title@ == file_title(file_name),
            *final(self) == (DocumentPanel {
                title: final(self).title,
                path: Some(path),
                ..*old(self)
            }),
    {
        self.title = title_for_path(file_name);
        self.path = Some(path);
    }

    /// The title with a mark for unsaved changes.
    pub fn display_title(&self, is_dirty: bool) -> (title: String)
        ensures
            title@ == (if is_dirty {
                self.title@ + " *"@
            } else {
                self.title@
            }),
    {
        let mut title = self.title.clone();
        if is_dirty {
            title.append(" *");
        }
        title
    }

    /// Marks the panel shown or hidden; a shown one becomes the workspace's
    /// active document.
    pub fn set_active(&mut self, active: bool) -> (activates: bool)
        ensures
            activates == active,
            *final(self) == (DocumentPanel { active, ..*old(self) }),
    {
        self.active = active;
        active
    }

    fn update_search_bar_count(&mut self)
        ensures
            final(self).count_shown(),
            *final(self) == (DocumentPanel { search_bar: final(self).search_bar, ..*old(self) }),
            final(self).search_bar == (DocumentSearchBar {
                active_match: old(self).active_search_match,
                match_count: old(self).search_matches@.len() as usize,
                ..old(self).search_bar
            }),
    {
        self.search_bar.set_match_position(self.active_search_match, self.search_matches.len());
    }

    /// Opens the bar; its matches are refreshed next.
    pub fn open_search_bar(&mut self)
        ensures
            *final(self) == (DocumentPanel { search_bar_open: true, ..*old(self) }),
    {
        self.search_bar_open = true;
    }

    /// Closes the bar and forgets the matches.
    pub fn close_search_bar(&mut self)
        ensures
            search_closed(*old(self), *final(self)),
    {
        self.search_bar_open = false;
        self.search_matches.clear();
        self.active_search_match = None;
        self.update_search_bar_count();
    }

    /// What to ask the editor for: nothing for an empty query. Whole words
    /// are inert for a regular expression.
    pub fn search_request(&self) -> (request: Option<SearchRequest>)
        ensures
            match request {
                None => self.search_bar.query@.len() == 0,
                Some(request) => {
                    &&& self.search_bar.query@.len() > 0
                    &&& request.query@ == self.search_bar.query@
                    &&& request.case_sensitive == self.search_bar.case_sensitive
                    &&& request.use_regex == self.search_bar.use_regex
                    &&& request.whole_words == (self.search_bar.whole_words
                        && !self.search_bar.use_regex)
                },
            },
    {
        if self.search_bar.query.as_str().is_empty() {
            None
        } else {
            Some(
                SearchRequest {
                    query: self.search_bar.query(),
                    case_sensitive: self.search_bar.case_sensitive(),
                    whole_words: self.search_bar.whole_words() && !self.search_bar.use_regex(),
                    use_regex: self.search_bar.use_regex(),
                },
            )
        }
    }

    fn filter_passes(&self, paragraphs: &Vec<SearchedParagraph>, range: DocumentRange) -> (b: bool)
        requires
            forall|i: int|
                0 <= i < paragraphs@.len() ==> runs_len((#[trigger] paragraphs@[i]).runs@)
                    <= usize::MAX,
        ensures
            b == match_passes(self.search_bar, paragraphs@, range),
    {
        if range.start.paragraph >= paragraphs.len() {
            return false;
        }
        let paragraph = &paragraphs[range.start.paragraph];
        if !self.search_bar.paragraph_style_enabled(paragraph.style) {
            return false;
        }
        if self.search_bar.has_active_run_filters() {
            return self.search_bar.run_style_matches_for_range(
                &paragraph.runs,
                range.start.byte,
                range.end.byte,
            );
        }
        true
    }

    /// Takes what the editor found. An empty query clears the matches; a
    /// pattern that does not compile clears them and shows its fault; else
    /// the matches that the filters let through stay and the first is active.
    pub fn refresh_search_matches(
        &mut self,
        found: Result<Vec<DocumentRange>, String>,
        paragraphs: &Vec<SearchedParagraph>,
    )
        requires
            forall|i: int|
                0 <= i < paragraphs@.len() ==> runs_len((#[trigger] paragraphs@[i]).runs@)
                    <= usize::MAX,
        ensures
            refreshed(*old(self), *final(self), found, paragraphs@),
    {
        if self.search_bar.query.as_str().is_empty() {
            self.search_bar.set_regex_error(None);
            self.search_matches.clear();
            self.active_search_match = None;
            assert(self.search_matches@ =~= Seq::empty());
        } else {
            let ghost bar = self.search_bar;
            let (ranges, error): (Vec<DocumentRange>, Option<String>) = match found {
                Ok(ranges) => (ranges, None),
                Err(error) => (Vec::new(), Some(error)),
            };
            let mut kept: Vec<DocumentRange> = Vec::new();
            let mut next: usize = 0;
            proof {
                reveal(Seq::filter);
                assert(ranges@.take(0) =~= Seq::empty());
            }
            while next < ranges.len()
                invariant
                    next <= ranges@.len(),
                    bar == self.search_bar,
                    *self == *old(self),
                    forall|i: int|
                        0 <= i < paragraphs@.len() ==> runs_len((#[trigger] paragraphs@[i]).runs@)
                            <= usize::MAX,
                    kept@ == passing(bar, paragraphs@, ranges@.take(next as int)),
                decreases ranges@.len() - next,
            {
                proof {
                    reveal(Seq::filter);
                    let taken = ranges@.take(next + 1);
                    assert(taken.drop_last() =~= ranges@.take(next as int));
                    assert(taken.last() == ranges@[next as int]);
                }
                if self.filter_passes(paragraphs, ranges[next]) {
                    kept.push(ranges[next]);
                }
                next = next + 1;
            }
            assert(ranges@.take(next as int) =~= ranges@);
            proof {
                if found is Err {
                    assert(kept@ =~= Seq::empty());
                }
            }
            self.search_bar.set_regex_error(error);
            self.search_matches = kept;
            self.active_search_match = if self.search_matches.len() > 0 {
                Some(0)
            } else {
                None
            };
        }
        self.update_search_bar_count();
    }

    /// Activates the match before, the last one before the first.
    pub fn select_previous_search_match(&mut self)
        ensures
            *final(self) == old(self).at_match(
                previous_match(old(self).active_search_match, old(self).search_matches@.len() as int),
            ),
            final(self).count_shown(),
            old(self).place_valid() ==> final(self).place_valid(),
    {
        let count: usize = self.search_matches.len();
        if count == 0 {
            self.active_search_match = None;
        } else {
            self.active_search_match = match self.active_search_match {
                None => Some(count - 1),
                Some(ix) => if ix == 0 {
                    Some(count - 1)
                } else {
                    Some(ix - 1)
                },
            };
        }
        self.update_search_bar_count();
    }

    /// Activates the match after, the first one after the last.
    pub fn select_next_search_match(&mut self)
        requires
            old(self).active_search_match matches Some(ix) ==> ix < usize::MAX,
        ensures
            *final(self) == old(self).at_match(
                next_match(old(self).active_search_match, old(self).search_matches@.len() as int),
            ),
            final(self).count_shown(),
            old(self).place_valid() ==> final(self).place_valid(),
    {
        let count: usize = self.search_matches.len();
        if count == 0 {
            self.active_search_match = None;
        } else {
            self.active_search_match = match self.active_search_match {
                None => Some(0),
                Some(ix) => Some((ix + 1) % count),
            };
        }
        self.update_search_bar_count();
    }

    /// Does what an event of the search bar asks for, given what the editor
    /// finds for the bar's request, and says what it was: a replacement goes
    /// on with the matches that were just found.
    pub fn on_search_event(
        &mut self,
        event: DocumentSearchBarEvent,
        found: Result<Vec<DocumentRange>, String>,
        paragraphs: &Vec<SearchedParagraph>,
    ) -> (action: PanelSearchAction)
        requires
            old(self).active_search_match matches Some(ix) ==> ix < usize::MAX,
            forall|i: int|
                0 <= i < paragraphs@.len() ==> runs_len((#[trigger] paragraphs@[i]).runs@)
                    <= usize::MAX,
        ensures
            action == search_action(event),
            panel_follows(*old(self), *final(self), event, found, paragraphs@),
            final(self).count_shown(),
            old(self).place_valid() ==> final(self).place_valid(),
    {
        let action = action_for_event(event);
        match action {
            PanelSearchAction::Refresh
            | PanelSearchAction::ReplaceCurrent
            | PanelSearchAction::ReplaceAll => self.refresh_search_matches(found, paragraphs),
            PanelSearchAction::SelectPrevious => self.select_previous_search_match(),
            PanelSearchAction::SelectNext => self.select_next_search_match(),
            PanelSearchAction::Close => self.close_search_bar(),
        }
        action
    }

    /// A replacement was made, or was not: one that was made has the matches
    /// found anew.
    pub fn replace_ended(
        &mut self,
        replaced: bool,
        found: Result<Vec<DocumentRange>, String>,
        paragraphs: &Vec<SearchedParagraph>,
    )
        requires
            forall|i: int|
                0 <= i < paragraphs@.len() ==> runs_len((#[trigger] paragraphs@[i]).runs@)
                    <= usize::MAX,
        ensures
            if replaced {
                refreshed(*old(self), *final(self), found, paragraphs@)
            } else {
                *final(self) == *old(self)
            },
    {
        if replaced {
            self.refresh_search_matches(found, paragraphs);
        }
    }

    /// The replacement refers to what the pattern captured, so it is expanded
    /// for each match: the pattern is a regular expression and the template
    /// has a dollar sign.
    pub fn regex_replace_overrides(&self, template: &str) -> (b: bool)
        ensures
            b == (self.search_bar.use_regex && template@.contains('$')),
    {
        if !self.search_bar.use_regex() {
            return false;
        }
        let chars = crate::text::chars_of(template);
        let mut next: usize = 0;
        while next < chars.len()
            invariant
                next <= chars@.len(),
                chars@ == template@,
                self.search_bar.use_regex,
                forall|i: int| 0 <= i < next ==> chars@[i] != '$',
            decreases chars@.len() - next,
        {
            if chars[next] == '$' {
                return true;
            }
            next = next + 1;
        }
        false
    }

    /// What replaces the active match: its own expansion where there is one,
    /// else the replacement as typed. Without an active match nothing is
    /// replaced.
    pub fn apply_replace_current(&self, expansions: &Option<Vec<Option<String>>>) -> (text: Option<
        String,
    >)
        ensures
            match text {
                None => self.search_matches@.len() == 0 || self.active_search_match is None,
                Some(text) => {
                    &&& self.search_matches@.len() > 0
                    &&& self.active_search_match is Some
                    &&& text@ == replacement_at(
                        *expansions,
                        (self.active_search_match->0) as int,
                        self.search_bar.replacement@,
                    )
                },
            },
    {
        if self.search_matches.len() == 0 {
            return None;
        }
        match self.active_search_match {
            None => None,
            Some(ix) => {
                if let Some(list) = expansions {
                    if ix < list.len() {
                        if let Some(text) = &list[ix] {
                            return Some(text.clone());
                        }
                    }
                }
                Some(self.search_bar.replacement())
            },
        }
    }

    /// What replaces every match: the replacement as typed, and the
    /// expansions that go before it. Without a match nothing is replaced.
    pub fn apply_replace(&self, expansions: Option<Vec<Option<String>>>) -> (all: Option<
        (String, Vec<Option<String>>),
    >)
        ensures
            match all {
                None => self.search_matches@.len() == 0,
                Some((text, overrides)) => {
                    &&& self.search_matches@.len() > 0
                    &&& text@ == self.search_bar.replacement@
                    &&& match expansions {
                        Some(list) => overrides == list,
                        None => overrides@.len() == 0,
                    }
                },
            },
    {
        if self.search_matches.len() == 0 {
            return None;
        }
        let overrides = match expansions {
            Some(list) => list,
            None => Vec::new(),
        };
        Some((self.search_bar.replacement(), overrides))
    }
}

/// What replaces a match: its own expansion where there is one, else the
/// replacement as typed.
pub open spec fn replacement_at(
    expansions: Option<Vec<Option<String>>>,
    ix: int,
    replacement: Seq<char>,
) -> Seq<char> {
    match expansions {
        Some(list) if 0 <= ix < list@.len() && list@[ix] is Some => (list@[ix]->0)@,
        _ => replacement,
    }
}

} // verus!
