//! The search bar of a document: its modes, its style filters, and what its
//! controls ask for.

use crate::styles::{
    lemma_runs_len_front, runs_len, HighlightStyle, ParagraphStyle, RunSemanticStyle, RunStyles,
    TextRun,
};
use crate::text::{decimal, push_decimal, same_text};
use vstd::prelude::*;
use vstd::string::StringExecFns;

verus! {

#[derive(Clone, Copy, Debug, PartialEq, Eq, Structural)]
pub enum DocumentSearchBarEvent {
    QueryChanged,
    CaseSensitivityChanged,
    WholeWordsChanged,
    RegexModeChanged,
    StyleFilterChanged,
    PreviousRequested,
    NextRequested,
    ApplyReplaceCurrentRequested,
    ApplyReplaceRequested,
    CloseRequested,
}

/// What the bar's controls hold.
#[derive(Debug)]
pub struct DocumentSearchBar {
    pub query: String,
    pub replacement: String,
    pub active_match: Option<usize>,
    pub match_count: usize,
    pub case_sensitive: bool,
    pub whole_words: bool,
    /// The query is a regular expression; whole words are inert then.
    pub use_regex: bool,
    /// What is wrong with the pattern, shown in place of the count.
    pub regex_error: Option<String>,
    pub enabled_styles: [bool; 7],
    pub highlight_types: [bool; 4],
    pub underline: bool,
    pub strikethrough: bool,
    pub semantic_styles: [bool; 6],
}

/// The filter slot of a paragraph style, in menu order.
pub open spec fn style_slot(style: ParagraphStyle) -> Option<int> {
    match style {
        ParagraphStyle::Normal => Some(0),
        ParagraphStyle::Pocket => Some(1),
        ParagraphStyle::Hat => Some(2),
        ParagraphStyle::Block => Some(3),
        ParagraphStyle::Tag => Some(4),
        ParagraphStyle::Analytic => Some(5),
        ParagraphStyle::Undertag => Some(6),
        ParagraphStyle::Other(_) => None,
    }
}

/// The filter slot of a highlight, in menu order.
pub open spec fn highlight_slot(style: HighlightStyle) -> Option<int> {
    match style {
        HighlightStyle::Spoken => Some(0),
        HighlightStyle::Insert => Some(1),
        HighlightStyle::Alternative => Some(2),
        HighlightStyle::Marked => Some(3),
        HighlightStyle::Other(_) => None,
    }
}

/// The filter slot of a semantic style, in menu order.
pub open spec fn semantic_slot(style: RunSemanticStyle) -> Option<int> {
    match style {
        RunSemanticStyle::Plain => Some(0),
        RunSemanticStyle::Cite => Some(1),
        RunSemanticStyle::Emphasis => Some(2),
        RunSemanticStyle::Underline => Some(3),
        RunSemanticStyle::Condensed => Some(4),
        RunSemanticStyle::Ultracondensed => Some(5),
        RunSemanticStyle::Other(_) => None,
    }
}

/// The menu's names for the paragraph style filters.
pub open spec fn style_filter_labels() -> Seq<Seq<char>> {
    seq!["Normal"@, "Pocket"@, "Hat"@, "Block"@, "Tag"@, "Analytic"@, "Undertag"@]
}

/// The menu's names for the highlight filters.
pub open spec fn highlight_filter_labels() -> Seq<Seq<char>> {
    seq!["Spoken"@, "Insert"@, "Alternative"@, "Marked"@]
}

/// The menu's names for the semantic style filters.
pub open spec fn semantic_filter_labels() -> Seq<Seq<char>> {
    seq!["Plain"@, "Cite"@, "Emphasis"@, "Underline"@, "Condensed"@, "Ultracondensed"@]
}

/// Some flag is set.
pub open spec fn any_set(flags: Seq<bool>) -> bool {
    exists|i: int| 0 <= i < flags.len() && #[trigger] flags[i]
}

fn any_of(flags: &[bool]) -> (b: bool)
    ensures
        b == any_set(flags@),
{
    let mut next: usize = 0;
    while next < flags.len()
        invariant
            next <= flags@.len(),
            forall|i: int| 0 <= i < next ==> !#[trigger] flags@[i],
        decreases flags@.len() - next,
    {
        if flags[next] {
            return true;
        }
        next = next + 1;
    }
    false
}

/// A line of the filter menu.
#[derive(Clone, Copy, Debug)]
pub struct FilterItem {
    pub label: &'static str,
    pub checked: bool,
}

/// The lines pair the labels with the flags, in order.
pub open spec fn filter_items(
    items: Seq<FilterItem>,
    labels: Seq<Seq<char>>,
    flags: Seq<bool>,
) -> bool {
    &&& items.len() == labels.len()
    &&& forall|i: int|
        0 <= i < items.len() ==> (#[trigger] items[i]).label@ == labels[i] && items[i].checked
            == flags[i]
}

/// What stands beside the query: the pattern's fault or the match count.
#[derive(Debug)]
pub enum SearchStatus {
    Fault(String),
    Count(String),
}

/// What the bar draws.
#[derive(Debug)]
pub struct SearchBarView {
    pub status: SearchStatus,
    pub case_sensitive: bool,
    pub whole_words: bool,
    pub whole_words_disabled: bool,
    pub whole_words_tooltip: &'static str,
    pub use_regex: bool,
    pub styles: Vec<FilterItem>,
    pub semantics: Vec<FilterItem>,
    pub highlights: Vec<FilterItem>,
    pub any_highlight: bool,
    pub underline: bool,
    pub strikethrough: bool,
}

/// A run's styles pass one of the filters that are on.
pub open spec fn styles_pass(bar: DocumentSearchBar, styles: RunStyles) -> bool {
    ||| styles.highlight is Some && highlight_slot(styles.highlight->0) is Some
        && bar.highlight_types@[highlight_slot(styles.highlight->0)->0]
    ||| bar.underline && styles.direct_underline
    ||| bar.strikethrough && styles.strikethrough
    ||| semantic_slot(styles.semantic) is Some && bar.semantic_styles@[semantic_slot(
        styles.semantic,
    )->0]
}

/// A run reaches into the byte range and its styles pass.
pub open spec fn run_passes(
    bar: DocumentSearchBar,
    runs: Seq<TextRun>,
    i: int,
    start: int,
    end: int,
) -> bool {
    &&& runs_len(runs.take(i)) < end
    &&& runs_len(runs.take(i)) + runs[i].len > start
    &&& styles_pass(bar, runs[i].styles)
}

/// Some run reaches into the byte range and its styles pass.
pub open spec fn some_run_passes(
    bar: DocumentSearchBar,
    runs: Seq<TextRun>,
    start: int,
    end: int,
) -> bool {
    exists|i: int| 0 <= i < runs.len() && #[trigger] run_passes(bar, runs, i, start, end)
}

/// The count of matches and the place of the active one, counted from one.
pub open spec fn count_text(active: Option<usize>, count: usize) -> Seq<char> {
    if count == 0 {
        "0 of 0"@
    } else {
        match active {
            Some(active) => decimal((active + 1) as nat) + " of "@ + decimal(count as nat),
            None => "0 of "@ + decimal(count as nat),
        }
    }
}

impl DocumentSearchBar {
    /// The bar has an empty query, all modes off and all filters on.
    pub open spec fn is_fresh(self) -> bool {
        &&& self.query@ == Seq::<char>::empty()
        &&& self.replacement@ == Seq::<char>::empty()
        &&& self.active_match is None
        &&& self.match_count == 0
        &&& !self.case_sensitive
        &&& !self.whole_words
        &&& !self.use_regex
        &&& self.regex_error is None
        &&& self.underline
        &&& self.strikethrough
        &&& forall|i: int| 0 <= i < 7 ==> #[trigger] self.enabled_styles@[i]
        &&& forall|i: int| 0 <= i < 4 ==> #[trigger] self.highlight_types@[i]
        &&& forall|i: int| 0 <= i < 6 ==> #[trigger] self.semantic_styles@[i]
    }

    /// A bar with an empty query, all modes off and all filters on.
    pub fn new() -> (bar: Self)
        ensures
            bar.is_fresh(),
    {
        DocumentSearchBar {
            query: String::new(),
            replacement: String::new(),
            active_match: None,
            match_count: 0,
            case_sensitive: false,
            whole_words: false,
            use_regex: false,
            regex_error: None,
            enabled_styles: [true, true, true, true, true, true, true],
            highlight_types: [true, true, true, true],
            underline: true,
            strikethrough: true,
            semantic_styles: [true, true, true, true, true, true],
        }
    }

    /// The bar with its match position forgotten.
    pub open spec fn unmatched(self) -> DocumentSearchBar {
        DocumentSearchBar { active_match: None, match_count: 0, ..self }
    }

    /// The typed query changed.
    pub fn set_query(&mut self, query: String) -> (event: DocumentSearchBarEvent)
        ensures
            event == DocumentSearchBarEvent::QueryChanged,
            *final(self) == (DocumentSearchBar { query, ..old(self).unmatched() }),
    {
        self.query = query;
        self.active_match = None;
        self.match_count = 0;
        DocumentSearchBarEvent::QueryChanged
    }

    pub fn query(&self) -> (query: String)
        ensures
            query@ == self.query@,
    {
        self.query.clone()
    }

    pub fn replacement(&self) -> (replacement: String)
        ensures
            replacement@ == self.replacement@,
    {
        self.replacement.clone()
    }

    /// One of the bar's two inputs has focus.
    pub fn input_focused(&self, search_focused: bool, replace_focused: bool) -> (b: bool)
        ensures
            b == (search_focused || replace_focused),
    {
        search_focused || replace_focused
    }

    pub fn case_sensitive(&self) -> (b: bool)
        ensures
            b == self.case_sensitive,
    {
        self.case_sensitive
    }

    pub fn whole_words(&self) -> (b: bool)
        ensures
            b == self.whole_words,
    {
        self.whole_words
    }

    pub fn use_regex(&self) -> (b: bool)
        ensures
            b == self.use_regex,
    {
        self.use_regex
    }

    /// Takes the pattern's fault, none where it compiles; says whether what
    /// the bar shows changed.
    pub fn set_regex_error(&mut self, error: Option<String>) -> (changed: bool)
        ensures
            changed == (match (old(self).regex_error, error) {
                (None, None) => false,
                (Some(before), Some(after)) => before@ != after@,
                _ => true,
            }),
            *final(self) == (if changed {
                DocumentSearchBar { regex_error: error, ..*old(self) }
            } else {
                *old(self)
            }),
    {
        let same = match (&self.regex_error, &error) {
            (None, None) => true,
            (Some(before), Some(after)) => same_text(before.as_str(), after.as_str()),
            _ => false,
        };
        if same {
            return false;
        }
        self.regex_error = error;
        true
    }

    /// Paragraphs of the style are searched; a style without a filter always.
    pub fn paragraph_style_enabled(&self, style: ParagraphStyle) -> (b: bool)
        ensures
            b == (match style_slot(style) {
                Some(slot) => self.enabled_styles@[slot],
                None => true,
            }),
    {
        match style {
            ParagraphStyle::Normal => self.enabled_styles[0],
            ParagraphStyle::Pocket => self.enabled_styles[1],
            ParagraphStyle::Hat => self.enabled_styles[2],
            ParagraphStyle::Block => self.enabled_styles[3],
            ParagraphStyle::Tag => self.enabled_styles[4],
            ParagraphStyle::Analytic => self.enabled_styles[5],
            ParagraphStyle::Undertag => self.enabled_styles[6],
            ParagraphStyle::Other(_) => true,
        }
    }

    /// Some run filter is on.
    pub fn has_active_run_filters(&self) -> (b: bool)
        ensures
            b == (any_set(self.highlight_types@) || self.underline || self.strikethrough
                || any_set(self.semantic_styles@)),
    {
        any_of(&self.highlight_types) || self.underline || self.strikethrough || any_of(
            &self.semantic_styles,
        )
    }

    /// A run of the paragraph that reaches into the byte range passes.
    pub fn run_style_matches_for_range(&self, runs: &Vec<TextRun>, start: usize, end: usize) -> (b:
        bool)
        requires
            runs_len(runs@) <= usize::MAX,
        ensures
            b == (exists|i: int|
                0 <= i < runs@.len() && #[trigger] run_passes(
                    *self,
                    runs@,
                    i,
                    start as int,
                    end as int,
                )),
            b == some_run_passes(*self, runs@, start as int, end as int),
    {
        let mut run_start: usize = 0;
        let mut next: usize = 0;
        assert(runs@.take(0) =~= Seq::empty());
        while next < runs.len()
            invariant
                next <= runs@.len(),
                runs_len(runs@) <= usize::MAX,
                run_start == runs_len(runs@.take(next as int)),
                forall|i: int|
                    0 <= i < next ==> !#[trigger] run_passes(
                        *self,
                        runs@,
                        i,
                        start as int,
                        end as int,
                    ),
            decreases runs@.len() - next,
        {
            proof {
                lemma_runs_len_front(runs@, next + 1);
                assert(runs@.take(next + 1).drop_last() =~= runs@.take(next as int));
                assert(runs@.take(next + 1).last() == runs@[next as int]);
            }
            let run = runs[next];
            let run_end: usize = run_start + run.len;
            if run_start < end && run_end > start && self.styles_match(run.styles) {
                assert(run_passes(*self, runs@, next as int, start as int, end as int));
                return true;
            }
            run_start = run_end;
            next = next + 1;
        }
        false
    }

    fn styles_match(&self, styles: RunStyles) -> (b: bool)
        ensures
            b == styles_pass(*self, styles),
    {
        if let Some(highlight) = styles.highlight {
            if self.highlight_type_enabled(highlight) {
                return true;
            }
        }
        (self.underline && styles.direct_underline) || (self.strikethrough && styles.strikethrough)
            || self.semantic_style_enabled(styles.semantic)
    }

    fn semantic_style_enabled(&self, style: RunSemanticStyle) -> (b: bool)
        ensures
            b == (semantic_slot(style) is Some && self.semantic_styles@[semantic_slot(style)->0]),
    {
        match style {
            RunSemanticStyle::Plain => self.semantic_styles[0],
            RunSemanticStyle::Cite => self.semantic_styles[1],
            RunSemanticStyle::Emphasis => self.semantic_styles[2],
            RunSemanticStyle::Underline => self.semantic_styles[3],
            RunSemanticStyle::Condensed => self.semantic_styles[4],
            RunSemanticStyle::Ultracondensed => self.semantic_styles[5],
            RunSemanticStyle::Other(_) => false,
        }
    }

    fn highlight_type_enabled(&self, style: HighlightStyle) -> (b: bool)
        ensures
            b == (highlight_slot(style) is Some && self.highlight_types@[highlight_slot(style)->0]),
    {
        match style {
            HighlightStyle::Spoken => self.highlight_types[0],
            HighlightStyle::Insert => self.highlight_types[1],
            HighlightStyle::Alternative => self.highlight_types[2],
            HighlightStyle::Marked => self.highlight_types[3],
            HighlightStyle::Other(_) => false,
        }
    }

    pub fn toggle_highlight_type(&mut self, ix: usize) -> (event: DocumentSearchBarEvent)
        requires
            ix < 4,
        ensures
            event == DocumentSearchBarEvent::StyleFilterChanged,
            final(self).highlight_types@ == old(self).highlight_types@.update(
                ix as int,
                !old(self).highlight_types@[ix as int],
            ),
            *final(self) == (DocumentSearchBar {
                highlight_types: final(self).highlight_types,
                ..old(self).unmatched()
            }),
    {
        self.highlight_types[ix] = !self.highlight_types[ix];
        self.active_match = None;
        self.match_count = 0;
        DocumentSearchBarEvent::StyleFilterChanged
    }

    pub fn toggle_underline(&mut self) -> (event: DocumentSearchBarEvent)
        ensures
            event == DocumentSearchBarEvent::StyleFilterChanged,
            *final(self) == (DocumentSearchBar {
                underline: !old(self).underline,
                ..old(self).unmatched()
            }),
    {
        self.underline = !self.underline;
        self.active_match = None;
        self.match_count = 0;
        DocumentSearchBarEvent::StyleFilterChanged
    }

    pub fn toggle_strikethrough(&mut self) -> (event: DocumentSearchBarEvent)
        ensures
            event == DocumentSearchBarEvent::StyleFilterChanged,
            *final(self) == (DocumentSearchBar {
                strikethrough: !old(self).strikethrough,
                ..old(self).unmatched()
            }),
    {
        self.strikethrough = !self.strikethrough;
        self.active_match = None;
        self.match_count = 0;
        DocumentSearchBarEvent::StyleFilterChanged
    }

    pub fn toggle_semantic_style(&mut self, ix: usize) -> (event: DocumentSearchBarEvent)
        requires
            ix < 6,
        ensures
            event == DocumentSearchBarEvent::StyleFilterChanged,
            final(self).semantic_styles@ == old(self).semantic_styles@.update(
                ix as int,
                !old(self).semantic_styles@[ix as int],
            ),
            *final(self) == (DocumentSearchBar {
                semantic_styles: final(self).semantic_styles,
                ..old(self).unmatched()
            }),
    {
        self.semantic_styles[ix] = !self.semantic_styles[ix];
        self.active_match = None;
        self.match_count = 0;
        DocumentSearchBarEvent::StyleFilterChanged
    }

    pub fn set_case_sensitive(&mut self, case_sensitive: bool) -> (event: Option<
        DocumentSearchBarEvent,
    >)
        ensures
            old(self).case_sensitive == case_sensitive ==> event is None && *final(self) == *old(
                self,
            ),
            old(self).case_sensitive != case_sensitive ==> event == Some(
                DocumentSearchBarEvent::CaseSensitivityChanged,
            ) && *final(self) == (DocumentSearchBar { case_sensitive, ..old(self).unmatched() }),
    {
        if self.case_sensitive == case_sensitive {
            return None;
        }
        self.case_sensitive = case_sensitive;
        self.active_match = None;
        self.match_count = 0;
        Some(DocumentSearchBarEvent::CaseSensitivityChanged)
    }

    pub fn set_whole_words(&mut self, whole_words: bool) -> (event: Option<DocumentSearchBarEvent>)
        ensures
            old(self).whole_words == whole_words ==> event is None && *final(self) == *old(self),
            old(self).whole_words != whole_words ==> event == Some(
                DocumentSearchBarEvent::WholeWordsChanged,
            ) && *final(self) == (DocumentSearchBar { whole_words, ..old(self).unmatched() }),
    {
        if self.whole_words == whole_words {
            return None;
        }
        self.whole_words = whole_words;
        self.active_match = None;
        self.match_count = 0;
        Some(DocumentSearchBarEvent::WholeWordsChanged)
    }

    /// Turns regular expressions on or off; a shown fault goes with it.
    pub fn set_use_regex(&mut self, use_regex: bool) -> (event: Option<DocumentSearchBarEvent>)
        ensures
            old(self).use_regex == use_regex ==> event is None && *final(self) == *old(self),
            old(self).use_regex != use_regex ==> event == Some(
                DocumentSearchBarEvent::RegexModeChanged,
            ) && *final(self) == (DocumentSearchBar {
                use_regex,
                regex_error: None,
                ..old(self).unmatched()
            }),
    {
        if self.use_regex == use_regex {
            return None;
        }
        self.use_regex = use_regex;
        self.regex_error = None;
        self.active_match = None;
        self.match_count = 0;
        Some(DocumentSearchBarEvent::RegexModeChanged)
    }

    /// Flips the filter of a paragraph style; a style without one changes
    /// nothing.
    pub fn toggle_style_filter(&mut self, style: ParagraphStyle) -> (event: Option<
        DocumentSearchBarEvent,
    >)
        ensures
            match style_slot(style) {
                None => event is None && *final(self) == *old(self),
                Some(slot) => {
                    &&& event == Some(DocumentSearchBarEvent::StyleFilterChanged)
                    &&& final(self).enabled_styles@ == old(self).enabled_styles@.update(
                        slot,
                        !old(self).enabled_styles@[slot],
                    )
                    &&& *final(self) == (DocumentSearchBar {
                        enabled_styles: final(self).enabled_styles,
                        ..old(self).unmatched()
                    })
                },
            },
    {
        let slot: usize = match style {
            ParagraphStyle::Normal => 0,
            ParagraphStyle::Pocket => 1,
            ParagraphStyle::Hat => 2,
            ParagraphStyle::Block => 3,
            ParagraphStyle::Tag => 4,
            ParagraphStyle::Analytic => 5,
            ParagraphStyle::Undertag => 6,
            ParagraphStyle::Other(_) => return None,
        };
        self.enabled_styles[slot] = !self.enabled_styles[slot];
        self.active_match = None;
        self.match_count = 0;
        Some(DocumentSearchBarEvent::StyleFilterChanged)
    }

    pub fn set_match_position(&mut self, active_match: Option<usize>, match_count: usize)
        ensures
            *final(self) == (DocumentSearchBar { active_match, match_count, ..*old(self) }),
    {
        self.active_match = active_match;
        self.match_count = match_count;
    }

    pub fn close(&self) -> (event: DocumentSearchBarEvent)
        ensures
            event == DocumentSearchBarEvent::CloseRequested,
    {
        DocumentSearchBarEvent::CloseRequested
    }

    /// What a key pressed in the bar asks for; a key with no request is left
    /// to others.
    pub fn on_key_down(&self, key: &str, replace_focused: bool) -> (event: Option<
        DocumentSearchBarEvent,
    >)
        ensures
            event == (if key@ == "escape"@ {
                Some(DocumentSearchBarEvent::CloseRequested)
            } else if key@ == "up"@ {
                Some(DocumentSearchBarEvent::PreviousRequested)
            } else if key@ == "down"@ {
                Some(DocumentSearchBarEvent::NextRequested)
            } else if key@ == "enter"@ {
                if replace_focused {
                    Some(DocumentSearchBarEvent::ApplyReplaceRequested)
                } else {
                    Some(DocumentSearchBarEvent::NextRequested)
                }
            } else {
                None
            }),
    {
        if same_text(key, "escape") {
            Some(self.close())
        } else if same_text(key, "up") {
            Some(DocumentSearchBarEvent::PreviousRequested)
        } else if same_text(key, "down") {
            Some(DocumentSearchBarEvent::NextRequested)
        } else if same_text(key, "enter") {
            if replace_focused {
                Some(DocumentSearchBarEvent::ApplyReplaceRequested)
            } else {
                Some(DocumentSearchBarEvent::NextRequested)
            }
        } else {
            None
        }
    }

    /// The count of matches as the bar shows it.
    pub fn count_label(&self) -> (label: String)
        requires
            self.match_count > 0 ==> self.active_match != Some(usize::MAX),
        ensures
            label@ == count_text(self.active_match, self.match_count),
    {
        let mut label = String::new();
        if self.match_count == 0 {
            label.append("0 of 0");
            assert(label@ =~= "0 of 0"@);
            return label;
        }
        match self.active_match {
            Some(active) => {
                push_decimal(&mut label, (active + 1) as u128);
                label.append(" of ");
            },
            None => {
                label.append("0 of ");
            },
        }
        push_decimal(&mut label, self.match_count as u128);
        assert(label@ =~= count_text(self.active_match, self.match_count));
        label
    }

    /// What the bar draws. A broken pattern never reads as a count.
    pub fn render(&self) -> (view: SearchBarView)
        requires
            self.match_count > 0 ==> self.active_match != Some(usize::MAX),
        ensures
            match self.regex_error {
                Some(error) => view.status matches SearchStatus::Fault(shown) && shown@ == error@,
                None => view.status matches SearchStatus::Count(shown) && shown@ == count_text(
                    self.active_match,
                    self.match_count,
                ),
            },
            view.case_sensitive == self.case_sensitive,
            view.whole_words == self.whole_words,
            view.whole_words_disabled == self.use_regex,
            view.whole_words_tooltip@ == (if self.use_regex {
                "Match whole word (off in regex mode — use \\b)"@
            } else {
                "Match whole word"@
            }),
            view.use_regex == self.use_regex,
            filter_items(view.styles@, style_filter_labels(), self.enabled_styles@),
            filter_items(view.semantics@, semantic_filter_labels(), self.semantic_styles@),
            filter_items(view.highlights@, highlight_filter_labels(), self.highlight_types@),
            view.any_highlight == any_set(self.highlight_types@),
            view.underline == self.underline,
            view.strikethrough == self.strikethrough,
    {
        let status = match &self.regex_error {
            Some(error) => SearchStatus::Fault(error.clone()),
            None => SearchStatus::Count(self.count_label()),
        };
        let styles = vec![
            FilterItem { label: "Normal", checked: self.enabled_styles[0] },
            FilterItem { label: "Pocket", checked: self.enabled_styles[1] },
            FilterItem { label: "Hat", checked: self.enabled_styles[2] },
            FilterItem { label: "Block", checked: self.enabled_styles[3] },
            FilterItem { label: "Tag", checked: self.enabled_styles[4] },
            FilterItem { label: "Analytic", checked: self.enabled_styles[5] },
            FilterItem { label: "Undertag", checked: self.enabled_styles[6] },
        ];
        let semantics = vec![
            FilterItem { label: "Plain", checked: self.semantic_styles[0] },
            FilterItem { label: "Cite", checked: self.semantic_styles[1] },
            FilterItem { label: "Emphasis", checked: self.semantic_styles[2] },
            FilterItem { label: "Underline", checked: self.semantic_styles[3] },
            FilterItem { label: "Condensed", checked: self.semantic_styles[4] },
            FilterItem { label: "Ultracondensed", checked: self.semantic_styles[5] },
        ];
        let highlights = vec![
            FilterItem { label: "Spoken", checked: self.highlight_types[0] },
            FilterItem { label: "Insert", checked: self.highlight_types[1] },
            FilterItem { label: "Alternative", checked: self.highlight_types[2] },
            FilterItem { label: "Marked", checked: self.highlight_types[3] },
        ];
        SearchBarView {
            status,
            case_sensitive: self.case_sensitive,
            whole_words: self.whole_words,
            whole_words_disabled: self.use_regex,
            whole_words_tooltip: if self.use_regex {
                "Match whole word (off in regex mode — use \\b)"
            } else {
                "Match whole word"
            },
            use_regex: self.use_regex,
            styles,
            semantics,
            highlights,
            any_highlight: any_of(&self.highlight_types),
            underline: self.underline,
            strikethrough: self.strikethrough,
        }
    }
}

} // verus!
