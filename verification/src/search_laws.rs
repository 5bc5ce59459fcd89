//! What searching a document promises: which matches stay, in what order they
//! are walked, and what each control of the bar does to them.

use crate::document_panel::{
    match_passes, next_match, panel_follows, passing, previous_match, refreshed, replacement_at,
    DocumentPanel, DocumentRange, PanelSearchAction, SearchedParagraph,
};
use crate::places::{lemma_filter_places, places_are, taken_from};
use crate::search_bar::{
    any_set, count_text, run_passes, styles_pass, DocumentSearchBar, DocumentSearchBarEvent,
};
use crate::styles::{
    runs_len, HighlightStyle, ParagraphStyle, RunSemanticStyle, RunStyles, TextRun,
};
use crate::text::decimal;
use vstd::prelude::*;

verus! {

/// Paragraphs of a style are searched: each style of the menu goes by its own
/// flag, and a style that the menu does not have is always searched.
pub open spec fn style_is_on(bar: DocumentSearchBar, style: ParagraphStyle) -> bool {
    &&& style == ParagraphStyle::Normal ==> bar.enabled_styles@[0]
    &&& style == ParagraphStyle::Pocket ==> bar.enabled_styles@[1]
    &&& style == ParagraphStyle::Hat ==> bar.enabled_styles@[2]
    &&& style == ParagraphStyle::Block ==> bar.enabled_styles@[3]
    &&& style == ParagraphStyle::Tag ==> bar.enabled_styles@[4]
    &&& style == ParagraphStyle::Analytic ==> bar.enabled_styles@[5]
    &&& style == ParagraphStyle::Undertag ==> bar.enabled_styles@[6]
}

/// What a run wears is asked for by some filter that is on.
pub open spec fn wears_what_is_on(bar: DocumentSearchBar, styles: RunStyles) -> bool {
    ||| bar.underline && styles.direct_underline
    ||| bar.strikethrough && styles.strikethrough
    ||| styles.highlight == Some(HighlightStyle::Spoken) && bar.highlight_types@[0]
    ||| styles.highlight == Some(HighlightStyle::Insert) && bar.highlight_types@[1]
    ||| styles.highlight == Some(HighlightStyle::Alternative) && bar.highlight_types@[2]
    ||| styles.highlight == Some(HighlightStyle::Marked) && bar.highlight_types@[3]
    ||| styles.semantic == RunSemanticStyle::Plain && bar.semantic_styles@[0]
    ||| styles.semantic == RunSemanticStyle::Cite && bar.semantic_styles@[1]
    ||| styles.semantic == RunSemanticStyle::Emphasis && bar.semantic_styles@[2]
    ||| styles.semantic == RunSemanticStyle::Underline && bar.semantic_styles@[3]
    ||| styles.semantic == RunSemanticStyle::Condensed && bar.semantic_styles@[4]
    ||| styles.semantic == RunSemanticStyle::Ultracondensed && bar.semantic_styles@[5]
}

/// No filter on what runs wear is on.
pub open spec fn run_filters_off(bar: DocumentSearchBar) -> bool {
    &&& !bar.underline
    &&& !bar.strikethrough
    &&& forall|i: int| 0 <= i < 4 ==> !#[trigger] bar.highlight_types@[i]
    &&& forall|i: int| 0 <= i < 6 ==> !#[trigger] bar.semantic_styles@[i]
}

/// A run of a paragraph shares a byte with a range.
pub open spec fn run_meets(runs: Seq<TextRun>, i: int, start: int, end: int) -> bool {
    &&& 0 <= i < runs.len()
    &&& runs_len(runs.take(i)) < end
    &&& start < runs_len(runs.take(i)) + runs[i].len
}

/// A match belongs in the list: it begins in a paragraph whose style is
/// searched, and with a filter on runs some run that it meets wears what is
/// asked for.
pub open spec fn belongs(
    bar: DocumentSearchBar,
    paragraphs: Seq<SearchedParagraph>,
    range: DocumentRange,
) -> bool {
    &&& range.start.paragraph < paragraphs.len()
    &&& style_is_on(bar, paragraphs[range.start.paragraph as int].style)
    &&& run_filters_off(bar) || exists|i: int|
        #[trigger] run_meets(
            paragraphs[range.start.paragraph as int].runs@,
            i,
            range.start.byte as int,
            range.end.byte as int,
        ) && wears_what_is_on(bar, paragraphs[range.start.paragraph as int].runs@[i].styles)
}

proof fn lemma_belongs(
    bar: DocumentSearchBar,
    paragraphs: Seq<SearchedParagraph>,
    range: DocumentRange,
)
    ensures
        match_passes(bar, paragraphs, range) == belongs(bar, paragraphs, range),
{
    assert(bar.highlight_types@.len() == 4);
    assert(bar.semantic_styles@.len() == 6);
    assert(any_set(bar.highlight_types@) || any_set(bar.semantic_styles@) || bar.underline
        || bar.strikethrough <==> !run_filters_off(bar)) by {
        if any_set(bar.highlight_types@) {
            let i = choose|i: int| 0 <= i < 4 && #[trigger] bar.highlight_types@[i];
        }
        if any_set(bar.semantic_styles@) {
            let i = choose|i: int| 0 <= i < 6 && #[trigger] bar.semantic_styles@[i];
        }
    }
    assert forall|styles: RunStyles| #[trigger] styles_pass(bar, styles) == wears_what_is_on(
        bar,
        styles,
    ) by {}
    if range.start.paragraph < paragraphs.len() {
        let runs = paragraphs[range.start.paragraph as int].runs@;
        let start = range.start.byte as int;
        let end = range.end.byte as int;
        if exists|i: int| 0 <= i < runs.len() && #[trigger] run_passes(bar, runs, i, start, end) {
            let i = choose|i: int|
                0 <= i < runs.len() && #[trigger] run_passes(bar, runs, i, start, end);
            assert(run_meets(runs, i, start, end));
        }
        if exists|i: int| #[trigger] run_meets(runs, i, start, end) && wears_what_is_on(
            bar,
            runs[i].styles,
        ) {
            let i = choose|i: int| #[trigger]
                run_meets(runs, i, start, end) && wears_what_is_on(bar, runs[i].styles);
            assert(run_passes(bar, runs, i, start, end));
        }
    }
}

/// A refresh keeps of what the editor found exactly the matches that belong,
/// in the editor's order; the first is active and the bar shows the count. The
/// places of the matches that stay are handed back.
pub proof fn a_refresh_keeps_what_belongs(
    before: DocumentPanel,
    after: DocumentPanel,
    found: Vec<DocumentRange>,
    paragraphs: Seq<SearchedParagraph>,
) -> (places: Seq<int>)
    requires
        before.search_bar.query@.len() > 0,
        refreshed(before, after, Ok(found), paragraphs),
    ensures
        taken_from(after.search_matches@, found@, places),
        places_are(
            places,
            |i: int| belongs(before.search_bar, paragraphs, found@[i]),
            found@.len() as int,
        ),
        after.active_search_match == (if places.len() > 0 {
            Some(0usize)
        } else {
            None
        }),
        after.search_bar.match_count == places.len(),
        after.search_bar.active_match == after.active_search_match,
        after.search_bar.regex_error is None,
        after.search_bar.query == before.search_bar.query,
        after.search_bar_open == before.search_bar_open,
{
    lemma_passing_belongs(before.search_bar, paragraphs, found@)
}

proof fn lemma_passing_belongs(
    bar: DocumentSearchBar,
    paragraphs: Seq<SearchedParagraph>,
    found: Seq<DocumentRange>,
) -> (places: Seq<int>)
    ensures
        taken_from(passing(bar, paragraphs, found), found, places),
        places_are(places, |i: int| belongs(bar, paragraphs, found[i]), found.len() as int),
{
    let test = |range: DocumentRange| match_passes(bar, paragraphs, range);
    assert(passing(bar, paragraphs, found) == found.filter(test));
    let places = lemma_filter_places(found, test);
    let tested = |i: int| test(found[i]);
    let picks = |i: int| belongs(bar, paragraphs, found[i]);
    assert forall|i: int| 0 <= i < found.len() implies (#[trigger] picks(i) <==> places.contains(
        i,
    )) by {
        lemma_belongs(bar, paragraphs, found[i]);
        assert(tested(i) <==> places.contains(i));
    }
    places
}

/// A style that is switched off hides its paragraphs' matches and no others'.
pub proof fn a_style_that_is_off_is_not_searched(
    bar: DocumentSearchBar,
    paragraphs: Seq<SearchedParagraph>,
    range: DocumentRange,
)
    requires
        range.start.paragraph < paragraphs.len(),
        !style_is_on(bar, paragraphs[range.start.paragraph as int].style),
    ensures
        !match_passes(bar, paragraphs, range),
{
    lemma_belongs(bar, paragraphs, range);
}

/// A pattern that cannot be read clears the matches and shows its fault, and
/// an empty query clears both.
pub proof fn a_broken_pattern_is_no_count(
    before: DocumentPanel,
    after: DocumentPanel,
    found: Result<Vec<DocumentRange>, String>,
    paragraphs: Seq<SearchedParagraph>,
)
    requires
        refreshed(before, after, found, paragraphs),
    ensures
        before.search_bar.query@.len() > 0 ==> (found matches Err(fault) ==> {
            &&& after.search_matches@.len() == 0
            &&& after.active_search_match is None
            &&& after.search_bar.regex_error is Some
            &&& (after.search_bar.regex_error->0)@ == fault@
        }),
        before.search_bar.query@.len() == 0 ==> {
            &&& after.search_matches@.len() == 0
            &&& after.active_search_match is None
            &&& after.search_bar.regex_error is None
        },
{
}

/// The walk goes on by one match at a time and round from the last to the
/// first, and the walk back goes the other way.
pub proof fn the_walk_visits_every_match(active: usize, count: int)
    requires
        0 < count <= usize::MAX,
        active < count,
    ensures
        next_match(None, count) == Some(0usize),
        active + 1 < count ==> next_match(Some(active), count) == Some((active + 1) as usize),
        active + 1 == count ==> next_match(Some(active), count) == Some(0usize),
        previous_match(None, count) == Some((count - 1) as usize),
        active > 0 ==> previous_match(Some(active), count) == Some((active - 1) as usize),
        active == 0 ==> previous_match(Some(active), count) == Some((count - 1) as usize),
        next_match(Some(active), 0) is None,
        previous_match(Some(active), 0) is None,
{
    if active + 1 < count {
        vstd::arithmetic::div_mod::lemma_small_mod((active + 1) as nat, count as nat);
    } else {
        assert((active + 1) % count == 0) by (nonlinear_arith)
            requires
                active + 1 == count,
                count > 0,
        ;
    }
}

/// Each control of the bar does what it says to the panel: what changes the
/// search finds the matches anew, and so does a replacement before it begins;
/// the arrows walk; closing forgets the matches and hides the bar.
pub proof fn every_control_does_its_own(
    before: DocumentPanel,
    after: DocumentPanel,
    event: DocumentSearchBarEvent,
    found: Result<Vec<DocumentRange>, String>,
    paragraphs: Seq<SearchedParagraph>,
)
    requires
        panel_follows(before, after, event, found, paragraphs),
    ensures
        match event {
            DocumentSearchBarEvent::NextRequested => {
                &&& after.search_matches == before.search_matches
                &&& after.active_search_match == next_match(
                    before.active_search_match,
                    before.search_matches@.len() as int,
                )
                &&& after.search_bar.active_match == after.active_search_match
                &&& after.search_bar_open == before.search_bar_open
            },
            DocumentSearchBarEvent::PreviousRequested => {
                &&& after.search_matches == before.search_matches
                &&& after.active_search_match == previous_match(
                    before.active_search_match,
                    before.search_matches@.len() as int,
                )
                &&& after.search_bar.active_match == after.active_search_match
                &&& after.search_bar_open == before.search_bar_open
            },
            DocumentSearchBarEvent::CloseRequested => {
                &&& !after.search_bar_open
                &&& after.search_matches@.len() == 0
                &&& after.active_search_match is None
                &&& after.search_bar.match_count == 0
                &&& after.search_bar.query == before.search_bar.query
            },
            _ => refreshed(before, after, found, paragraphs),
        },
        after.id == before.id,
        after.title == before.title,
        after.path == before.path,
{
}

/// What replaces a match is its own expansion where there is one, else what
/// was typed.
pub proof fn a_match_is_replaced_by_its_own_text(
    expansions: Option<Vec<Option<String>>>,
    ix: int,
    typed: Seq<char>,
)
    ensures
        expansions is None ==> replacement_at(expansions, ix, typed) == typed,
        expansions matches Some(list) ==> {
            &&& 0 <= ix < list@.len() ==> (list@[ix] matches Some(own) ==> replacement_at(
                expansions,
                ix,
                typed,
            ) == own@)
            &&& 0 <= ix < list@.len() ==> (list@[ix] is None ==> replacement_at(
                expansions,
                ix,
                typed,
            ) == typed)
            &&& ix >= list@.len() ==> replacement_at(expansions, ix, typed) == typed
        },
{
}

/// The editor is asked for what the bar says: the typed query, its case mode
/// and whether it is a pattern; whole words count only where it is none.
pub proof fn the_bar_asks_for_what_it_says(
    panel: DocumentPanel,
    request: Option<crate::document_panel::SearchRequest>,
)
    requires
        call_ensures(DocumentPanel::search_request, (&panel,), request),
    ensures
        request is None <==> panel.search_bar.query@.len() == 0,
        request matches Some(request) ==> {
            &&& request.query@ == panel.search_bar.query@
            &&& request.case_sensitive <==> panel.search_bar.case_sensitive
            &&& request.use_regex <==> panel.search_bar.use_regex
            &&& request.whole_words <==> panel.search_bar.whole_words
                && !panel.search_bar.use_regex
        },
{
}

/// Switching a style's filter switches that style and no other.
pub proof fn a_switch_switches_its_own_style(
    bar: &mut DocumentSearchBar,
    style: ParagraphStyle,
    event: Option<DocumentSearchBarEvent>,
    other: ParagraphStyle,
)
    requires
        call_ensures(DocumentSearchBar::toggle_style_filter, (bar, style), event),
    ensures
        !(style is Other) ==> style_is_on(*final(bar), style) == !style_is_on(*old(bar), style),
        other != style ==> style_is_on(*final(bar), other) == style_is_on(*old(bar), other),
{
}

/// The count reads as the place of the active match of all of them.
pub proof fn the_count_reads_as_place_of_all(active: usize, count: usize)
    requires
        active < count,
    ensures
        count_text(Some(active), count) == decimal((active + 1) as nat) + " of "@ + decimal(
            count as nat,
        ),
        count_text(None, 0) == "0 of 0"@,
        count_text(Some(active), 0) == "0 of 0"@,
        count_text(None, count) == "0 of "@ + decimal(count as nat),
{
}

/// Taking what the editor found is such a refresh.
pub proof fn what_the_editor_found_is_filtered(
    panel: &mut DocumentPanel,
    found: Vec<DocumentRange>,
    paragraphs: Vec<SearchedParagraph>,
) -> (places: Seq<int>)
    requires
        call_ensures(
            DocumentPanel::refresh_search_matches,
            (panel, Ok(found), &paragraphs),
            (),
        ),
        old(panel).search_bar.query@.len() > 0,
    ensures
        taken_from(final(panel).search_matches@, found@, places),
        places_are(
            places,
            |i: int| belongs(old(panel).search_bar, paragraphs@, found@[i]),
            found@.len() as int,
        ),
        forall|m: int|
            #![trigger final(panel).search_matches@[m]]
            0 <= m < final(panel).search_matches@.len() ==> style_is_on(
                old(panel).search_bar,
                paragraphs@[final(panel).search_matches@[m].start.paragraph as int].style,
            ),
{
    let places = lemma_passing_belongs(old(panel).search_bar, paragraphs@, found@);
    let kept = final(panel).search_matches@;
    let picks = |i: int| belongs(old(panel).search_bar, paragraphs@, found@[i]);
    assert forall|m: int| #![trigger kept[m]] 0 <= m < kept.len() implies style_is_on(
        old(panel).search_bar,
        paragraphs@[kept[m].start.paragraph as int].style,
    ) by {
        assert(kept[m] == found@[places[m]]);
        assert(places.contains(places[m]));
        assert(picks(places[m]));
    }
    places
}

/// The arrows walk the panel's matches.
pub proof fn the_arrows_walk_the_matches(onward: &mut DocumentPanel, back: &mut DocumentPanel)
    requires
        call_ensures(DocumentPanel::select_next_search_match, (onward,), ()),
        call_ensures(DocumentPanel::select_previous_search_match, (back,), ()),
        old(onward).place_valid(),
        old(back).place_valid(),
    ensures
        final(onward).search_matches == old(onward).search_matches,
        final(back).search_matches == old(back).search_matches,
        old(onward).search_matches@.len() > 0 ==> (match old(onward).active_search_match {
            None => final(onward).active_search_match == Some(0usize),
            Some(ix) => final(onward).active_search_match == (if ix + 1
                < old(onward).search_matches@.len() {
                Some((ix + 1) as usize)
            } else {
                Some(0usize)
            }),
        }),
        old(back).search_matches@.len() > 0 ==> (match old(back).active_search_match {
            Some(ix) if ix > 0 => final(back).active_search_match == Some((ix - 1) as usize),
            _ => final(back).active_search_match == Some(
                (old(back).search_matches@.len() - 1) as usize,
            ),
        }),
        final(onward).search_bar.active_match == final(onward).active_search_match,
        final(back).search_bar.active_match == final(back).active_search_match,
{
    let count = old(onward).search_matches@.len() as int;
    if count > 0 {
        the_walk_visits_every_match(
            match old(onward).active_search_match {
                Some(ix) => ix,
                None => 0usize,
            },
            count,
        );
    }
    let count = old(back).search_matches@.len() as int;
    if count > 0 {
        the_walk_visits_every_match(
            match old(back).active_search_match {
                Some(ix) => ix,
                None => 0usize,
            },
            count,
        );
    }
}

/// Each event of the bar is carried out by its own control, and a replacement
/// goes to the active match, or to every match.
pub proof fn bar_events_are_carried_out(
    panel: &mut DocumentPanel,
    event: DocumentSearchBarEvent,
    found: Result<Vec<DocumentRange>, String>,
    paragraphs: Vec<SearchedParagraph>,
    action: PanelSearchAction,
)
    requires
        call_ensures(
            DocumentPanel::on_search_event,
            (panel, event, found, &paragraphs),
            action,
        ),
    ensures
        panel_follows(*old(panel), *final(panel), event, found, paragraphs@),
        action is ReplaceCurrent <==> event is ApplyReplaceCurrentRequested,
        action is ReplaceAll <==> event is ApplyReplaceRequested,
        action is Close <==> event is CloseRequested,
        action is SelectNext <==> event is NextRequested,
        action is SelectPrevious <==> event is PreviousRequested,
{
}

/// A replacement replaces nothing where nothing matches, the active match by
/// its own text, and every match by the typed text with the expansions at
/// hand.
pub proof fn replacements_replace_the_matches(
    panel: DocumentPanel,
    expansions: Option<Vec<Option<String>>>,
    text: Option<String>,
    all: Option<(String, Vec<Option<String>>)>,
)
    requires
        call_ensures(DocumentPanel::apply_replace_current, (&panel, &expansions), text),
        call_ensures(DocumentPanel::apply_replace, (&panel, expansions), all),
    ensures
        text is Some <==> panel.search_matches@.len() > 0 && panel.active_search_match is Some,
        text is Some && expansions is None ==> (text->0)@ == panel.search_bar.replacement@,
        text matches Some(text) ==> (expansions matches Some(list) ==> {
            let ix = panel.active_search_match->0 as int;
            text@ == (if ix < list@.len() && list@[ix] is Some {
                (list@[ix]->0)@
            } else {
                panel.search_bar.replacement@
            })
        }),
        all is Some <==> panel.search_matches@.len() > 0,
        all matches Some(all) ==> all.0@ == panel.search_bar.replacement@,
        all matches Some(all) ==> (expansions matches Some(list) ==> all.1 == list),
{
}

/// Typing, and switching a mode or a filter, forgets the place in the matches
/// and changes nothing else of the bar.
pub proof fn controls_change_what_they_name(
    typed: &mut DocumentSearchBar,
    query: String,
    typed_event: DocumentSearchBarEvent,
    cased: &mut DocumentSearchBar,
    case_sensitive: bool,
    case_event: Option<DocumentSearchBarEvent>,
    worded: &mut DocumentSearchBar,
    whole_words: bool,
    words_event: Option<DocumentSearchBarEvent>,
    patterned: &mut DocumentSearchBar,
    use_regex: bool,
    regex_event: Option<DocumentSearchBarEvent>,
)
    requires
        call_ensures(DocumentSearchBar::set_query, (typed, query), typed_event),
        call_ensures(DocumentSearchBar::set_case_sensitive, (cased, case_sensitive), case_event),
        call_ensures(DocumentSearchBar::set_whole_words, (worded, whole_words), words_event),
        call_ensures(DocumentSearchBar::set_use_regex, (patterned, use_regex), regex_event),
    ensures
        final(typed).query == query,
        typed_event == DocumentSearchBarEvent::QueryChanged,
        final(typed).enabled_styles == old(typed).enabled_styles,
        final(cased).case_sensitive == case_sensitive,
        case_event is Some <==> old(cased).case_sensitive != case_sensitive,
        final(cased).query == old(cased).query,
        final(worded).whole_words == whole_words,
        words_event is Some <==> old(worded).whole_words != whole_words,
        final(worded).query == old(worded).query,
        final(patterned).use_regex == use_regex,
        regex_event is Some <==> old(patterned).use_regex != use_regex,
        regex_event is Some ==> final(patterned).regex_error is None,
        final(patterned).query == old(patterned).query,
{
}

} // verus!
