//! What the search bar's own switches do, and what a document's panel shows of
//! its file and of its search.

use crate::document_panel::{DocumentPanel, DocumentRange, SearchedParagraph};
use crate::search_bar::{
    any_set, run_passes, some_run_passes, styles_pass, DocumentSearchBar, DocumentSearchBarEvent, SearchBarView,
    SearchStatus,
};
use crate::search_laws::{run_filters_off, run_meets, style_is_on, wears_what_is_on};
use crate::styles::{runs_len, ParagraphStyle, RunStyles, TextRun};
use vstd::prelude::*;

verus! {

/// Two bars ask for the same text in the same way.
pub open spec fn same_query(before: DocumentSearchBar, after: DocumentSearchBar) -> bool {
    &&& after.query@ == before.query@
    &&& after.replacement@ == before.replacement@
    &&& after.case_sensitive == before.case_sensitive
    &&& after.whole_words == before.whole_words
    &&& after.use_regex == before.use_regex
    &&& after.regex_error == before.regex_error
}

/// The bar shows no count until the matches are found anew.
pub open spec fn count_is_forgotten(bar: DocumentSearchBar) -> bool {
    bar.active_match is None && bar.match_count == 0
}

/// A switch for a highlight or for what runs mean switches its own slot and
/// has the matches found anew; switched twice it is as it was.
pub proof fn a_slot_switches_alone(
    highlights: &mut DocumentSearchBar,
    semantics: &mut DocumentSearchBar,
    highlight: usize,
    semantic: usize,
    events: (DocumentSearchBarEvent, DocumentSearchBarEvent),
)
    requires
        highlight < 4,
        semantic < 6,
        call_ensures(
            DocumentSearchBar::toggle_highlight_type,
            (highlights, highlight),
            events.0,
        ),
        call_ensures(
            DocumentSearchBar::toggle_semantic_style,
            (semantics, semantic),
            events.1,
        ),
    ensures
        events.0 == DocumentSearchBarEvent::StyleFilterChanged,
        events.1 == DocumentSearchBarEvent::StyleFilterChanged,
        final(highlights).highlight_types@[highlight as int]
            != old(highlights).highlight_types@[highlight as int],
        forall|i: int|
            0 <= i < 4 && i != highlight ==> #[trigger] final(highlights).highlight_types@[i]
                == old(highlights).highlight_types@[i],
        final(highlights).semantic_styles@ == old(highlights).semantic_styles@,
        final(highlights).enabled_styles@ == old(highlights).enabled_styles@,
        final(highlights).underline == old(highlights).underline,
        final(highlights).strikethrough == old(highlights).strikethrough,
        same_query(*old(highlights), *final(highlights)),
        count_is_forgotten(*final(highlights)),
        final(semantics).semantic_styles@[semantic as int]
            != old(semantics).semantic_styles@[semantic as int],
        forall|i: int|
            0 <= i < 6 && i != semantic ==> #[trigger] final(semantics).semantic_styles@[i]
                == old(semantics).semantic_styles@[i],
        final(semantics).highlight_types@ == old(semantics).highlight_types@,
        final(semantics).enabled_styles@ == old(semantics).enabled_styles@,
        final(semantics).underline == old(semantics).underline,
        final(semantics).strikethrough == old(semantics).strikethrough,
        same_query(*old(semantics), *final(semantics)),
        count_is_forgotten(*final(semantics)),
{
    assert(old(highlights).highlight_types@.len() == 4);
    assert(old(semantics).semantic_styles@.len() == 6);
}

/// The switches for underlined and for struck text switch alone and have the
/// matches found anew.
pub proof fn underline_and_strikethrough_switch_alone(
    underlines: &mut DocumentSearchBar,
    strikes: &mut DocumentSearchBar,
    events: (DocumentSearchBarEvent, DocumentSearchBarEvent),
)
    requires
        call_ensures(DocumentSearchBar::toggle_underline, (underlines,), events.0),
        call_ensures(DocumentSearchBar::toggle_strikethrough, (strikes,), events.1),
    ensures
        events.0 == DocumentSearchBarEvent::StyleFilterChanged,
        events.1 == DocumentSearchBarEvent::StyleFilterChanged,
        final(underlines).underline != old(underlines).underline,
        final(underlines).strikethrough == old(underlines).strikethrough,
        final(underlines).highlight_types@ == old(underlines).highlight_types@,
        final(underlines).semantic_styles@ == old(underlines).semantic_styles@,
        final(underlines).enabled_styles@ == old(underlines).enabled_styles@,
        same_query(*old(underlines), *final(underlines)),
        count_is_forgotten(*final(underlines)),
        final(strikes).strikethrough != old(strikes).strikethrough,
        final(strikes).underline == old(strikes).underline,
        final(strikes).highlight_types@ == old(strikes).highlight_types@,
        final(strikes).semantic_styles@ == old(strikes).semantic_styles@,
        final(strikes).enabled_styles@ == old(strikes).enabled_styles@,
        same_query(*old(strikes), *final(strikes)),
        count_is_forgotten(*final(strikes)),
{
}

/// Some run that meets a range wears what is asked for.
pub open spec fn some_run_wears_it(
    bar: DocumentSearchBar,
    runs: Seq<TextRun>,
    start: int,
    end: int,
) -> bool {
    exists|i: int| #[trigger]
        run_meets(runs, i, start, end) && wears_what_is_on(bar, runs[i].styles)
}

/// What the bar says of its filters is what they let through: the styles that
/// are searched, whether any filter on runs is on, and the runs that wear what
/// is asked for.
pub proof fn the_bar_says_what_its_filters_let_through(
    bar: DocumentSearchBar,
    style: ParagraphStyle,
    searched: bool,
    filters: bool,
    runs: Vec<TextRun>,
    start: usize,
    end: usize,
    worn: bool,
)
    requires
        call_ensures(DocumentSearchBar::paragraph_style_enabled, (&bar, style), searched),
        call_ensures(DocumentSearchBar::has_active_run_filters, (&bar,), filters),
        runs_len(runs@) <= usize::MAX,
        call_ensures(
            DocumentSearchBar::run_style_matches_for_range,
            (&bar, &runs, start, end),
            worn,
        ),
    ensures
        searched <==> style_is_on(bar, style),
        filters <==> !run_filters_off(bar),
        worn <==> some_run_wears_it(bar, runs@, start as int, end as int),
{
    assert(bar.highlight_types@.len() == 4);
    assert(bar.semantic_styles@.len() == 6);
    if any_set(bar.highlight_types@) {
        let i = choose|i: int| 0 <= i < 4 && #[trigger] bar.highlight_types@[i];
    }
    if any_set(bar.semantic_styles@) {
        let i = choose|i: int| 0 <= i < 6 && #[trigger] bar.semantic_styles@[i];
    }
    assert forall|styles: RunStyles| #[trigger] styles_pass(bar, styles) == wears_what_is_on(
        bar,
        styles,
    ) by {}
    if worn {
        let i = choose|i: int|
            0 <= i < runs@.len() && #[trigger] run_passes(
                bar,
                runs@,
                i,
                start as int,
                end as int,
            );
        assert(styles_pass(bar, runs@[i].styles));
        assert(wears_what_is_on(bar, runs@[i].styles));
        assert(run_meets(runs@, i, start as int, end as int));
        assert(some_run_wears_it(bar, runs@, start as int, end as int));
    }
    if some_run_wears_it(bar, runs@, start as int, end as int) {
        let i = choose|i: int| #[trigger]
            run_meets(runs@, i, start as int, end as int) && wears_what_is_on(
                bar,
                runs@[i].styles,
            );
        assert(styles_pass(bar, runs@[i].styles));
        assert(run_passes(bar, runs@, i, start as int, end as int));
        assert(some_run_passes(bar, runs@, start as int, end as int));
    }
}

/// What is wrong with a pattern shows in place of the count, and a pattern
/// that is right shows the count. Taking the same fault once more changes
/// nothing.
pub proof fn a_fault_shows_until_the_pattern_is_right(
    bar: &mut DocumentSearchBar,
    again: &mut DocumentSearchBar,
    error: Option<String>,
    changed: (bool, bool),
    view: SearchBarView,
)
    requires
        call_ensures(DocumentSearchBar::set_regex_error, (bar, error), changed.0),
        *old(again) == *final(bar),
        call_ensures(DocumentSearchBar::set_regex_error, (again, error), changed.1),
        final(bar).match_count > 0 ==> final(bar).active_match != Some(usize::MAX),
        call_ensures(DocumentSearchBar::render, (&*final(bar),), view),
    ensures
        error matches Some(text) ==> (view.status matches SearchStatus::Fault(shown) && shown@
            == text@),
        error is None ==> view.status is Count,
        !changed.1,
        changed.0 ==> old(bar).regex_error != error,
        final(bar).query@ == old(bar).query@,
        final(bar).match_count == old(bar).match_count,
        final(bar).active_match == old(bar).active_match,
        final(bar).enabled_styles@ == old(bar).enabled_styles@,
        final(bar).highlight_types@ == old(bar).highlight_types@,
        final(bar).semantic_styles@ == old(bar).semantic_styles@,
{
}

/// A key of the bar closes it, walks the matches or replaces; any other key is
/// left to others. Enter walks on, and replaces from the replacement's input.
pub proof fn the_bars_keys(
    bar: DocumentSearchBar,
    key: &str,
    replacing: bool,
    event: Option<DocumentSearchBarEvent>,
    closed: DocumentSearchBarEvent,
)
    requires
        call_ensures(DocumentSearchBar::on_key_down, (&bar, key, replacing), event),
        call_ensures(DocumentSearchBar::close, (&bar,), closed),
    ensures
        closed == DocumentSearchBarEvent::CloseRequested,
        event == Some(DocumentSearchBarEvent::CloseRequested) <==> key@ == "escape"@,
        event == Some(DocumentSearchBarEvent::PreviousRequested) <==> key@ == "up"@,
        event == Some(DocumentSearchBarEvent::NextRequested) <==> key@ == "down"@ || key@
            == "enter"@ && !replacing,
        event == Some(DocumentSearchBarEvent::ApplyReplaceRequested) <==> key@ == "enter"@
            && replacing,
        event is None <==> key@ != "escape"@ && key@ != "up"@ && key@ != "down"@ && key@
            != "enter"@,
{
    reveal_strlit("escape");
    reveal_strlit("up");
    reveal_strlit("down");
    reveal_strlit("enter");
    assert("escape"@.len() == 6);
    assert("up"@.len() == 2);
    assert("down"@.len() == 4);
    assert("enter"@.len() == 5);
}

/// The bar draws its switches as they are, and whole words as off while the
/// query is a regular expression.
pub proof fn the_bar_draws_its_switches(bar: DocumentSearchBar, view: SearchBarView)
    requires
        bar.match_count > 0 ==> bar.active_match != Some(usize::MAX),
        call_ensures(DocumentSearchBar::render, (&bar,), view),
    ensures
        view.case_sensitive == bar.case_sensitive,
        view.whole_words == bar.whole_words,
        view.whole_words_disabled <==> bar.use_regex,
        view.use_regex == bar.use_regex,
        view.underline == bar.underline,
        view.strikethrough == bar.strikethrough,
        view.any_highlight <==> bar.highlight_types@[0] || bar.highlight_types@[1]
            || bar.highlight_types@[2] || bar.highlight_types@[3],
        view.styles@.len() == 7,
        view.styles@[0].label@ == "Normal"@ && view.styles@[0].checked == bar.enabled_styles@[0],
        view.styles@[1].label@ == "Pocket"@ && view.styles@[1].checked == bar.enabled_styles@[1],
        view.styles@[2].label@ == "Hat"@ && view.styles@[2].checked == bar.enabled_styles@[2],
        view.styles@[3].label@ == "Block"@ && view.styles@[3].checked == bar.enabled_styles@[3],
        view.styles@[4].label@ == "Tag"@ && view.styles@[4].checked == bar.enabled_styles@[4],
        view.styles@[5].label@ == "Analytic"@ && view.styles@[5].checked
            == bar.enabled_styles@[5],
        view.styles@[6].label@ == "Undertag"@ && view.styles@[6].checked
            == bar.enabled_styles@[6],
        view.highlights@.len() == 4,
        view.highlights@[0].label@ == "Spoken"@ && view.highlights@[0].checked
            == bar.highlight_types@[0],
        view.highlights@[1].label@ == "Insert"@ && view.highlights@[1].checked
            == bar.highlight_types@[1],
        view.highlights@[2].label@ == "Alternative"@ && view.highlights@[2].checked
            == bar.highlight_types@[2],
        view.highlights@[3].label@ == "Marked"@ && view.highlights@[3].checked
            == bar.highlight_types@[3],
        view.semantics@.len() == 6,
        view.semantics@[0].label@ == "Plain"@ && view.semantics@[0].checked
            == bar.semantic_styles@[0],
        view.semantics@[1].label@ == "Cite"@ && view.semantics@[1].checked
            == bar.semantic_styles@[1],
        view.semantics@[2].label@ == "Emphasis"@ && view.semantics@[2].checked
            == bar.semantic_styles@[2],
        view.semantics@[3].label@ == "Underline"@ && view.semantics@[3].checked
            == bar.semantic_styles@[3],
        view.semantics@[4].label@ == "Condensed"@ && view.semantics@[4].checked
            == bar.semantic_styles@[4],
        view.semantics@[5].label@ == "Ultracondensed"@ && view.semantics@[5].checked
            == bar.semantic_styles@[5],
{
    assert(bar.highlight_types@.len() == 4);
    if any_set(bar.highlight_types@) {
        let i = choose|i: int| 0 <= i < 4 && #[trigger] bar.highlight_types@[i];
    }
}

/// A new bar is empty, searches every style and lets every highlight and
/// meaning through, with no mode on.
pub proof fn a_new_bar_searches_everything(bar: DocumentSearchBar, style: ParagraphStyle)
    requires
        call_ensures(DocumentSearchBar::new, (), bar),
    ensures
        bar.query@.len() == 0,
        bar.replacement@.len() == 0,
        !bar.case_sensitive,
        !bar.whole_words,
        !bar.use_regex,
        bar.regex_error is None,
        count_is_forgotten(bar),
        style_is_on(bar, style),
        bar.underline,
        bar.strikethrough,
        forall|i: int| 0 <= i < 4 ==> #[trigger] bar.highlight_types@[i],
        forall|i: int| 0 <= i < 6 ==> #[trigger] bar.semantic_styles@[i],
{
}

/// The bar hands out what it holds, and takes the count that it is given.
pub proof fn the_bar_hands_out_what_it_holds(
    bar: DocumentSearchBar,
    counted: &mut DocumentSearchBar,
    texts: (String, String),
    modes: (bool, bool, bool),
    focus: (bool, bool),
    focused: bool,
    active: Option<usize>,
    count: usize,
)
    requires
        call_ensures(DocumentSearchBar::query, (&bar,), texts.0),
        call_ensures(DocumentSearchBar::replacement, (&bar,), texts.1),
        call_ensures(DocumentSearchBar::case_sensitive, (&bar,), modes.0),
        call_ensures(DocumentSearchBar::whole_words, (&bar,), modes.1),
        call_ensures(DocumentSearchBar::use_regex, (&bar,), modes.2),
        call_ensures(DocumentSearchBar::input_focused, (&bar, focus.0, focus.1), focused),
        call_ensures(DocumentSearchBar::set_match_position, (counted, active, count), ()),
    ensures
        texts.0@ == bar.query@,
        texts.1@ == bar.replacement@,
        modes.0 == bar.case_sensitive,
        modes.1 == bar.whole_words,
        modes.2 == bar.use_regex,
        focused <==> focus.0 || focus.1,
        final(counted).active_match == active,
        final(counted).match_count == count,
        same_query(*old(counted), *final(counted)),
        final(counted).enabled_styles@ == old(counted).enabled_styles@,
        final(counted).highlight_types@ == old(counted).highlight_types@,
        final(counted).semantic_styles@ == old(counted).semantic_styles@,
{
}

/// A panel's bar opens with what it held and closes with its matches
/// forgotten; the query stays for the next time.
pub proof fn a_bar_closes_with_its_matches(
    opened: &mut DocumentPanel,
    closed: &mut DocumentPanel,
    focus: (bool, bool),
    focused: bool,
    shown: bool,
)
    requires
        call_ensures(DocumentPanel::open_search_bar, (opened,), ()),
        call_ensures(DocumentPanel::close_search_bar, (closed,), ()),
        call_ensures(
            DocumentPanel::search_bar_focused,
            (&*final(closed), focus.0, focus.1),
            focused,
        ),
        call_ensures(DocumentPanel::search_bar_open, (&*final(opened),), shown),
    ensures
        shown,
        final(opened).search_matches@ == old(opened).search_matches@,
        final(opened).active_search_match == old(opened).active_search_match,
        final(opened).search_bar == old(opened).search_bar,
        !final(closed).search_bar_open,
        !focused,
        final(closed).search_matches@.len() == 0,
        final(closed).active_search_match is None,
        count_is_forgotten(final(closed).search_bar),
        same_query(old(closed).search_bar, final(closed).search_bar),
        final(closed).search_bar.enabled_styles@ == old(closed).search_bar.enabled_styles@,
        final(closed).title@ == old(closed).title@,
        final(closed).path == old(closed).path,
        final(closed).id == old(closed).id,
{
}

/// The open bar has the keyboard where one of its inputs has it.
pub proof fn an_open_bar_takes_the_keyboard(
    panel: DocumentPanel,
    focus: (bool, bool),
    focused: bool,
)
    requires
        call_ensures(DocumentPanel::search_bar_focused, (&panel, focus.0, focus.1), focused),
    ensures
        focused <==> panel.search_bar_open && (focus.0 || focus.1),
{
}

/// The matches stand for the paragraphs that they begin in, one for each and
/// in order.
pub proof fn a_match_stands_for_its_paragraph(panel: DocumentPanel, paragraphs: Vec<usize>, i: int)
    requires
        call_ensures(DocumentPanel::search_match_paragraphs, (&panel,), paragraphs),
    ensures
        paragraphs@.len() == panel.search_matches@.len(),
        0 <= i < paragraphs@.len() ==> paragraphs@[i] == panel.search_matches@[i].start.paragraph,
{
}

/// Matches are found anew once a replacement was made, as a refresh finds
/// them; one that was not made leaves the panel as it was.
pub proof fn a_replacement_has_the_matches_found_anew(
    panel: &mut DocumentPanel,
    refreshed: &mut DocumentPanel,
    replaced: bool,
    found: Result<Vec<DocumentRange>, String>,
    paragraphs: Vec<SearchedParagraph>,
)
    requires
        *old(refreshed) == *old(panel),
        call_ensures(DocumentPanel::replace_ended, (panel, replaced, found, &paragraphs), ()),
        call_ensures(
            DocumentPanel::refresh_search_matches,
            (refreshed, found, &paragraphs),
            (),
        ),
    ensures
        replaced ==> final(panel).search_matches@ == final(refreshed).search_matches@
            && final(panel).active_search_match == final(refreshed).active_search_match,
        !replaced ==> *final(panel) == *old(panel),
        final(panel).title@ == old(panel).title@,
        final(panel).path == old(panel).path,
{
}

/// A replacement is worked out match by match where the query is a regular
/// expression and the replacement refers to what it captured.
pub proof fn captures_are_put_in_by_match(panel: DocumentPanel, template: &str, expands: bool)
    requires
        call_ensures(DocumentPanel::regex_replace_overrides, (&panel, template), expands),
    ensures
        expands ==> panel.search_bar.use_regex,
        expands ==> exists|i: int| 0 <= i < template@.len() && template@[i] == '$',
        panel.search_bar.use_regex && (exists|i: int|
            0 <= i < template@.len() && template@[i] == '$') ==> expands,
{
    if exists|i: int| 0 <= i < template@.len() && template@[i] == '$' {
        let i = choose|i: int| 0 <= i < template@.len() && template@[i] == '$';
        assert(template@.contains('$'));
    }
}

/// A panel that gets a file is titled by it, and its title is marked exactly
/// while something is unsaved.
pub proof fn a_panel_is_titled_by_its_file(
    panel: &mut DocumentPanel,
    path: String,
    name: Option<String>,
    dirty: bool,
    title: String,
    plain: String,
)
    requires
        call_ensures(DocumentPanel::set_path, (panel, path, name), ()),
        call_ensures(DocumentPanel::display_title, (&*final(panel), dirty), title),
        call_ensures(DocumentPanel::title_text, (&*final(panel),), plain),
    ensures
        final(panel).path == Some(path),
        name matches Some(name) ==> plain@ == name@,
        name is None ==> plain@ == "Untitled.db8"@,
        !dirty ==> title@ == plain@,
        dirty ==> title@ == plain@ + seq![' ', '*'],
        final(panel).id == old(panel).id,
        final(panel).search_matches@ == old(panel).search_matches@,
        final(panel).search_bar == old(panel).search_bar,
        final(panel).active == old(panel).active,
{
    reveal_strlit(" *");
    assert(" *"@ =~= seq![' ', '*']);
}

/// A new panel is titled as it was asked for, and by its file where it was
/// not; it is not on top and searches nothing yet.
pub proof fn a_new_panel_is_titled_as_asked(
    id: u128,
    title: Option<String>,
    path: Option<String>,
    name: Option<String>,
    panel: DocumentPanel,
    other: DocumentPanel,
)
    requires
        call_ensures(DocumentPanel::new_with_id, (id, title, path, name), panel),
        call_ensures(DocumentPanel::new_with_title, (title, path, name), other),
    ensures
        panel.id == id,
        panel.path == path,
        title matches Some(title) ==> panel.title@ == title@,
        title is None && name is Some ==> panel.title@ == (name->0)@,
        title is None && name is None ==> panel.title@ == "Untitled.db8"@,
        !panel.active,
        !panel.search_bar_open,
        panel.search_matches@.len() == 0,
        panel.search_bar.query@.len() == 0,
        other.title@ == panel.title@,
        other.path == panel.path,
        !other.active,
        !other.search_bar_open,
{
}

/// A panel becomes the window's active document when it is shown, and not
/// when it is hidden.
pub proof fn a_shown_panel_comes_on_top(panel: &mut DocumentPanel, active: bool, activates: bool)
    requires
        call_ensures(DocumentPanel::set_active, (panel, active), activates),
    ensures
        activates <==> active,
        final(panel).active == active,
        final(panel).title@ == old(panel).title@,
        final(panel).path == old(panel).path,
        final(panel).search_bar == old(panel).search_bar,
        final(panel).search_matches@ == old(panel).search_matches@,
{
}

} // verus!
