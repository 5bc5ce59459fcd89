//! What the tub's scans, searches and hits keep.

use crate::text::{is_space, joined_with, trim_back, trimmed};
use crate::text_laws::lemma_joined;
use crate::toolkit::{
    fallback_paragraphs, insert_paragraphs, lemma_line_end, line_end, lines_of, normalized,
    paragraph_values, toolkit_fallback_paragraphs, HitInsertion, InputParagraph, ScanFollowUp,
    SearchHit, SearchUnitKind, ToolkitSearchFilter, TubSearch, TubState,
};
use crate::styles::{ParagraphStyle, RunSemanticStyle};
use vstd::prelude::*;

verus! {

/// A text without a line break in it.
pub open spec fn one_line(text: Seq<char>) -> bool {
    forall|i: int| 0 <= i < text.len() ==> #[trigger] text[i] != '\n' && text[i] != '\r'
}

/// What breaks a line: a line feed, a carriage return, or both.
pub open spec fn breaks_lines(separator: Seq<char>) -> bool {
    separator == seq!['\n'] || separator == seq!['\r'] || separator == seq!['\r', '\n']
}

proof fn lemma_normalized_line(line: Seq<char>)
    requires
        one_line(line),
    ensures
        normalized(line) == line,
    decreases line.len(),
{
    if line.len() > 0 {
        let rest = line.skip(1);
        assert forall|i: int| 0 <= i < rest.len() implies #[trigger] rest[i] != '\n' && rest[i]
            != '\r' by {
            assert(rest[i] == line[i + 1]);
        }
        lemma_normalized_line(rest);
        assert(line[0] != '\r');
        assert(normalized(line) =~= line);
    }
}

proof fn lemma_normalized_apart(front: Seq<char>, back: Seq<char>)
    requires
        front.len() == 0 || front.last() != '\r' || back.len() == 0 || back[0] != '\n',
    ensures
        normalized(front + back) == normalized(front) + normalized(back),
    decreases front.len(),
{
    let all = front + back;
    if front.len() == 0 {
        assert(all =~= back);
        assert(normalized(all) =~= normalized(front) + normalized(back));
    } else {
        let taken: int = if front[0] == '\r' && front.len() > 1 && front[1] == '\n' {
            2
        } else {
            1
        };
        let rest = front.skip(taken);
        if rest.len() > 0 {
            assert(rest.last() == front.last());
        }
        lemma_normalized_apart(rest, back);
        assert(all.skip(taken) =~= rest + back);
        assert(all[0] == front[0]);
        if front.len() > 1 {
            assert(all[1] == front[1]);
        } else if back.len() > 0 {
            assert(all[1] == back[0]);
        }
        assert(normalized(all) =~= normalized(front) + normalized(back));
    }
}

proof fn lemma_normalized_joined(lines: Seq<Seq<char>>, separator: Seq<char>)
    requires
        breaks_lines(separator),
        forall|i: int| 0 <= i < lines.len() ==> one_line(#[trigger] lines[i]),
    ensures
        normalized(joined_with(lines, separator)) == joined_with(lines, seq!['\n']),
        lines.len() > 0 && lines.last().len() > 0 ==> joined_with(lines, separator).last()
            == lines.last().last(),
    decreases lines.len(),
{
    let feed = seq!['\n'];
    if lines.len() == 0 {
        assert(normalized(Seq::<char>::empty()) =~= Seq::empty());
    } else if lines.len() == 1 {
        lemma_normalized_line(lines[0]);
    } else {
        let before = lines.drop_last();
        assert forall|i: int| 0 <= i < before.len() implies one_line(#[trigger] before[i]) by {
            assert(before[i] == lines[i]);
        }
        lemma_normalized_joined(before, separator);
        let front = joined_with(before, separator);
        let last = lines.last();
        assert(one_line(lines[lines.len() - 1]));
        lemma_normalized_line(last);
        assert(normalized(separator) =~= feed) by {
            assert(normalized(Seq::<char>::empty()) =~= Seq::empty());
            if separator == seq!['\n'] {
                assert(separator.skip(1) =~= Seq::empty());
            } else if separator == seq!['\r'] {
                assert(separator.skip(1) =~= Seq::empty());
            } else {
                assert(separator[0] == '\r' && separator[1] == '\n');
                assert(separator.skip(2) =~= Seq::empty());
            }
        }
        lemma_front_end(before, separator);
        lemma_normalized_apart(separator, last);
        lemma_normalized_apart(front, separator + last);
        assert(front + separator + last =~= front + (separator + last));
        assert(normalized(front + separator + last) =~= normalized(front) + feed + last);
    }
}

/// A joined text ends with a carriage return only where the separator is one
/// and an empty line follows it; then no line feed begins what comes next but
/// in a separator of both.
proof fn lemma_front_end(before: Seq<Seq<char>>, separator: Seq<char>)
    requires
        before.len() > 0,
        breaks_lines(separator),
        forall|i: int| 0 <= i < before.len() ==> one_line(#[trigger] before[i]),
    ensures
        ({
            let front = joined_with(before, separator);
            front.len() == 0 || front.last() != '\r' || separator[0] != '\n'
        }),
{
    let front = joined_with(before, separator);
    if front.len() > 0 && separator == seq!['\n'] {
        let last = before.last();
        assert(one_line(before[before.len() - 1]));
        if before.len() == 1 {
            assert(front.last() == last[last.len() - 1]);
        } else if last.len() > 0 {
            assert(front.last() == last[last.len() - 1]);
        } else {
            assert(front.last() == '\n');
        }
    } else if separator == seq!['\r', '\n'] {
        assert(separator[0] == '\r');
    } else if separator == seq!['\r'] {
        assert(separator[0] == '\r');
    }
}

proof fn lemma_first_line(line: Seq<char>, rest: Seq<char>)
    requires
        one_line(line),
    ensures
        line_end(line + seq!['\n'] + rest) == line.len(),
        line_end(line) == line.len(),
{
    let text = line + seq!['\n'] + rest;
    lemma_line_end(text);
    lemma_line_end(line);
    let end = line_end(text);
    if end < line.len() {
        assert(text[end] == line[end]);
    }
    if end > line.len() {
        assert(text[line.len() as int] == '\n');
    }
}

proof fn lemma_lines_follow(text: Seq<char>, line: Seq<char>, back: Seq<char>)
    requires
        line_end(text) == line.len(),
        line.len() < text.len(),
        text.take(line.len() as int) == line,
        text.skip(line.len() as int + 1) == back,
    ensures
        lines_of(text) == seq![line] + lines_of(back),
{
}

proof fn lemma_lines_joined(lines: Seq<Seq<char>>)
    requires
        forall|i: int| 0 <= i < lines.len() ==> one_line(#[trigger] lines[i]),
        lines.len() > 0 ==> lines.last().len() > 0,
    ensures
        lines_of(joined_with(lines, seq!['\n'])) == lines,
    decreases lines.len(),
{
    let feed = seq!['\n'];
    if lines.len() == 0 {
        assert(lines_of(joined_with(lines, feed)) =~= lines);
    } else if lines.len() == 1 {
        assert(one_line(lines[0]));
        lemma_first_line(lines[0], Seq::empty());
        assert(lines_of(joined_with(lines, feed)) =~= lines);
    } else {
        let rest = lines.skip(1);
        let first = seq![lines[0]];
        assert forall|i: int| 0 <= i < rest.len() implies one_line(#[trigger] rest[i]) by {
            assert(rest[i] == lines[i + 1]);
        }
        lemma_lines_joined(rest);
        lemma_joined(first, rest, feed);
        assert(first + rest =~= lines);
        let text = joined_with(lines, feed);
        let back = joined_with(rest, feed);
        assert(text == lines[0] + feed + back);
        assert(one_line(lines[0]));
        lemma_first_line(lines[0], back);
        assert(text.take(lines[0].len() as int) =~= lines[0]);
        assert(text.skip(lines[0].len() as int + 1) =~= back);
        lemma_lines_follow(text, lines[0], back);
        assert(seq![lines[0]] + rest =~= lines);
    }
}

/// A paragraph is a plain one of its own line: the line without the white
/// space at its end, or a space where nothing is left.
pub open spec fn shows_line(paragraph: InputParagraph, line: Seq<char>) -> bool {
    &&& paragraph.style == ParagraphStyle::Normal
    &&& paragraph.runs@.len() == 1
    &&& paragraph.runs@[0].styles.semantic == RunSemanticStyle::Plain
    &&& paragraph.runs@[0].styles.highlight is None
    &&& !paragraph.runs@[0].styles.direct_underline
    &&& !paragraph.runs@[0].styles.strikethrough
    &&& paragraph.runs@[0].text@ == (if trim_back(line).len() == 0 {
        " "@
    } else {
        trim_back(line)
    })
}

/// A text is shown line by line, whichever way its lines are broken: up to the
/// limit each line has its paragraph, in order, and behind a cut stand three
/// dots.
pub proof fn text_is_shown_line_by_line(
    lines: Seq<Seq<char>>,
    separator: Seq<char>,
    text: &str,
    limit: Option<usize>,
    paragraphs: Vec<InputParagraph>,
)
    requires
        call_ensures(toolkit_fallback_paragraphs, (text, limit), paragraphs),
        lines.len() > 0,
        forall|i: int| 0 <= i < lines.len() ==> one_line(#[trigger] lines[i]),
        lines.last().len() > 0,
        breaks_lines(separator),
        text@ == joined_with(lines, separator),
        limit is Some ==> limit->0 > 0,
    ensures
        limit is None || lines.len() <= limit->0 ==> {
            &&& paragraphs@.len() == lines.len()
            &&& forall|i: int|
                0 <= i < lines.len() ==> shows_line(#[trigger] paragraphs@[i], lines[i])
        },
        limit is Some && lines.len() > limit->0 ==> {
            &&& paragraphs@.len() == limit->0 + 1
            &&& forall|i: int|
                0 <= i < limit->0 ==> shows_line(#[trigger] paragraphs@[i], lines[i])
            &&& paragraphs@[limit->0 as int].runs@.len() == 1
            &&& paragraphs@[limit->0 as int].runs@[0].text@ == "..."@
        },
{
    lemma_normalized_joined(lines, separator);
    lemma_lines_joined(lines);
    let values = paragraph_values(paragraphs@);
    assert(values == fallback_paragraphs(text@, limit));
    assert(values.len() == paragraphs@.len());
    reveal_strlit("...");
    assert forall|i: int| 0 <= i < paragraphs@.len() implies #[trigger] paragraphs@[i]@ == values[i] by {}
    let shown: int = if limit is Some && lines.len() > limit->0 {
        limit->0 as int
    } else {
        lines.len() as int
    };
    assert forall|i: int| 0 <= i < shown implies shows_line(#[trigger] paragraphs@[i], lines[i]) by {
        let value = values[i];
        assert(value == crate::toolkit::plain_paragraph(trim_back(lines[i])));
        assert(paragraphs@[i]@.runs.len() == paragraphs@[i].runs@.len());
        assert(paragraphs@[i]@.runs[0] == paragraphs@[i].runs@[0]@);
    }
    if limit is Some && lines.len() > limit->0 {
        let last = paragraphs@[shown];
        assert(values[shown] == crate::toolkit::plain_paragraph("..."@));
        assert(last@.runs.len() == last.runs@.len());
        assert(last@.runs[0] == last.runs@[0]@);
    }
}

/// Two paragraphs are the same: their style, and run by run the text and how
/// it is dressed.
pub open spec fn same_paragraph(left: InputParagraph, right: InputParagraph) -> bool {
    &&& left.style == right.style
    &&& left.runs@.len() == right.runs@.len()
    &&& forall|r: int|
        0 <= r < left.runs@.len() ==> (#[trigger] left.runs@[r]).text@ == right.runs@[r].text@
            && left.runs@[r].styles == right.runs@[r].styles
}

proof fn lemma_same_paragraph(left: InputParagraph, right: InputParagraph)
    ensures
        left@ == right@ ==> same_paragraph(left, right),
{
    if left@ == right@ {
        assert(left@.runs.len() == left.runs@.len());
        assert(right@.runs.len() == right.runs@.len());
        assert forall|r: int| 0 <= r < left.runs@.len() implies (#[trigger] left.runs@[r]).text@
            == right.runs@[r].text@ && left.runs@[r].styles == right.runs@[r].styles by {
            assert(left@.runs[r] == left.runs@[r]@);
            assert(right@.runs[r] == right.runs@[r]@);
        }
    }
}

/// Some character of a text is no white space.
pub open spec fn says_something(text: Seq<char>) -> bool {
    exists|i: int| 0 <= i < text.len() && !is_space(#[trigger] text[i])
}

pub(crate) proof fn lemma_says_something(text: Seq<char>)
    ensures
        trimmed(text).len() > 0 <==> says_something(text),
{
    let front = crate::text_laws::lemma_trim_front(text);
    let rest = crate::text::trim_front(text);
    let back = crate::text_laws::lemma_trim_back(rest);
    let inner = trimmed(text);
    assert(text =~= front + inner + back);
    if inner.len() > 0 {
        assert(rest[0] == inner[0]);
        assert(text[front.len() as int] == inner[0]);
    } else if says_something(text) {
        let i = choose|i: int| 0 <= i < text.len() && !is_space(#[trigger] text[i]);
        if i < front.len() {
            assert(is_space(front[i]));
        } else {
            assert(is_space(back[i - front.len()]));
        }
    }
}

/// What is put into a document is the hit's own paragraphs, as they are
/// dressed; a hit without any is put in as its text, line by line, and one
/// whose text says nothing as its snippet.
pub proof fn a_hit_is_put_in_as_it_is(
    state: TubState,
    hit_ix: usize,
    flow: bool,
    insertion: Option<HitInsertion>,
    plain: Vec<InputParagraph>,
    shown: &str,
)
    requires
        call_ensures(TubState::insert_toolkit_hit, (&state, hit_ix, true, flow), insertion),
        hit_ix < state.hits@.len(),
        shown@ == (if says_something(state.hits@[hit_ix as int].insert_text@) {
            state.hits@[hit_ix as int].insert_text@
        } else {
            state.hits@[hit_ix as int].snippet@
        }),
        call_ensures(toolkit_fallback_paragraphs, (shown, None), plain),
    ensures
        insertion matches Some(HitInsertion::Document(paragraphs)) && {
            let own = state.hits@[hit_ix as int].preview_paragraphs@;
            let expected = if own.len() > 0 {
                own
            } else {
                plain@
            };
            &&& paragraphs@.len() == expected.len()
            &&& forall|i: int|
                0 <= i < expected.len() ==> same_paragraph(#[trigger] paragraphs@[i], expected[i])
        },
{
    let hit = state.hits@[hit_ix as int];
    lemma_says_something(hit.insert_text@);
    if let Some(HitInsertion::Document(paragraphs)) = insertion {
        let own = hit.preview_paragraphs@;
        let expected = if own.len() > 0 {
            own
        } else {
            plain@
        };
        let values = paragraph_values(paragraphs@);
        assert(values == insert_paragraphs(hit));
        assert(values == paragraph_values(expected));
        assert(values.len() == paragraphs@.len());
        assert(paragraph_values(expected).len() == expected.len());
        assert forall|i: int| 0 <= i < expected.len() implies same_paragraph(
            #[trigger] paragraphs@[i],
            expected[i],
        ) by {
            assert(values[i] == paragraphs@[i]@);
            assert(paragraph_values(expected)[i] == expected[i]@);
            lemma_same_paragraph(paragraphs@[i], expected[i]);
        }
    }
}

/// Where no document is on top, a flow gets the hit's title and text as they
/// are, and without either nothing is put in.
pub proof fn a_flow_gets_title_and_text(
    state: TubState,
    hit_ix: usize,
    flow: bool,
    insertion: Option<HitInsertion>,
)
    requires
        call_ensures(TubState::insert_toolkit_hit, (&state, hit_ix, false, flow), insertion),
        hit_ix < state.hits@.len(),
    ensures
        !flow ==> insertion is None,
        flow ==> (insertion matches Some(HitInsertion::Flow { title, text }) && title@
            == state.hits@[hit_ix as int].title@ && text@
            == state.hits@[hit_ix as int].insert_text@),
{
}

/// A folded preview shows the first eight of a hit's paragraphs and an
/// expanded one all of them; it can be expanded exactly where there are more.
pub proof fn a_preview_shows_the_front(
    hit: SearchHit,
    expanded: bool,
    paragraphs: Vec<InputParagraph>,
    expands: bool,
)
    requires
        call_ensures(SearchHit::toolkit_preview_document, (&hit, expanded), paragraphs),
        call_ensures(SearchHit::toolkit_hit_preview_can_expand, (&hit,), expands),
        hit.preview_paragraphs@.len() > 0,
    ensures
        expands <==> hit.preview_paragraphs@.len() > 8,
        paragraphs@.len() == (if expanded || hit.preview_paragraphs@.len() <= 8 {
            hit.preview_paragraphs@.len() as int
        } else {
            8
        }),
        forall|i: int|
            0 <= i < paragraphs@.len() ==> same_paragraph(
                #[trigger] paragraphs@[i],
                hit.preview_paragraphs@[i],
            ),
{
    let values = paragraph_values(paragraphs@);
    let own = paragraph_values(hit.preview_paragraphs@);
    assert(values.len() == paragraphs@.len());
    assert(own.len() == hit.preview_paragraphs@.len());
    assert forall|i: int| 0 <= i < paragraphs@.len() implies same_paragraph(
        #[trigger] paragraphs@[i],
        hit.preview_paragraphs@[i],
    ) by {
        assert(values[i] == paragraphs@[i]@);
        assert(values[i] == own[i]);
        assert(own[i] == hit.preview_paragraphs@[i]@);
        lemma_same_paragraph(paragraphs@[i], hit.preview_paragraphs@[i]);
    }
}

/// The root is this folder.
pub open spec fn has_root(state: TubState, root: Seq<char>) -> bool {
    state.root is Some && (state.root->0)@ == root
}

/// A change seen while a scan runs is not lost: nothing starts beside the scan,
/// and when it ends the folder is scanned again.
pub proof fn a_change_during_a_scan_is_scanned_after_it(
    polled: &mut TubState,
    ended: &mut TubState,
    poll: (bool, Option<String>),
    root: &str,
    persist: bool,
    result: Result<bool, String>,
    query: &str,
    follow_up: ScanFollowUp,
)
    requires
        old(polled).watching,
        old(polled).scan_in_flight,
        has_root(*old(polled), root@),
        call_ensures(TubState::poll_watcher, (polled, true), poll),
        *old(ended) == *final(polled),
        call_ensures(
            TubState::finish_tub_scan,
            (ended, root, persist, result, query),
            follow_up,
        ),
    ensures
        poll.0,
        poll.1 is None,
        follow_up.scan is Some,
        (follow_up.scan->0)@ == root@,
        final(ended).scan_in_flight,
        !final(ended).scan_pending,
{
}

/// What a scan finds in a folder that was left meanwhile is dropped: the folder
/// that was taken stays, and is scanned next.
pub proof fn a_left_folder_is_dropped(
    taken: &mut TubState,
    ended: &mut TubState,
    start: bool,
    left: &str,
    root: &str,
    persist: bool,
    result: Result<bool, String>,
    query: &str,
    follow_up: ScanFollowUp,
)
    requires
        old(taken).scan_in_flight,
        left@ != root@,
        call_ensures(TubState::set_tub_root, (taken, root), start),
        *old(ended) == *final(taken),
        call_ensures(
            TubState::finish_tub_scan,
            (ended, left, persist, result, query),
            follow_up,
        ),
    ensures
        !start,
        !follow_up.indexed,
        !follow_up.save_root,
        follow_up.search is None,
        has_root(*final(ended), root@),
        !final(ended).has_index,
        follow_up.scan is Some,
        (follow_up.scan->0)@ == root@,
        final(ended).scan_in_flight,
{
}

/// A folder that is taken while nothing runs is scanned at once, and a good
/// scan of it makes it searchable, with nothing left running.
pub proof fn a_folder_that_is_taken_is_indexed(
    taken: &mut TubState,
    ended: &mut TubState,
    start: bool,
    root: &str,
    persist: bool,
    watching: bool,
    query: &str,
    follow_up: ScanFollowUp,
)
    requires
        !old(taken).scan_in_flight,
        call_ensures(TubState::set_tub_root, (taken, root), start),
        *old(ended) == *final(taken),
        call_ensures(
            TubState::finish_tub_scan,
            (ended, root, persist, Ok::<bool, String>(watching), query),
            follow_up,
        ),
    ensures
        start,
        final(taken).scan_in_flight,
        has_root(*final(taken), root@),
        !final(taken).has_index,
        final(taken).hits@.len() == 0,
        follow_up.indexed,
        follow_up.save_root <==> persist,
        follow_up.search is Some,
        follow_up.scan is None,
        has_root(*final(ended), root@),
        final(ended).has_index,
        final(ended).watching == watching,
        !final(ended).scan_in_flight,
        !final(ended).scan_pending,
{
}

/// A folder that cannot be read is not searched, and shows no hits.
pub proof fn an_unreadable_folder_has_no_index(
    ended: &mut TubState,
    root: &str,
    persist: bool,
    error: String,
    query: &str,
    follow_up: ScanFollowUp,
)
    requires
        has_root(*old(ended), root@),
        call_ensures(
            TubState::finish_tub_scan,
            (ended, root, persist, Err::<bool, String>(error), query),
            follow_up,
        ),
    ensures
        !follow_up.indexed,
        !follow_up.save_root,
        follow_up.search is None,
        !final(ended).has_index,
        !final(ended).watching,
        final(ended).hits@.len() == 0,
        has_root(*final(ended), root@),
        follow_up.scan is Some <==> old(ended).scan_pending,
{
}

/// Of two searches the later one counts: what the earlier found is not taken
/// and changes nothing, and what the later found is shown.
pub proof fn the_later_search_counts(
    first: &mut TubState,
    second: &mut TubState,
    late: &mut TubState,
    shown: &mut TubState,
    earlier: Option<TubSearch>,
    later: Option<TubSearch>,
    query: &str,
    other: &str,
    empty: bool,
    stale: Result<Vec<SearchHit>, String>,
    hits: Vec<SearchHit>,
    taken: bool,
    kept: bool,
)
    requires
        old(first).has_index,
        call_ensures(TubState::refresh_toolkit_search, (first, query), earlier),
        *old(second) == *final(first),
        call_ensures(TubState::refresh_toolkit_search, (second, other), later),
        *old(late) == *final(second),
        call_ensures(
            TubState::finish_toolkit_search,
            (late, (earlier->0).generation, empty, stale),
            taken,
        ),
        *old(shown) == *final(second),
        call_ensures(
            TubState::finish_toolkit_search,
            (shown, (later->0).generation, empty, Ok::<Vec<SearchHit>, String>(hits)),
            kept,
        ),
    ensures
        earlier is Some,
        later is Some,
        !taken,
        *final(late) == *old(late),
        kept,
        final(shown).hits == hits,
{
}

/// A kind is looked through exactly where the filter is for it or for all, and
/// at most thirty-two hits are asked for.
pub proof fn a_filter_looks_through_its_own_kind(
    state: &mut TubState,
    filter: ToolkitSearchFilter,
    query: &str,
    search: Option<TubSearch>,
    kind: SearchUnitKind,
)
    requires
        call_ensures(TubState::set_toolkit_filter, (state, filter, query), search),
    ensures
        final(state).filter == filter,
        search is Some <==> old(state).has_index,
        search is Some ==> (search->0).limit == 32,
        search is Some ==> ((search->0).kinds@.contains(kind) <==> {
            ||| filter == ToolkitSearchFilter::All
            ||| filter == ToolkitSearchFilter::Blocks && kind == SearchUnitKind::BlockSection
            ||| filter == ToolkitSearchFilter::Tags && kind == SearchUnitKind::TagSection
            ||| filter == ToolkitSearchFilter::Analytics && kind == SearchUnitKind::Analytic
        }),
{
    if let Some(search) = search {
        let kinds = search.kinds@;
        assert(kinds == filter.kind_list());
        if filter == ToolkitSearchFilter::All {
            assert(kinds[0] == SearchUnitKind::BlockSection);
            assert(kinds[1] == SearchUnitKind::TagSection);
            assert(kinds[2] == SearchUnitKind::Analytic);
        } else {
            assert(kinds.len() == 1);
            assert(kinds.contains(kinds[0]));
        }
    }
}

/// Toggling a hit turns its preview over where there is more to show, and
/// leaves the hits and every hit of another key as they were.
pub proof fn toggling_turns_a_hit_over(
    state: &mut TubState,
    hit_ix: usize,
    other: SearchHit,
    before: bool,
    after: bool,
    before_other: bool,
    after_other: bool,
    expands: bool,
)
    requires
        hit_ix < old(state).hits@.len(),
        call_ensures(TubState::toggle_toolkit_hit_expanded, (state, hit_ix), ()),
        call_ensures(
            SearchHit::toolkit_hit_preview_can_expand,
            (&old(state).hits@[hit_ix as int],),
            expands,
        ),
        call_ensures(
            TubState::is_hit_expanded,
            (&*old(state), &old(state).hits@[hit_ix as int]),
            before,
        ),
        call_ensures(
            TubState::is_hit_expanded,
            (&*final(state), &old(state).hits@[hit_ix as int]),
            after,
        ),
        call_ensures(TubState::is_hit_expanded, (&*old(state), &other), before_other),
        call_ensures(TubState::is_hit_expanded, (&*final(state), &other), after_other),
        other.file_id@ + ":"@ + other.unit_id@ != old(state).hits@[hit_ix as int].file_id@ + ":"@
            + old(state).hits@[hit_ix as int].unit_id@,
    ensures
        final(state).hits == old(state).hits,
        expands ==> after == !before,
        !expands ==> !after && !before,
        after_other == before_other,
{
}

} // verus!
