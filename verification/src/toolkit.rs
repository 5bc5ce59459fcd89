//! The toolkit: the tub's index, evidence search, and what a hit shows and
//! inserts.

use crate::commands::LeftNavMode;
use crate::styles::{ParagraphStyle, RunSemanticStyle, RunStyles};
use crate::text::{
    chars_of, decimal, push_decimal, text_between, trim, trim_back, trim_end, trimmed,
};
use crate::text_set::TextSet;
use vstd::prelude::*;
use vstd::string::StringExecFns;

verus! {

/// How many hits a search asks for.
pub const TOOLKIT_RESULT_LIMIT: usize = 32;

/// How many files a search by name shows.
pub const TUB_FILE_SEARCH_LIMIT: usize = 200;

/// How many paragraphs a folded preview shows.
pub const TOOLKIT_PREVIEW_PARAGRAPH_LIMIT: usize = 8;

/// How many lines a folded preview of plain text shows.
pub const TOOLKIT_PREVIEW_FALLBACK_LINE_LIMIT: usize = 160;

#[derive(Clone, Copy, Debug, PartialEq, Eq, Structural)]
pub enum SearchUnitKind {
    BlockSection,
    TagSection,
    Analytic,
}

/// What a search looks through.
#[derive(Clone, Copy, Debug, PartialEq, Eq, Structural)]
pub enum ToolkitSearchFilter {
    All,
    Blocks,
    Tags,
    Analytics,
}

impl ToolkitSearchFilter {
    pub open spec fn label_text(self) -> Seq<char> {
        match self {
            ToolkitSearchFilter::All => "All"@,
            ToolkitSearchFilter::Blocks => "Blocks"@,
            ToolkitSearchFilter::Tags => "Tags"@,
            ToolkitSearchFilter::Analytics => "Analytics"@,
        }
    }

    pub fn label(self) -> (text: &'static str)
        ensures
            text@ == self.label_text(),
    {
        match self {
            ToolkitSearchFilter::All => "All",
            ToolkitSearchFilter::Blocks => "Blocks",
            ToolkitSearchFilter::Tags => "Tags",
            ToolkitSearchFilter::Analytics => "Analytics",
        }
    }

    pub open spec fn kind_list(self) -> Seq<SearchUnitKind> {
        match self {
            ToolkitSearchFilter::All => seq![
                SearchUnitKind::BlockSection,
                SearchUnitKind::TagSection,
                SearchUnitKind::Analytic,
            ],
            ToolkitSearchFilter::Blocks => seq![SearchUnitKind::BlockSection],
            ToolkitSearchFilter::Tags => seq![SearchUnitKind::TagSection],
            ToolkitSearchFilter::Analytics => seq![SearchUnitKind::Analytic],
        }
    }

    pub fn kinds(self) -> (kinds: Vec<SearchUnitKind>)
        ensures
            kinds@ == self.kind_list(),
    {
        match self {
            ToolkitSearchFilter::All => vec![
                SearchUnitKind::BlockSection,
                SearchUnitKind::TagSection,
                SearchUnitKind::Analytic,
            ],
            ToolkitSearchFilter::Blocks => vec![SearchUnitKind::BlockSection],
            ToolkitSearchFilter::Tags => vec![SearchUnitKind::TagSection],
            ToolkitSearchFilter::Analytics => vec![SearchUnitKind::Analytic],
        }
    }
}

/// A run of text to insert.
#[derive(Debug)]
pub struct InputRun {
    pub text: String,
    pub styles: RunStyles,
}

/// A paragraph to insert.
#[derive(Debug)]
pub struct InputParagraph {
    pub style: ParagraphStyle,
    pub runs: Vec<InputRun>,
}

/// What a search found.
#[derive(Debug)]
pub struct SearchHit {
    pub file_id: String,
    pub unit_id: String,
    pub file_name: String,
    pub title: String,
    pub path: String,
    pub insert_text: String,
    pub snippet: String,
    pub preview_paragraphs: Vec<InputParagraph>,
    pub paragraph_start: Option<usize>,
}

/// A run by its values.
pub struct RunValue {
    pub text: Seq<char>,
    pub styles: RunStyles,
}

/// A paragraph by its values.
pub struct ParagraphValue {
    pub style: ParagraphStyle,
    pub runs: Seq<RunValue>,
}

impl View for InputRun {
    type V = RunValue;

    open spec fn view(&self) -> RunValue {
        RunValue { text: self.text@, styles: self.styles }
    }
}

impl View for InputParagraph {
    type V = ParagraphValue;

    open spec fn view(&self) -> ParagraphValue {
        ParagraphValue {
            style: self.style,
            runs: self.runs@.map_values(|run: InputRun| run@),
        }
    }
}

/// Paragraphs by their values.
pub open spec fn paragraph_values(list: Seq<InputParagraph>) -> Seq<ParagraphValue> {
    list.map_values(|paragraph: InputParagraph| paragraph@)
}

proof fn lemma_paragraphs_push(list: Seq<InputParagraph>, paragraph: InputParagraph)
    ensures
        paragraph_values(list.push(paragraph)) == paragraph_values(list).push(paragraph@),
{
    assert(paragraph_values(list.push(paragraph)) =~= paragraph_values(list).push(paragraph@));
}

fn copy_paragraph(paragraph: &InputParagraph) -> (copy: InputParagraph)
    ensures
        copy@ == paragraph@,
{
    let mut runs: Vec<InputRun> = Vec::new();
    let mut next: usize = 0;
    while next < paragraph.runs.len()
        invariant
            next <= paragraph.runs@.len(),
            runs@.len() == next,
            forall|i: int| 0 <= i < next ==> (#[trigger] runs@[i])@ == paragraph.runs@[i]@,
        decreases paragraph.runs@.len() - next,
    {
        let run = &paragraph.runs[next];
        runs.push(InputRun { text: run.text.clone(), styles: run.styles });
        next = next + 1;
    }
    let copy = InputParagraph { style: paragraph.style, runs };
    assert(copy@.runs =~= paragraph@.runs);
    copy
}

fn copy_front(list: &Vec<InputParagraph>, count: usize) -> (copy: Vec<InputParagraph>)
    requires
        count <= list@.len(),
    ensures
        paragraph_values(copy@) == paragraph_values(list@).take(count as int),
{
    let mut copy: Vec<InputParagraph> = Vec::new();
    let mut next: usize = 0;
    assert(paragraph_values(copy@) =~= paragraph_values(list@).take(0));
    while next < count
        invariant
            next <= count <= list@.len(),
            paragraph_values(copy@) == paragraph_values(list@).take(next as int),
        decreases count - next,
    {
        let paragraph = copy_paragraph(&list[next]);
        proof {
            lemma_paragraphs_push(copy@, paragraph);
        }
        copy.push(paragraph);
        next = next + 1;
        assert(paragraph_values(copy@) =~= paragraph_values(list@).take(next as int));
    }
    copy
}

/// A text whose every line ends with one line feed: a carriage return stands
/// for one, alone or before a line feed.
pub open spec fn normalized(text: Seq<char>) -> Seq<char>
    decreases text.len(),
{
    if text.len() == 0 {
        Seq::empty()
    } else if text[0] == '\r' {
        if text.len() > 1 && text[1] == '\n' {
            seq!['\n'] + normalized(text.skip(2))
        } else {
            seq!['\n'] + normalized(text.skip(1))
        }
    } else {
        seq![text[0]] + normalized(text.skip(1))
    }
}

/// Where the first line of a text ends.
pub open spec fn line_end(text: Seq<char>) -> int
    decreases text.len(),
{
    if text.len() == 0 || text[0] == '\n' {
        0
    } else {
        1 + line_end(text.skip(1))
    }
}

pub(crate) proof fn lemma_line_end(text: Seq<char>)
    ensures
        0 <= line_end(text) <= text.len(),
        line_end(text) < text.len() ==> text[line_end(text)] == '\n',
        forall|i: int| 0 <= i < line_end(text) ==> text[i] != '\n',
    decreases text.len(),
{
    if text.len() > 0 && text[0] != '\n' {
        lemma_line_end(text.skip(1));
        assert forall|i: int| 0 <= i < line_end(text) implies text[i] != '\n' by {
            if i > 0 {
                assert(text.skip(1)[i - 1] == text[i]);
            }
        }
    }
}

/// The lines of a text; a line feed at its end begins no further line.
pub open spec fn lines_of(text: Seq<char>) -> Seq<Seq<char>>
    decreases text.len(),
    when true
    via lines_of_shrink
{
    if text.len() == 0 {
        Seq::empty()
    } else {
        let end = line_end(text);
        if end >= text.len() {
            seq![text]
        } else {
            seq![text.take(end)] + lines_of(text.skip(end + 1))
        }
    }
}

#[via_fn]
proof fn lines_of_shrink(text: Seq<char>) {
    lemma_line_end(text);
}

fn normalize(text: &str) -> (chars: Vec<char>)
    ensures
        chars@ == normalized(text@),
{
    let given = chars_of(text);
    let mut chars: Vec<char> = Vec::new();
    let mut at: usize = 0;
    assert(given@.skip(0) =~= given@);
    assert(chars@ + normalized(given@) =~= normalized(given@));
    while at < given.len()
        invariant
            at <= given@.len(),
            chars@ + normalized(given@.skip(at as int)) == normalized(given@),
        decreases given@.len() - at,
    {
        let ghost rest = given@.skip(at as int);
        let ghost before = chars@;
        assert(rest[0] == given@[at as int]);
        if given[at] == '\r' {
            chars.push('\n');
            if at + 1 < given.len() && given[at + 1] == '\n' {
                assert(rest[1] == '\n');
                assert(rest.skip(2) =~= given@.skip(at + 2));
                at = at + 2;
            } else {
                assert(rest.skip(1) =~= given@.skip(at + 1));
                at = at + 1;
            }
        } else {
            chars.push(given[at]);
            assert(rest.skip(1) =~= given@.skip(at + 1));
            at = at + 1;
        }
        assert(chars@ + normalized(given@.skip(at as int)) =~= before + (seq![chars@.last()]
            + normalized(given@.skip(at as int))));
    }
    assert(given@.skip(at as int) =~= Seq::empty());
    assert(chars@ + Seq::empty() =~= chars@);
    chars
}

fn split_lines(text: &str) -> (lines: Vec<String>)
    ensures
        crate::text::texts(lines@) == lines_of(normalized(text@)),
{
    let chars = normalize(text);
    let ghost all = lines_of(chars@);
    let mut lines: Vec<String> = Vec::new();
    let mut at: usize = 0;
    assert(chars@.skip(0) =~= chars@);
    assert(crate::text::texts(lines@) =~= Seq::empty());
    assert(Seq::empty() + all =~= all);
    while at < chars.len()
        invariant
            at <= chars@.len(),
            crate::text::texts(lines@) + lines_of(chars@.skip(at as int)) == all,
        decreases chars@.len() - at,
    {
        let ghost rest = chars@.skip(at as int);
        proof {
            lemma_line_end(rest);
        }
        let mut end: usize = at;
        while end < chars.len() && chars[end] != '\n'
            invariant
                at <= end <= chars@.len(),
                at <= chars@.len(),
                rest == chars@.skip(at as int),
                forall|i: int| at <= i < end ==> chars@[i] != '\n',
            decreases chars@.len() - end,
        {
            end = end + 1;
        }
        proof {
            let e = line_end(rest);
            if end - at < e {
                assert(rest[end - at] == chars@[end as int]);
            }
            if e < end - at {
                assert(rest[e] == chars@[at + e]);
            }
            assert(e == end - at);
        }
        let line = text_between(&chars, at, end);
        let ghost before = crate::text::texts(lines@);
        assert(line@ =~= rest.take(end - at));
        proof {
            crate::text::lemma_texts_push(lines@, line);
        }
        lines.push(line);
        if end < chars.len() {
            at = end + 1;
            proof {
                let e = line_end(rest);
                assert(rest.skip(e + 1) =~= chars@.skip(at as int));
                assert(lines_of(rest) == seq![rest.take(e)] + lines_of(rest.skip(e + 1)));
            }
            assert(before.push(line@) + lines_of(chars@.skip(at as int)) =~= before + (seq![line@]
                + lines_of(chars@.skip(at as int))));
        } else {
            at = end;
            assert(rest.take(rest.len() as int) =~= rest);
            assert(chars@.skip(at as int) =~= Seq::empty());
            assert(lines_of(rest) =~= seq![rest]);
            assert(before.push(line@) + Seq::empty() =~= before + seq![rest]);
        }
    }
    assert(chars@.skip(at as int) =~= Seq::empty());
    assert(crate::text::texts(lines@) + Seq::empty() =~= crate::text::texts(lines@));
    lines
}

/// How plain text is dressed.
pub open spec fn plain_styles() -> RunStyles {
    RunStyles {
        semantic: RunSemanticStyle::Plain,
        highlight: None,
        direct_underline: false,
        strikethrough: false,
    }
}

/// A plain paragraph; one without text holds a space.
pub open spec fn plain_paragraph(text: Seq<char>) -> ParagraphValue {
    ParagraphValue {
        style: ParagraphStyle::Normal,
        runs: seq![
            RunValue {
                text: if text.len() == 0 {
                    " "@
                } else {
                    text
                },
                styles: plain_styles(),
            },
        ],
    }
}

/// The paragraphs of plain text: one for each line without the spaces at its
/// end. A limit cuts them, and dots say so; no line at all is said too.
pub open spec fn fallback_paragraphs(text: Seq<char>, limit: Option<usize>) -> Seq<ParagraphValue> {
    let lines = lines_of(normalized(text));
    let shown = match limit {
        Some(limit) => if lines.len() > limit {
            lines.take(limit as int)
        } else {
            lines
        },
        None => lines,
    };
    let paragraphs = shown.map_values(|line: Seq<char>| plain_paragraph(trim_back(line)));
    if paragraphs.len() == 0 {
        seq![plain_paragraph("No preview text"@)]
    } else if shown.len() < lines.len() {
        paragraphs.push(plain_paragraph("..."@))
    } else {
        paragraphs
    }
}

fn toolkit_preview_fallback_paragraph(text: &str) -> (paragraph: InputParagraph)
    ensures
        paragraph@ == plain_paragraph(text@),
{
    let shown = if text.is_empty() {
        String::from_str(" ")
    } else {
        String::from_str(text)
    };
    let mut runs: Vec<InputRun> = Vec::new();
    runs.push(
        InputRun {
            text: shown,
            styles: RunStyles {
                semantic: RunSemanticStyle::Plain,
                highlight: None,
                direct_underline: false,
                strikethrough: false,
            },
        },
    );
    let paragraph = InputParagraph { style: ParagraphStyle::Normal, runs };
    assert(paragraph@.runs =~= plain_paragraph(text@).runs);
    paragraph
}

/// The paragraphs of plain text, at most so many lines of it.
pub fn toolkit_fallback_paragraphs(text: &str, line_limit: Option<usize>) -> (paragraphs: Vec<
    InputParagraph,
>)
    ensures
        paragraph_values(paragraphs@) == fallback_paragraphs(text@, line_limit),
{
    let lines = split_lines(text);
    let ghost all = lines_of(normalized(text@));
    assert(crate::text::texts(lines@).len() == lines@.len());
    let count: usize = match line_limit {
        Some(limit) => if lines.len() > limit {
            limit
        } else {
            lines.len()
        },
        None => lines.len(),
    };
    let ghost shown = all.take(count as int);
    let mut paragraphs: Vec<InputParagraph> = Vec::new();
    let mut next: usize = 0;
    assert(paragraph_values(paragraphs@) =~= shown.take(0).map_values(
        |line: Seq<char>| plain_paragraph(trim_back(line)),
    ));
    while next < count
        invariant
            next <= count <= lines@.len(),
            all == crate::text::texts(lines@),
            shown == all.take(count as int),
            paragraph_values(paragraphs@) == shown.take(next as int).map_values(
                |line: Seq<char>| plain_paragraph(trim_back(line)),
            ),
        decreases count - next,
    {
        let front = trim_end(lines[next].as_str());
        let paragraph = toolkit_preview_fallback_paragraph(front.as_str());
        proof {
            lemma_paragraphs_push(paragraphs@, paragraph);
            assert(shown[next as int] == lines@[next as int]@);
        }
        paragraphs.push(paragraph);
        next = next + 1;
        assert(paragraph_values(paragraphs@) =~= shown.take(next as int).map_values(
            |line: Seq<char>| plain_paragraph(trim_back(line)),
        ));
    }
    proof {
        assert(shown.take(next as int) =~= shown);
        assert(all.take(all.len() as int) =~= all);
    }
    if paragraphs.len() == 0 {
        let paragraph = toolkit_preview_fallback_paragraph("No preview text");
        proof {
            lemma_paragraphs_push(paragraphs@, paragraph);
        }
        paragraphs.push(paragraph);
        assert(paragraph_values(paragraphs@) =~= seq![plain_paragraph("No preview text"@)]);
    } else if count < lines.len() {
        let paragraph = toolkit_preview_fallback_paragraph("...");
        proof {
            lemma_paragraphs_push(paragraphs@, paragraph);
        }
        paragraphs.push(paragraph);
    }
    paragraphs
}

/// The text that a hit previews: what it inserts, or its snippet.
pub open spec fn preview_text(hit: SearchHit) -> Seq<char> {
    if trimmed(hit.insert_text@).len() == 0 {
        hit.snippet@
    } else {
        hit.insert_text@
    }
}

/// A hit's preview has more than it shows folded.
pub open spec fn can_expand(hit: SearchHit) -> bool {
    if hit.preview_paragraphs@.len() > 0 {
        hit.preview_paragraphs@.len() > TOOLKIT_PREVIEW_PARAGRAPH_LIMIT
    } else {
        lines_of(normalized(preview_text(hit))).len() > TOOLKIT_PREVIEW_FALLBACK_LINE_LIMIT
    }
}

/// By what an expanded hit is remembered.
pub open spec fn hit_key(hit: SearchHit) -> Seq<char> {
    hit.file_id@ + ":"@ + hit.unit_id@
}

/// The paragraphs that a hit inserts.
pub open spec fn insert_paragraphs(hit: SearchHit) -> Seq<ParagraphValue> {
    if hit.preview_paragraphs@.len() > 0 {
        paragraph_values(hit.preview_paragraphs@)
    } else {
        fallback_paragraphs(preview_text(hit), None)
    }
}

/// The paragraphs that a hit previews.
pub open spec fn preview_paragraphs(hit: SearchHit, expanded: bool) -> Seq<ParagraphValue> {
    let all = paragraph_values(hit.preview_paragraphs@);
    if all.len() == 0 {
        fallback_paragraphs(
            preview_text(hit),
            if expanded {
                None
            } else {
                Some(TOOLKIT_PREVIEW_FALLBACK_LINE_LIMIT)
            },
        )
    } else if expanded || all.len() <= TOOLKIT_PREVIEW_PARAGRAPH_LIMIT {
        all
    } else {
        all.take(TOOLKIT_PREVIEW_PARAGRAPH_LIMIT as int)
    }
}

/// What an expanded preview shows is what the hit inserts.
pub proof fn an_expanded_preview_shows_what_is_inserted(hit: SearchHit)
    ensures
        preview_paragraphs(hit, true) == insert_paragraphs(hit),
{
}

/// A preview that cannot expand already shows what the hit inserts.
pub proof fn a_whole_preview_needs_no_expanding(hit: SearchHit)
    requires
        !can_expand(hit),
    ensures
        preview_paragraphs(hit, false) == insert_paragraphs(hit),
{
}

/// The height of a hit's card.
#[derive(Clone, Copy, Debug, PartialEq, Eq, Structural)]
pub enum CardHeight {
    Fixed(u16),
    /// What the preview is estimated to take, within bounds.
    Within(u16, u16),
}

impl SearchHit {
    fn shown_text(&self) -> (text: String)
        ensures
            text@ == preview_text(*self),
    {
        let inner = trim(self.insert_text.as_str());
        if inner.as_str().is_empty() {
            self.snippet.clone()
        } else {
            self.insert_text.clone()
        }
    }

    /// Whether the preview has more than it shows folded.
    pub fn toolkit_hit_preview_can_expand(&self) -> (b: bool)
        ensures
            b == can_expand(*self),
    {
        if self.preview_paragraphs.len() > 0 {
            return self.preview_paragraphs.len() > TOOLKIT_PREVIEW_PARAGRAPH_LIMIT;
        }
        let text = self.shown_text();
        let lines = split_lines(text.as_str());
        assert(crate::text::texts(lines@).len() == lines@.len());
        lines.len() > TOOLKIT_PREVIEW_FALLBACK_LINE_LIMIT
    }

    /// By what the hit is remembered when it is expanded.
    pub fn toolkit_hit_key(&self) -> (key: String)
        ensures
            key@ == hit_key(*self),
    {
        let mut key = self.file_id.clone();
        key.append(":");
        key.append(self.unit_id.as_str());
        key
    }

    /// The paragraphs that the hit inserts.
    pub fn toolkit_hit_insert_paragraphs(&self) -> (paragraphs: Vec<InputParagraph>)
        ensures
            paragraph_values(paragraphs@) == insert_paragraphs(*self),
    {
        if self.preview_paragraphs.len() > 0 {
            let all = copy_front(&self.preview_paragraphs, self.preview_paragraphs.len());
            assert(paragraph_values(self.preview_paragraphs@).take(
                self.preview_paragraphs@.len() as int,
            ) =~= paragraph_values(self.preview_paragraphs@));
            return all;
        }
        let text = self.shown_text();
        toolkit_fallback_paragraphs(text.as_str(), None)
    }

    /// The paragraphs of the hit's preview.
    pub fn toolkit_preview_document(&self, expanded: bool) -> (paragraphs: Vec<InputParagraph>)
        ensures
            paragraph_values(paragraphs@) == preview_paragraphs(*self, expanded),
    {
        let total: usize = self.preview_paragraphs.len();
        assert(paragraph_values(self.preview_paragraphs@).len() == total);
        if total == 0 {
            let text = self.shown_text();
            let limit: Option<usize> = if expanded {
                None
            } else {
                Some(TOOLKIT_PREVIEW_FALLBACK_LINE_LIMIT)
            };
            return toolkit_fallback_paragraphs(text.as_str(), limit);
        }
        let count: usize = if expanded || total <= TOOLKIT_PREVIEW_PARAGRAPH_LIMIT {
            total
        } else {
            TOOLKIT_PREVIEW_PARAGRAPH_LIMIT
        };
        assert(paragraph_values(self.preview_paragraphs@).take(total as int)
            =~= paragraph_values(self.preview_paragraphs@));
        copy_front(&self.preview_paragraphs, count)
    }

    /// How high the hit's card may be.
    pub fn toolkit_hit_card_height(&self, expanded: bool) -> (height: CardHeight)
        ensures
            height == (if !expanded && can_expand(*self) {
                CardHeight::Fixed(258)
            } else if expanded {
                CardHeight::Within(258, 720)
            } else {
                CardHeight::Within(36, 258)
            }),
    {
        if !expanded && self.toolkit_hit_preview_can_expand() {
            CardHeight::Fixed(258)
        } else if expanded {
            CardHeight::Within(258, 720)
        } else {
            CardHeight::Within(36, 258)
        }
    }

    /// The hit's title, or its file's name where it has none.
    pub fn shown_title(&self) -> (title: String)
        ensures
            title@ == (if self.title@.len() == 0 {
                self.file_name@
            } else {
                self.title@
            }),
    {
        if self.title.as_str().is_empty() {
            self.file_name.clone()
        } else {
            self.title.clone()
        }
    }
}

/// Characters that the first `k` runs hold.
pub open spec fn chars_in(runs: Seq<InputRun>, k: int) -> int
    decreases k,
{
    if k <= 0 {
        0
    } else {
        chars_in(runs, k - 1) + runs[k - 1].text@.len()
    }
}

/// Line feeds in a text.
pub open spec fn breaks_in(text: Seq<char>) -> int
    decreases text.len(),
{
    if text.len() == 0 {
        0
    } else {
        breaks_in(text.drop_last()) + (if text.last() == '\n' {
            1int
        } else {
            0
        })
    }
}

/// Line feeds that the first `k` runs hold.
pub open spec fn forced_breaks(runs: Seq<InputRun>, k: int) -> int
    decreases k,
{
    if k <= 0 {
        0
    } else {
        forced_breaks(runs, k - 1) + breaks_in(runs[k - 1].text@)
    }
}

/// A number cut at the greatest one there is.
pub open spec fn saturated(number: int) -> int {
    if number > usize::MAX {
        usize::MAX as int
    } else {
        number
    }
}

/// How many lines a paragraph is taken to have, with so many characters on a
/// line: at least one, and one more for each line feed.
pub open spec fn estimated_lines_of(paragraph: InputParagraph, chars_per_line: int) -> int {
    let total = paragraph.runs@.len() as int;
    let count = chars_in(paragraph.runs@, total);
    let length = if count < 1 {
        1
    } else {
        count
    };
    saturated((length + chars_per_line - 1) / chars_per_line + forced_breaks(
        paragraph.runs@,
        total,
    ))
}

fn count_breaks(text: &str) -> (count: usize)
    ensures
        count == breaks_in(text@),
        count <= text@.len(),
{
    let chars = chars_of(text);
    let mut count: usize = 0;
    let mut next: usize = 0;
    assert(chars@.take(0) =~= Seq::empty());
    while next < chars.len()
        invariant
            next <= chars@.len(),
            count <= next,
            count == breaks_in(chars@.take(next as int)),
        decreases chars@.len() - next,
    {
        assert(chars@.take(next + 1).drop_last() =~= chars@.take(next as int));
        if chars[next] == '\n' {
            count = count + 1;
        }
        next = next + 1;
    }
    assert(chars@.take(next as int) =~= chars@);
    count
}

proof fn lemma_counts_grow(runs: Seq<InputRun>, j: int, k: int)
    requires
        0 <= j <= k <= runs.len(),
    ensures
        0 <= chars_in(runs, j) <= chars_in(runs, k),
        0 <= forced_breaks(runs, j) <= forced_breaks(runs, k),
        forced_breaks(runs, k) <= chars_in(runs, k),
    decreases k,
{
    if k > 0 {
        lemma_breaks_fit(runs[k - 1].text@);
        if j < k {
            lemma_counts_grow(runs, j, k - 1);
        } else {
            lemma_counts_grow(runs, j - 1, k - 1);
        }
    }
}

proof fn lemma_breaks_fit(text: Seq<char>)
    ensures
        0 <= breaks_in(text) <= text.len(),
    decreases text.len(),
{
    if text.len() > 0 {
        lemma_breaks_fit(text.drop_last());
    }
}

/// How many lines a paragraph is taken to have.
pub fn estimated_lines(paragraph: &InputParagraph, chars_per_line: usize) -> (lines: usize)
    requires
        chars_per_line > 0,
        chars_in(paragraph.runs@, paragraph.runs@.len() as int) <= usize::MAX,
    ensures
        lines == estimated_lines_of(*paragraph, chars_per_line as int),
        lines >= 1,
{
    let mut count: usize = 0;
    let mut breaks: usize = 0;
    let mut next: usize = 0;
    while next < paragraph.runs.len()
        invariant
            next <= paragraph.runs@.len(),
            chars_in(paragraph.runs@, paragraph.runs@.len() as int) <= usize::MAX,
            count == chars_in(paragraph.runs@, next as int),
            breaks == forced_breaks(paragraph.runs@, next as int),
            breaks <= count,
        decreases paragraph.runs@.len() - next,
    {
        proof {
            lemma_counts_grow(paragraph.runs@, next + 1, paragraph.runs@.len() as int);
            lemma_counts_grow(paragraph.runs@, next + 1, next + 1);
        }
        let text = paragraph.runs[next].text.as_str();
        let here = chars_of(text);
        breaks = breaks + count_breaks(text);
        count = count + here.len();
        next = next + 1;
    }
    let length: usize = if count < 1 {
        1
    } else {
        count
    };
    let full: usize = (length - 1) / chars_per_line + 1;
    proof {
        let c = chars_per_line as int;
        let l = length as int;
        assert((l + c - 1) / c == (l - 1) / c + 1) by (nonlinear_arith)
            requires
                c > 0,
                l >= 1,
        ;
    }
    full.saturating_add(breaks)
}

/// What a finished scan asks for.
#[derive(Debug)]
pub struct ScanFollowUp {
    /// The scan's files are the tub's now.
    pub indexed: bool,
    /// Remember the folder.
    pub save_root: bool,
    /// Search for evidence again.
    pub search: Option<TubSearch>,
    /// Start polling the watcher.
    pub poll: bool,
    /// Scan this folder next, and remember it.
    pub scan: Option<String>,
}

/// The toolkit's state around the tub.
#[derive(Debug)]
pub struct TubState {
    pub root: Option<String>,
    pub has_index: bool,
    pub watching: bool,
    pub polling: bool,
    pub scan_in_flight: bool,
    pub scan_pending: bool,
    pub tub_status: String,
    pub toolkit_status: String,
    pub search_generation: u64,
    pub filter: ToolkitSearchFilter,
    pub hits: Vec<SearchHit>,
    pub expanded_hits: TextSet,
}

/// A search to run.
#[derive(Debug)]
pub struct TubSearch {
    pub generation: u64,
    pub kinds: Vec<SearchUnitKind>,
    pub limit: usize,
}

/// Two folders are the same.
pub open spec fn same_root(root: Option<String>, other: Seq<char>) -> bool {
    match root {
        Some(root) => root@ == other,
        None => false,
    }
}

/// How the toolkit says how many hits there are.
pub open spec fn hits_text(query_is_empty: bool, count: int) -> Seq<char> {
    if query_is_empty {
        if count == 0 {
            "No DB8 evidence cards"@
        } else {
            decimal(count as nat) + " tub cards"@
        }
    } else if count == 0 {
        "No matching DB8 evidence"@
    } else {
        decimal(count as nat) + " results"@
    }
}

impl TubState {
    /// No folder.
    pub fn new() -> (state: Self)
        ensures
            state.root is None,
            !state.has_index,
            !state.watching,
            !state.polling,
            !state.scan_in_flight,
            !state.scan_pending,
            state.tub_status@.len() == 0,
            state.toolkit_status@ == "Select a tub to search evidence."@,
            state.search_generation == 0,
            state.filter == ToolkitSearchFilter::All,
            state.hits@.len() == 0,
            state.expanded_hits@ == Set::<Seq<char>>::empty(),
    {
        TubState {
            root: None,
            has_index: false,
            watching: false,
            polling: false,
            scan_in_flight: false,
            scan_pending: false,
            tub_status: String::new(),
            toolkit_status: String::from_str("Select a tub to search evidence."),
            search_generation: 0,
            filter: ToolkitSearchFilter::All,
            hits: Vec::new(),
            expanded_hits: TextSet::new(),
        }
    }

    /// Takes a folder: the index of another is gone, and what was queued with
    /// it.
    fn take_root(&mut self, root: &str)
        ensures
            final(self).root is Some,
            (final(self).root->0)@ == root@,
            *final(self) == (TubState {
                root: final(self).root,
                has_index: false,
                watching: false,
                scan_pending: false,
                ..*old(self)
            }),
    {
        self.root = Some(String::from_str(root));
        self.has_index = false;
        self.watching = false;
        self.scan_pending = false;
    }

    /// Opens the folder of the last session and scans it.
    pub fn load_tub_root(&mut self, root: &str) -> (start: bool)
        ensures
            start == !old(self).scan_in_flight,
            same_root(final(self).root, root@),
            !final(self).has_index,
            !final(self).watching,
            final(self).scan_in_flight,
            final(self).scan_pending == old(self).scan_in_flight,
            final(self).tub_status@ == (if start {
                "Indexing "@ + root@
            } else {
                "Indexing queued"@
            }),
            final(self).toolkit_status@ == "Indexing tub..."@,
            *final(self) == (TubState {
                root: final(self).root,
                has_index: false,
                watching: false,
                scan_in_flight: true,
                scan_pending: old(self).scan_in_flight,
                tub_status: final(self).tub_status,
                toolkit_status: final(self).toolkit_status,
                hits: final(self).hits,
                ..*old(self)
            }),
            if start {
                final(self).hits@.len() == 0
            } else {
                final(self).hits == old(self).hits
            },
    {
        self.take_root(root);
        self.toolkit_status = String::from_str("Indexing tub...");
        self.spawn_tub_scan(root)
    }

    /// Takes the folder that was picked and scans it.
    pub fn set_tub_root(&mut self, root: &str) -> (start: bool)
        ensures
            start == !old(self).scan_in_flight,
            same_root(final(self).root, root@),
            final(self).tub_status@ == (if start {
                "Indexing "@ + root@
            } else {
                "Indexing queued"@
            }),
            start ==> final(self).toolkit_status@ == "Indexing tub..."@ && final(self).hits@.len()
                == 0,
            *final(self) == (TubState {
                root: final(self).root,
                has_index: false,
                watching: false,
                scan_in_flight: true,
                scan_pending: old(self).scan_in_flight,
                tub_status: final(self).tub_status,
                toolkit_status: if start {
                    final(self).toolkit_status
                } else {
                    old(self).toolkit_status
                },
                hits: if start {
                    final(self).hits
                } else {
                    old(self).hits
                },
                ..*old(self)
            }),
    {
        self.take_root(root);
        self.spawn_tub_scan(root)
    }

    /// Starts a scan, or queues one behind the scan under way.
    pub fn spawn_tub_scan(&mut self, root: &str) -> (start: bool)
        ensures
            start == !old(self).scan_in_flight,
            if start {
                &&& final(self).tub_status@ == "Indexing "@ + root@
                &&& final(self).toolkit_status@ == "Indexing tub..."@
                &&& final(self).hits@.len() == 0
                &&& *final(self) == (TubState {
                    scan_in_flight: true,
                    tub_status: final(self).tub_status,
                    toolkit_status: final(self).toolkit_status,
                    hits: final(self).hits,
                    ..*old(self)
                })
            } else {
                &&& final(self).tub_status@ == "Indexing queued"@
                &&& *final(self) == (TubState {
                    scan_pending: true,
                    tub_status: final(self).tub_status,
                    ..*old(self)
                })
            },
    {
        if self.scan_in_flight {
            self.scan_pending = true;
            self.tub_status = String::from_str("Indexing queued");
            return false;
        }
        self.scan_in_flight = true;
        let mut status = String::from_str("Indexing ");
        status.append(root);
        self.tub_status = status;
        self.toolkit_status = String::from_str("Indexing tub...");
        self.hits = Vec::new();
        true
    }

    /// Scans the folder again; without one it says so. Hands back the folder
    /// to scan.
    pub fn refresh_tub(&mut self) -> (scan: Option<String>)
        ensures
            match old(self).root {
                None => {
                    &&& scan is None
                    &&& final(self).tub_status@ == "No tub selected"@
                    &&& *final(self) == (TubState {
                        tub_status: final(self).tub_status,
                        ..*old(self)
                    })
                },
                Some(root) => {
                    &&& scan is Some == !old(self).scan_in_flight
                    &&& scan is Some ==> (scan->0)@ == root@
                    &&& final(self).tub_status@ == (if scan is Some {
                        "Indexing "@ + root@
                    } else {
                        "Indexing queued"@
                    })
                    &&& scan is Some ==> final(self).toolkit_status@ == "Indexing tub..."@ && final(self).hits@.len() == 0
                    &&& *final(self) == (TubState {
                        scan_in_flight: true,
                        scan_pending: old(self).scan_pending || old(self).scan_in_flight,
                        tub_status: final(self).tub_status,
                        toolkit_status: if scan is Some {
                            final(self).toolkit_status
                        } else {
                            old(self).toolkit_status
                        },
                        hits: if scan is Some {
                            final(self).hits
                        } else {
                            old(self).hits
                        },
                        ..*old(self)
                    })
                },
            },
    {
        match &self.root {
            None => {
                self.tub_status = String::from_str("No tub selected");
                None
            },
            Some(root) => {
                let root = root.clone();
                if self.spawn_tub_scan(root.as_str()) {
                    Some(root)
                } else {
                    None
                }
            },
        }
    }

    /// A scan ended; a good one says whether the folder is watched. One of a
    /// folder that was left meanwhile is dropped and the present folder is
    /// scanned. Else its files are the tub's and evidence is searched again,
    /// or the tub is unavailable; what was queued is scanned next.
    pub fn finish_tub_scan(
        &mut self,
        requested_root: &str,
        persist_root: bool,
        result: Result<bool, String>,
        query: &str,
    ) -> (follow_up: ScanFollowUp)
        ensures
            ({
                let before = *old(self);
                let after = *final(self);
                let left = before.root is Some && !same_root(before.root, requested_root@);
                let rescans = left || (before.scan_pending && (result is Ok || before.root is Some));
                &&& follow_up.indexed == (!left && result is Ok)
                &&& follow_up.save_root == (follow_up.indexed && persist_root)
                &&& follow_up.search is Some == follow_up.indexed
                &&& follow_up.search is Some ==> {
                    &&& (follow_up.search->0).generation == before.search_generation.wrapping_add(1)
                    &&& (follow_up.search->0).kinds@ == before.filter.kind_list()
                    &&& (follow_up.search->0).limit == TOOLKIT_RESULT_LIMIT
                }
                &&& follow_up.poll == (follow_up.indexed && result->Ok_0 && !before.polling)
                &&& follow_up.scan is Some == rescans
                &&& rescans ==> (follow_up.scan->0)@ == (if left {
                    (before.root->0)@
                } else {
                    requested_root@
                })
                &&& after == (TubState {
                    root: after.root,
                    has_index: if left {
                        before.has_index
                    } else {
                        result is Ok
                    },
                    watching: if left {
                        before.watching
                    } else {
                        result is Ok && result->Ok_0
                    },
                    polling: before.polling || follow_up.poll,
                    scan_in_flight: rescans,
                    scan_pending: false,
                    tub_status: after.tub_status,
                    toolkit_status: after.toolkit_status,
                    search_generation: if follow_up.indexed {
                        before.search_generation.wrapping_add(1)
                    } else {
                        before.search_generation
                    },
                    hits: after.hits,
                    ..before
                })
                &&& if follow_up.indexed {
                    same_root(after.root, requested_root@)
                } else {
                    after.root == before.root
                }
                &&& after.tub_status@ == (if rescans {
                    "Indexing "@ + (follow_up.scan->0)@
                } else if follow_up.indexed {
                    "Tub indexed"@
                } else {
                    "Tub unavailable: "@ + (result->Err_0)@
                })
                &&& after.toolkit_status@ == (if rescans {
                    "Indexing tub..."@
                } else if !follow_up.indexed {
                    "Tub unavailable"@
                } else if trimmed(query@).len() == 0 {
                    "Loading tub cards..."@
                } else {
                    "Searching..."@
                })
                &&& if rescans || !follow_up.indexed {
                    after.hits@.len() == 0
                } else {
                    after.hits == before.hits
                }
            }),
    {
        self.scan_in_flight = false;
        let rescan_pending = self.scan_pending;
        self.scan_pending = false;
        let left = match &self.root {
            Some(root) => !crate::text::same_text(root.as_str(), requested_root),
            None => false,
        };
        if left {
            let scan = self.refresh_tub();
            return ScanFollowUp {
                indexed: false,
                save_root: false,
                search: None,
                poll: false,
                scan,
            };
        }
        match result {
            Ok(watching) => {
                self.root = Some(String::from_str(requested_root));
                self.has_index = true;
                self.tub_status = String::from_str("Tub indexed");
                let search = self.refresh_toolkit_search(query);
                let poll = self.start_tub_watch_poll(watching);
                let scan = if rescan_pending && self.spawn_tub_scan(requested_root) {
                    Some(String::from_str(requested_root))
                } else {
                    None
                };
                ScanFollowUp { indexed: true, save_root: persist_root, search, poll, scan }
            },
            Err(error) => {
                self.has_index = false;
                self.watching = false;
                self.hits = Vec::new();
                let mut status = String::from_str("Tub unavailable: ");
                status.append(error.as_str());
                self.tub_status = status;
                self.toolkit_status = String::from_str("Tub unavailable");
                let scan = if rescan_pending && self.root.is_some() && self.spawn_tub_scan(
                    requested_root,
                ) {
                    Some(String::from_str(requested_root))
                } else {
                    None
                };
                ScanFollowUp { indexed: false, save_root: false, search: None, poll: false, scan }
            },
        }
    }

    /// The folder is being watched, or could not be: starts polling once.
    pub fn start_tub_watch_poll(&mut self, watching: bool) -> (poll: bool)
        ensures
            poll == (watching && !old(self).polling),
            *final(self) == (TubState {
                watching,
                polling: old(self).polling || watching,
                ..*old(self)
            }),
    {
        self.watching = watching;
        if self.polling || !watching {
            return false;
        }
        self.polling = true;
        true
    }

    /// A poll: stops once nothing is watched, and a change scans again.
    pub fn poll_watcher(&mut self, changed: bool) -> (poll: (bool, Option<String>))
        ensures
            poll.0 == old(self).watching,
            !old(self).watching ==> poll.1 is None && *final(self) == (TubState {
                polling: false,
                ..*old(self)
            }),
            old(self).watching && !changed ==> poll.1 is None && *final(self) == *old(self),
            old(self).watching && changed ==> {
                &&& poll.1 is Some == (old(self).root is Some && !old(self).scan_in_flight)
                &&& poll.1 is Some ==> (poll.1->0)@ == (old(self).root->0)@
                &&& final(self).tub_status@ == (if old(self).scan_in_flight {
                    "Indexing queued"@
                } else if poll.1 is Some {
                    "Indexing "@ + (poll.1->0)@
                } else {
                    "No tub selected"@
                })
                &&& poll.1 is Some ==> final(self).toolkit_status@ == "Indexing tub..."@
                    && final(self).hits@.len() == 0
                &&& *final(self) == (TubState {
                    scan_pending: old(self).scan_pending || old(self).scan_in_flight,
                    scan_in_flight: old(self).scan_in_flight || poll.1 is Some,
                    tub_status: final(self).tub_status,
                    toolkit_status: if poll.1 is Some {
                        final(self).toolkit_status
                    } else {
                        old(self).toolkit_status
                    },
                    hits: if poll.1 is Some {
                        final(self).hits
                    } else {
                        old(self).hits
                    },
                    ..*old(self)
                })
            },
    {
        if !self.watching {
            self.polling = false;
            return (false, None);
        }
        if changed {
            if self.scan_in_flight {
                self.scan_pending = true;
                self.tub_status = String::from_str("Indexing queued");
                (true, None)
            } else {
                let scan = self.refresh_tub();
                (true, scan)
            }
        } else {
            (true, None)
        }
    }

    /// Starts a search for evidence; an empty query lists the tub's cards.
    pub fn refresh_toolkit_search(&mut self, query: &str) -> (search: Option<TubSearch>)
        ensures
            match search {
                None => {
                    &&& !old(self).has_index
                    &&& final(self).hits@.len() == 0
                    &&& final(self).toolkit_status@ == "Select a tub to search evidence."@
                    &&& *final(self) == (TubState {
                        hits: final(self).hits,
                        toolkit_status: final(self).toolkit_status,
                        ..*old(self)
                    })
                },
                Some(search) => {
                    &&& old(self).has_index
                    &&& search.generation == old(self).search_generation.wrapping_add(1)
                    &&& search.kinds@ == old(self).filter.kind_list()
                    &&& search.limit == TOOLKIT_RESULT_LIMIT
                    &&& final(self).toolkit_status@ == (if trimmed(query@).len() == 0 {
                        "Loading tub cards..."@
                    } else {
                        "Searching..."@
                    })
                    &&& *final(self) == (TubState {
                        search_generation: search.generation,
                        toolkit_status: final(self).toolkit_status,
                        ..*old(self)
                    })
                },
            },
    {
        if !self.has_index {
            self.hits = Vec::new();
            self.toolkit_status = String::from_str("Select a tub to search evidence.");
            return None;
        }
        let inner = trim(query);
        self.search_generation = self.search_generation.wrapping_add(1);
        let kinds = self.filter.kinds();
        self.toolkit_status =
        if inner.as_str().is_empty() {
            String::from_str("Loading tub cards...")
        } else {
            String::from_str("Searching...")
        };
        Some(TubSearch { generation: self.search_generation, kinds, limit: TOOLKIT_RESULT_LIMIT })
    }

    /// Takes what a search found, unless a later one has started.
    pub fn finish_toolkit_search(
        &mut self,
        generation: u64,
        query_is_empty: bool,
        result: Result<Vec<SearchHit>, String>,
    ) -> (taken: bool)
        ensures
            taken == (old(self).search_generation == generation),
            !taken ==> *final(self) == *old(self),
            taken ==> match result {
                Ok(hits) => {
                    &&& final(self).toolkit_status@ == hits_text(query_is_empty, hits@.len() as int)
                    &&& *final(self) == (TubState {
                        hits,
                        toolkit_status: final(self).toolkit_status,
                        ..*old(self)
                    })
                },
                Err(error) => {
                    &&& final(self).toolkit_status@ == "Search failed: "@ + error@
                    &&& final(self).hits@.len() == 0
                    &&& *final(self) == (TubState {
                        hits: final(self).hits,
                        toolkit_status: final(self).toolkit_status,
                        ..*old(self)
                    })
                },
            },
    {
        if self.search_generation != generation {
            return false;
        }
        match result {
            Ok(hits) => {
                let count: usize = hits.len();
                self.hits = hits;
                self.toolkit_status =
                if count == 0 {
                    if query_is_empty {
                        String::from_str("No DB8 evidence cards")
                    } else {
                        String::from_str("No matching DB8 evidence")
                    }
                } else {
                    let mut status = String::new();
                    push_decimal(&mut status, count as u128);
                    status.append(if query_is_empty { " tub cards" } else { " results" });
                    assert(status@ =~= hits_text(query_is_empty, count as int));
                    status
                };
            },
            Err(error) => {
                self.hits = Vec::new();
                let mut status = String::from_str("Search failed: ");
                status.append(error.as_str());
                self.toolkit_status = status;
            },
        }
        true
    }

    /// Looks through something else; the search runs again.
    pub fn set_toolkit_filter(&mut self, filter: ToolkitSearchFilter, query: &str) -> (search: Option<
        TubSearch,
    >)
        ensures
            match search {
                None => {
                    &&& !old(self).has_index
                    &&& final(self).hits@.len() == 0
                    &&& final(self).toolkit_status@ == "Select a tub to search evidence."@
                    &&& *final(self) == (TubState {
                        filter,
                        hits: final(self).hits,
                        toolkit_status: final(self).toolkit_status,
                        ..*old(self)
                    })
                },
                Some(search) => {
                    &&& old(self).has_index
                    &&& search.generation == old(self).search_generation.wrapping_add(1)
                    &&& search.kinds@ == filter.kind_list()
                    &&& search.limit == TOOLKIT_RESULT_LIMIT
                    &&& final(self).toolkit_status@ == (if trimmed(query@).len() == 0 {
                        "Loading tub cards..."@
                    } else {
                        "Searching..."@
                    })
                    &&& *final(self) == (TubState {
                        filter,
                        search_generation: search.generation,
                        toolkit_status: final(self).toolkit_status,
                        ..*old(self)
                    })
                },
            },
    {
        self.filter = filter;
        self.refresh_toolkit_search(query)
    }

    /// Expands a hit's preview, or folds it.
    pub fn toggle_toolkit_hit_expanded(&mut self, hit_ix: usize)
        ensures
            final(self).expanded_hits@ == (if hit_ix >= old(self).hits@.len() {
                old(self).expanded_hits@
            } else {
                let key = hit_key(old(self).hits@[hit_ix as int]);
                if old(self).expanded_hits@.contains(key) {
                    old(self).expanded_hits@.remove(key)
                } else {
                    old(self).expanded_hits@.insert(key)
                }
            }),
            *final(self) == (TubState { expanded_hits: final(self).expanded_hits, ..*old(self) }),
    {
        if hit_ix < self.hits.len() {
            let key = self.hits[hit_ix].toolkit_hit_key();
            self.expanded_hits.toggle(key.as_str());
        }
    }

    /// Whether a hit's preview is expanded: it has more to show, and was
    /// asked to.
    pub fn is_hit_expanded(&self, hit: &SearchHit) -> (b: bool)
        ensures
            b == (can_expand(*hit) && self.expanded_hits@.contains(hit_key(*hit))),
    {
        if !hit.toolkit_hit_preview_can_expand() {
            return false;
        }
        let key = hit.toolkit_hit_key();
        self.expanded_hits.contains(key.as_str())
    }

    /// Where a hit opens: its path, and the paragraph that it begins at.
    pub fn open_toolkit_hit(&self, hit_ix: usize) -> (target: Option<(String, Option<usize>)>)
        ensures
            match target {
                None => hit_ix >= self.hits@.len(),
                Some((path, paragraph)) => hit_ix < self.hits@.len() && path@
                    == self.hits@[hit_ix as int].path@ && paragraph
                    == self.hits@[hit_ix as int].paragraph_start,
            },
    {
        if hit_ix >= self.hits.len() {
            return None;
        }
        let hit = &self.hits[hit_ix];
        Some((hit.path.clone(), hit.paragraph_start))
    }

    /// Opens a file from the tree.
    pub fn open_tub_tree_file(&mut self, name: &str)
        ensures
            final(self).tub_status@ == "Opening "@ + name@,
            *final(self) == (TubState { tub_status: final(self).tub_status, ..*old(self) }),
    {
        let mut status = String::from_str("Opening ");
        status.append(name);
        self.tub_status = status;
    }
}

/// What inserting a hit does.
#[derive(Debug)]
pub enum HitInsertion {
    Document(Vec<InputParagraph>),
    Flow { title: String, text: String },
}

impl TubState {
    /// What inserting a hit does: the document on top gets its paragraphs,
    /// else the flow on top its title and text.
    pub fn insert_toolkit_hit(&self, hit_ix: usize, document: bool, flow: bool) -> (insertion: Option<
        HitInsertion,
    >)
        ensures
            match insertion {
                None => hit_ix >= self.hits@.len() || (!document && !flow),
                Some(HitInsertion::Document(paragraphs)) => {
                    &&& hit_ix < self.hits@.len()
                    &&& document
                    &&& paragraph_values(paragraphs@) == insert_paragraphs(
                        self.hits@[hit_ix as int],
                    )
                },
                Some(HitInsertion::Flow { title, text }) => {
                    &&& hit_ix < self.hits@.len()
                    &&& !document && flow
                    &&& title@ == self.hits@[hit_ix as int].title@
                    &&& text@ == self.hits@[hit_ix as int].insert_text@
                },
            },
    {
        if hit_ix >= self.hits.len() {
            return None;
        }
        let hit = &self.hits[hit_ix];
        if document {
            return Some(HitInsertion::Document(hit.toolkit_hit_insert_paragraphs()));
        }
        if flow {
            return Some(
                HitInsertion::Flow { title: hit.title.clone(), text: hit.insert_text.clone() },
            );
        }
        None
    }
}

/// The button that swaps the left panel: its icon, its tooltip and what it
/// swaps to.
pub fn left_nav_swap(mode: LeftNavMode) -> (swap: (&'static str, &'static str, LeftNavMode))
    ensures
        match mode {
            LeftNavMode::Outline => swap.0@ == "icons/archive.svg"@ && swap.1@ == "Swap to tub"@
                && swap.2 == LeftNavMode::Tub,
            LeftNavMode::Tub => swap.0@ == "icons/table-of-contents.svg"@ && swap.1@
                == "Swap to outline"@ && swap.2 == LeftNavMode::Outline,
        },
{
    match mode {
        LeftNavMode::Outline => ("icons/archive.svg", "Swap to tub", LeftNavMode::Tub),
        LeftNavMode::Tub => ("icons/table-of-contents.svg", "Swap to outline", LeftNavMode::Outline),
    }
}

} // verus!
