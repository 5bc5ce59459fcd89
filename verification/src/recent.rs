//! Recently opened documents and their previews.

use crate::paths::{has_extension, is_flow_path};
use crate::text::{chars_of, same_text, text_between, texts};
use crate::text_set::TextSet;
use crate::toolkit::{InputParagraph, InputRun, ParagraphValue, RunValue};
use vstd::prelude::*;

verus! {

/// How many documents are remembered.
pub const RECENT_DOCUMENT_LIMIT: usize = 3;

/// How many paragraphs a preview shows.
pub const PREVIEW_PARAGRAPHS: usize = 12;

/// How many characters a preview shows.
pub const PREVIEW_CHARS: usize = 2200;

/// A remembered document: where it is, and its name there.
#[derive(Debug)]
pub struct RecentDocument {
    pub path: String,
    pub file_name: String,
}

/// The remembered documents, the latest first.
#[derive(Debug)]
pub struct RecentDocuments {
    pub list: Vec<RecentDocument>,
    /// The paths whose previews are there.
    pub previewed: TextSet,
    pub generation: u64,
}

/// A remembered document by its values.
pub open spec fn entry_value(recent: RecentDocument) -> (Seq<char>, Seq<char>) {
    (recent.path@, recent.file_name@)
}

/// The remembered documents by their values.
pub open spec fn entry_values(list: Seq<RecentDocument>) -> Seq<(Seq<char>, Seq<char>)> {
    list.map_values(|recent: RecentDocument| entry_value(recent))
}

/// The first `k` documents but that of one path.
pub open spec fn other_entries(list: Seq<(Seq<char>, Seq<char>)>, path: Seq<char>, k: int) -> Seq<
    (Seq<char>, Seq<char>),
>
    decreases k,
{
    if k <= 0 {
        Seq::empty()
    } else if list[k - 1].0 != path {
        other_entries(list, path, k - 1).push(list[k - 1])
    } else {
        other_entries(list, path, k - 1)
    }
}

/// The list after a document was opened: it comes first, once, and the oldest
/// of too many goes.
pub open spec fn recorded(
    list: Seq<(Seq<char>, Seq<char>)>,
    entry: (Seq<char>, Seq<char>),
) -> Seq<(Seq<char>, Seq<char>)> {
    let all = seq![entry] + other_entries(list, entry.0, list.len() as int);
    if all.len() > RECENT_DOCUMENT_LIMIT {
        all.take(RECENT_DOCUMENT_LIMIT as int)
    } else {
        all
    }
}

/// No two documents of a list have the same path.
pub open spec fn apart(list: Seq<(Seq<char>, Seq<char>)>) -> bool {
    forall|i: int, j: int|
        0 <= i < j < list.len() ==> (#[trigger] list[i]).0 != (#[trigger] list[j]).0
}

proof fn lemma_other_entries(list: Seq<(Seq<char>, Seq<char>)>, path: Seq<char>, k: int)
    requires
        0 <= k <= list.len(),
        apart(list),
    ensures
        apart(other_entries(list, path, k)),
        forall|i: int|
            0 <= i < other_entries(list, path, k).len() ==> (#[trigger] other_entries(
                list,
                path,
                k,
            )[i]).0 != path,
        forall|i: int|
            0 <= i < other_entries(list, path, k).len() ==> exists|j: int|
                0 <= j < k && list[j] == #[trigger] other_entries(list, path, k)[i],
    decreases k,
{
    if k > 0 {
        lemma_other_entries(list, path, k - 1);
        let before = other_entries(list, path, k - 1);
        let all = other_entries(list, path, k);
        assert forall|i: int| 0 <= i < all.len() implies exists|j: int|
            0 <= j < k && list[j] == #[trigger] all[i] by {
            if i < before.len() {
                let j = choose|j: int| 0 <= j < k - 1 && list[j] == before[i];
                assert(list[j] == all[i]);
            } else {
                assert(list[k - 1] == all[i]);
            }
        }
        assert forall|i: int, j: int| 0 <= i < j < all.len() implies (#[trigger] all[i]).0 != (
        #[trigger] all[j]).0 by {
            if j < before.len() {
                assert(before[i].0 != before[j].0);
            } else {
                let m = choose|m: int| 0 <= m < k - 1 && list[m] == before[i];
                assert(list[m].0 != list[k - 1].0);
            }
        }
    }
}

/// The list of recent documents never has one twice, stays short, and begins
/// with the document that was opened last.
pub proof fn recent_documents_stay_apart(
    list: Seq<(Seq<char>, Seq<char>)>,
    entry: (Seq<char>, Seq<char>),
)
    requires
        apart(list),
    ensures
        apart(recorded(list, entry)),
        0 < recorded(list, entry).len() <= RECENT_DOCUMENT_LIMIT,
        recorded(list, entry)[0] == entry,
{
    lemma_other_entries(list, entry.0, list.len() as int);
    let rest = other_entries(list, entry.0, list.len() as int);
    let all = seq![entry] + rest;
    assert forall|i: int, j: int| 0 <= i < j < all.len() implies (#[trigger] all[i]).0 != (
    #[trigger] all[j]).0 by {
        if i == 0 {
            assert(rest[j - 1].0 != entry.0);
        } else {
            assert(rest[i - 1].0 != rest[j - 1].0);
        }
    }
}

/// A path is among the remembered ones.
pub open spec fn remembers(list: Seq<RecentDocument>, path: Seq<char>) -> bool {
    exists|i: int| 0 <= i < list.len() && (#[trigger] list[i]).path@ == path
}

/// A preview is missing: of a document that is no flow and has none.
pub open spec fn lacks_preview(recent: RecentDocument, previewed: Set<Seq<char>>) -> bool {
    !previewed.contains(recent.path@) && !has_extension(recent.file_name@, "fl0"@)
}

/// The paths among the first `k` whose previews are missing.
pub open spec fn missing_previews(
    list: Seq<RecentDocument>,
    previewed: Set<Seq<char>>,
    k: int,
) -> Seq<Seq<char>>
    decreases k,
{
    if k <= 0 {
        Seq::empty()
    } else if lacks_preview(list[k - 1], previewed) {
        missing_previews(list, previewed, k - 1).push(list[k - 1].path@)
    } else {
        missing_previews(list, previewed, k - 1)
    }
}

impl RecentDocuments {
    /// The documents of the last session.
    pub fn new(list: Vec<RecentDocument>) -> (recents: Self)
        ensures
            recents.list == list,
            recents.previewed@ == Set::<Seq<char>>::empty(),
            recents.generation == 0,
    {
        RecentDocuments { list, previewed: TextSet::new(), generation: 0 }
    }

    fn remembers_path(&self, path: &str) -> (b: bool)
        ensures
            b == remembers(self.list@, path@),
    {
        let mut next: usize = 0;
        while next < self.list.len()
            invariant
                next <= self.list@.len(),
                forall|i: int| 0 <= i < next ==> (#[trigger] self.list@[i]).path@ != path@,
            decreases self.list@.len() - next,
        {
            if same_text(self.list[next].path.as_str(), path) {
                return true;
            }
            next = next + 1;
        }
        false
    }

    /// A document was opened.
    pub fn record_recent_document(&mut self, recent: RecentDocument)
        ensures
            entry_values(final(self).list@) == recorded(
                entry_values(old(self).list@),
                entry_value(recent),
            ),
            final(self).previewed == old(self).previewed,
            final(self).generation == old(self).generation,
    {
        let ghost given = entry_values(self.list@);
        let ghost entry = entry_value(recent);
        let ghost all = seq![entry] + other_entries(given, entry.0, given.len() as int);
        let mut kept: Vec<RecentDocument> = Vec::new();
        kept.push(recent);
        let mut next: usize = 0;
        assert(entry_values(kept@) =~= seq![entry] + other_entries(given, entry.0, 0));
        while next < self.list.len()
            invariant
                *self == *old(self),
                given == entry_values(self.list@),
                next <= self.list@.len(),
                kept@.len() > 0,
                kept@[0].path@ == entry.0,
                entry_values(kept@) == seq![entry] + other_entries(given, entry.0, next as int),
            decreases self.list@.len() - next,
        {
            let ghost before = kept@;
            let ghost others = other_entries(given, entry.0, next as int);
            assert(given[next as int] == entry_value(self.list@[next as int]));
            if !same_text(self.list[next].path.as_str(), kept[0].path.as_str()) {
                let copy = RecentDocument {
                    path: self.list[next].path.clone(),
                    file_name: self.list[next].file_name.clone(),
                };
                kept.push(copy);
                assert(entry_values(kept@) =~= entry_values(before).push(given[next as int]));
                assert((seq![entry] + others).push(given[next as int]) =~= seq![entry]
                    + others.push(given[next as int]));
            }
            next = next + 1;
        }
        assert(given.len() == self.list@.len());
        assert(all.take(kept@.len() as int) =~= all) by {
            assert(entry_values(kept@).len() == kept@.len());
        }
        while kept.len() > RECENT_DOCUMENT_LIMIT
            invariant
                kept@.len() <= all.len(),
                entry_values(kept@) == all.take(kept@.len() as int),
                kept@.len() < RECENT_DOCUMENT_LIMIT ==> kept@.len() == all.len(),
            decreases kept@.len(),
        {
            let ghost before = kept@;
            kept.pop();
            assert(entry_values(kept@) =~= entry_values(before).drop_last());
            assert(entry_values(kept@) =~= all.take(kept@.len() as int));
        }
        assert(all.take(all.len() as int) =~= all);
        self.list = kept;
    }

    /// Forgets previews of documents that are not remembered, and hands back
    /// the paths whose previews are missing; a round of loading gets a number
    /// where there are any.
    pub fn refresh_recent_document_previews(&mut self) -> (missing: Vec<String>)
        ensures
            final(self).list == old(self).list,
            forall|path: Seq<char>| #[trigger]
                final(self).previewed@.contains(path) <==> (old(self).previewed@.contains(path)
                    && remembers(old(self).list@, path)),
            texts(missing@) == missing_previews(
                old(self).list@,
                final(self).previewed@,
                old(self).list@.len() as int,
            ),
            final(self).generation == (if missing@.len() == 0 {
                old(self).generation
            } else {
                old(self).generation.wrapping_add(1)
            }),
    {
        let mut kept = TextSet::new();
        let mut next: usize = 0;
        let ghost given = self.previewed.items@;
        while next < self.previewed.items.len()
            invariant
                *self == *old(self),
                given == self.previewed.items@,
                next <= given.len(),
                forall|path: Seq<char>| #[trigger]
                    kept@.contains(path) <==> (remembers(self.list@, path) && exists|i: int|
                        0 <= i < next && (#[trigger] given[i])@ == path),
            decreases given.len() - next,
        {
            let text = self.previewed.items[next].as_str();
            let ghost before = kept@;
            if self.remembers_path(text) {
                kept.insert(text);
            }
            assert forall|path: Seq<char>| #[trigger]
                kept@.contains(path) <==> (remembers(self.list@, path) && exists|i: int|
                    0 <= i < next + 1 && (#[trigger] given[i])@ == path) by {
                if before.contains(path) {
                    let i = choose|i: int| 0 <= i < next && (#[trigger] given[i])@ == path;
                    assert(given[i]@ == path);
                }
                if path == text@ {
                    assert(given[next as int]@ == path);
                }
                if remembers(self.list@, path) && exists|i: int|
                    0 <= i < next + 1 && (#[trigger] given[i])@ == path {
                    let i = choose|i: int| 0 <= i < next + 1 && (#[trigger] given[i])@ == path;
                    if i < next {
                        assert(before.contains(path));
                    }
                }
            }
            next = next + 1;
        }
        self.previewed = kept;
        let mut missing: Vec<String> = Vec::new();
        let mut at: usize = 0;
        assert(texts(missing@) =~= Seq::empty());
        while at < self.list.len()
            invariant
                at <= self.list@.len(),
                texts(missing@) == missing_previews(self.list@, self.previewed@, at as int),
            decreases self.list@.len() - at,
        {
            let recent = &self.list[at];
            if !self.previewed.contains(recent.path.as_str()) && !is_flow_path(
                recent.file_name.as_str(),
            ) {
                let path = recent.path.clone();
                proof {
                    crate::text::lemma_texts_push(missing@, path);
                }
                missing.push(path);
            }
            at = at + 1;
        }
        if missing.len() > 0 {
            self.generation = self.generation.wrapping_add(1);
        }
        missing
    }

    /// A preview was loaded: it is kept where its round is the latest and its
    /// document still remembered.
    pub fn finish_preview(&mut self, generation: u64, path: &str, loaded: bool) -> (kept: bool)
        ensures
            kept == (loaded && old(self).generation == generation && remembers(
                old(self).list@,
                path@,
            )),
            final(self).list == old(self).list,
            final(self).generation == old(self).generation,
            final(self).previewed@ == (if kept {
                old(self).previewed@.insert(path@)
            } else {
                old(self).previewed@
            }),
    {
        if self.generation != generation || !self.remembers_path(path) || !loaded {
            return false;
        }
        self.previewed.insert(path);
        true
    }
}

/// The runs of a preview: those with text among the first `k`, cut where the
/// characters run out. Also how many characters are left then.
pub open spec fn preview_runs(runs: Seq<RunValue>, budget: int, k: int) -> (Seq<RunValue>, int)
    decreases k,
{
    if k <= 0 {
        (Seq::empty(), budget)
    } else {
        let (shown, left) = preview_runs(runs, budget, k - 1);
        let run = runs[k - 1];
        if left <= 0 || run.text.len() == 0 {
            (shown, left)
        } else if run.text.len() <= left {
            (shown.push(run), left - run.text.len())
        } else {
            (shown.push(RunValue { text: run.text.take(left), ..run }), 0)
        }
    }
}

/// The paragraphs of a preview: those with text among the first `k`. Also how
/// many characters are left then.
pub open spec fn preview_of(paragraphs: Seq<ParagraphValue>, budget: int, k: int) -> (
    Seq<ParagraphValue>,
    int,
)
    decreases k,
{
    if k <= 0 {
        (Seq::empty(), budget)
    } else {
        let (shown, left) = preview_of(paragraphs, budget, k - 1);
        let paragraph = paragraphs[k - 1];
        let (runs, rest) = preview_runs(paragraph.runs, left, paragraph.runs.len() as int);
        if runs.len() == 0 {
            (shown, rest)
        } else {
            (shown.push(ParagraphValue { style: paragraph.style, runs }), rest)
        }
    }
}

/// Characters that runs hold.
pub open spec fn run_chars(runs: Seq<RunValue>) -> int
    decreases runs.len(),
{
    if runs.len() == 0 {
        0
    } else {
        run_chars(runs.drop_last()) + runs.last().text.len()
    }
}

/// Characters that paragraphs hold.
pub open spec fn paragraph_chars(paragraphs: Seq<ParagraphValue>) -> int
    decreases paragraphs.len(),
{
    if paragraphs.len() == 0 {
        0
    } else {
        paragraph_chars(paragraphs.drop_last()) + run_chars(paragraphs.last().runs)
    }
}

proof fn lemma_preview_runs(runs: Seq<RunValue>, budget: int, k: int)
    requires
        budget >= 0,
        0 <= k <= runs.len(),
    ensures
        0 <= preview_runs(runs, budget, k).1 <= budget,
        run_chars(preview_runs(runs, budget, k).0) == budget - preview_runs(runs, budget, k).1,
    decreases k,
{
    if k > 0 {
        lemma_preview_runs(runs, budget, k - 1);
        let before = preview_runs(runs, budget, k - 1).0;
        let after = preview_runs(runs, budget, k).0;
        if after.len() > before.len() {
            assert(after.drop_last() =~= before);
        }
    }
}

/// A preview is short: it shows no more paragraphs and characters than it is
/// given.
pub proof fn previews_are_short(paragraphs: Seq<ParagraphValue>, budget: int, k: int)
    requires
        budget >= 0,
        0 <= k <= paragraphs.len(),
    ensures
        preview_of(paragraphs, budget, k).0.len() <= k,
        paragraph_chars(preview_of(paragraphs, budget, k).0) == budget - preview_of(
            paragraphs,
            budget,
            k,
        ).1,
        0 <= preview_of(paragraphs, budget, k).1 <= budget,
    decreases k,
{
    if k > 0 {
        previews_are_short(paragraphs, budget, k - 1);
        let (before, left) = preview_of(paragraphs, budget, k - 1);
        let after = preview_of(paragraphs, budget, k).0;
        let paragraph = paragraphs[k - 1];
        lemma_preview_runs(paragraph.runs, left, paragraph.runs.len() as int);
        let shown = preview_runs(paragraph.runs, left, paragraph.runs.len() as int).0;
        if shown.len() > 0 {
            assert(after.drop_last() =~= before);
            assert(after.last().runs == shown);
        }
    }
}

/// Runs by their values.
pub open spec fn run_values(runs: Seq<InputRun>) -> Seq<RunValue> {
    runs.map_values(|run: InputRun| run@)
}

fn cut_runs(runs: &Vec<InputRun>, budget: usize) -> (cut: (Vec<InputRun>, usize))
    ensures
        ({
            let (shown, left) = preview_runs(
                run_values(runs@),
                budget as int,
                runs@.len() as int,
            );
            run_values(cut.0@) == shown && cut.1 == left
        }),
{
    let ghost all = run_values(runs@);
    let mut shown: Vec<InputRun> = Vec::new();
    let mut left: usize = budget;
    let mut next: usize = 0;
    assert(run_values(shown@) =~= Seq::empty());
    while next < runs.len()
        invariant
            next <= runs@.len(),
            all == run_values(runs@),
            run_values(shown@) == preview_runs(all, budget as int, next as int).0,
            left == preview_runs(all, budget as int, next as int).1,
        decreases runs@.len() - next,
    {
        let run = &runs[next];
        assert(all[next as int] == run@);
        let chars = chars_of(run.text.as_str());
        let ghost before = shown@;
        if left > 0 && chars.len() > 0 {
            let count: usize = if chars.len() <= left {
                chars.len()
            } else {
                left
            };
            let text = text_between(&chars, 0, count);
            let ghost cut_text = text@;
            shown.push(InputRun { text, styles: run.styles });
            assert(run_values(shown@) =~= run_values(before).push(
                RunValue { text: cut_text, styles: run.styles },
            ));
            assert(chars@.len() <= left ==> cut_text =~= run.text@);
            assert(chars@.len() > left ==> cut_text =~= run.text@.take(left as int));
            left = left - count;
        }
        next = next + 1;
    }
    (shown, left)
}

/// Paragraphs by their values.
pub open spec fn values_of(paragraphs: Seq<InputParagraph>) -> Seq<ParagraphValue> {
    paragraphs.map_values(|paragraph: InputParagraph| paragraph@)
}

/// At most so many paragraphs.
pub open spec fn preview_count(total: int) -> int {
    if total < PREVIEW_PARAGRAPHS {
        total
    } else {
        PREVIEW_PARAGRAPHS as int
    }
}

/// The preview of a recent document.
pub fn recent_document_preview_document(paragraphs: &Vec<InputParagraph>) -> (preview: Vec<
    InputParagraph,
>)
    ensures
        values_of(preview@) == preview_of(
            values_of(paragraphs@),
            PREVIEW_CHARS as int,
            preview_count(paragraphs@.len() as int),
        ).0,
{
    let ghost all = values_of(paragraphs@);
    let mut preview: Vec<InputParagraph> = Vec::new();
    let mut left: usize = PREVIEW_CHARS;
    let mut next: usize = 0;
    assert(values_of(preview@) =~= Seq::empty());
    while next < paragraphs.len() && next < PREVIEW_PARAGRAPHS
        invariant
            next <= paragraphs@.len(),
            next <= PREVIEW_PARAGRAPHS,
            all == values_of(paragraphs@),
            values_of(preview@) == preview_of(all, PREVIEW_CHARS as int, next as int).0,
            left == preview_of(all, PREVIEW_CHARS as int, next as int).1,
        decreases paragraphs@.len() - next,
    {
        let paragraph = &paragraphs[next];
        assert(all[next as int] == paragraph@);
        assert(paragraph@.runs == run_values(paragraph.runs@));
        let (runs, rest): (Vec<InputRun>, usize) = cut_runs(&paragraph.runs, left);
        assert(run_values(runs@).len() == runs@.len());
        if runs.len() > 0 {
            let ghost before = preview@;
            let ghost shown = run_values(runs@);
            preview.push(InputParagraph { style: paragraph.style, runs });
            assert(values_of(preview@) =~= values_of(before).push(
                ParagraphValue { style: paragraph.style, runs: shown },
            ));
        }
        left = rest;
        next = next + 1;
    }
    preview
}

} // verus!
