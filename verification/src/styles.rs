//! The styles a document's paragraphs and runs carry.

use vstd::prelude::*;

verus! {

#[derive(Clone, Copy, Debug, PartialEq, Eq, Structural)]
pub enum ParagraphStyle {
    Normal,
    Pocket,
    Hat,
    Block,
    Tag,
    Analytic,
    Undertag,
    /// A style of the document's own, by its slot.
    Other(u8),
}

#[derive(Clone, Copy, Debug, PartialEq, Eq, Structural)]
pub enum HighlightStyle {
    Spoken,
    Insert,
    Alternative,
    Marked,
    Other(u8),
}

#[derive(Clone, Copy, Debug, PartialEq, Eq, Structural)]
pub enum RunSemanticStyle {
    Plain,
    Cite,
    Emphasis,
    Underline,
    Condensed,
    Ultracondensed,
    Other(u8),
}

/// What a run of text wears.
#[derive(Clone, Copy, Debug, PartialEq, Eq, Structural)]
pub struct RunStyles {
    pub semantic: RunSemanticStyle,
    pub highlight: Option<HighlightStyle>,
    pub direct_underline: bool,
    pub strikethrough: bool,
}

/// A run of a paragraph: its length in bytes and its styles.
#[derive(Clone, Copy, Debug, PartialEq, Eq, Structural)]
pub struct TextRun {
    pub len: usize,
    pub styles: RunStyles,
}

/// Bytes that the runs take together.
pub open spec fn runs_len(runs: Seq<TextRun>) -> int
    decreases runs.len(),
{
    if runs.len() == 0 {
        0
    } else {
        runs_len(runs.drop_last()) + runs.last().len
    }
}

/// Runs before an index take no more bytes than all runs.
pub proof fn lemma_runs_len_front(runs: Seq<TextRun>, k: int)
    requires
        0 <= k <= runs.len(),
    ensures
        0 <= runs_len(runs.take(k)) <= runs_len(runs),
    decreases runs.len(),
{
    if k == runs.len() {
        assert(runs.take(k) =~= runs);
        if runs.len() > 0 {
            lemma_runs_len_front(runs.drop_last(), runs.len() - 1);
            assert(runs.drop_last().take(runs.len() - 1) =~= runs.drop_last());
        }
    } else {
        lemma_runs_len_front(runs.drop_last(), k);
        assert(runs.drop_last().take(k) =~= runs.take(k));
    }
}

} // verus!
