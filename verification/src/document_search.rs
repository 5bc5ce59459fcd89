//! Literal search over an immutable copy of a document's text.

use memchr::memmem::Finder;
use vstd::prelude::*;

verus! {

/// A half-open byte range of the searched text.
#[derive(Clone, Copy, Debug, PartialEq, Eq, Structural)]
pub struct DocumentSearchMatch {
    pub start: usize,
    pub end: usize,
}

impl DocumentSearchMatch {
    /// Bytes covered; zero for a reversed range.
    #[must_use]
    pub fn len(self) -> (n: usize)
        ensures
            n == (if self.start <= self.end { self.end - self.start } else { 0 }),
    {
        self.end.saturating_sub(self.start)
    }

    #[must_use]
    pub fn is_empty(self) -> (b: bool)
        ensures
            b == (self.end <= self.start),
    {
        self.end <= self.start
    }
}

/// The needle stands in the haystack at byte `at`.
pub open spec fn occurs_at(haystack: Seq<u8>, needle: Seq<u8>, at: int) -> bool {
    &&& 0 <= at
    &&& at + needle.len() <= haystack.len()
    &&& haystack.subrange(at, at + needle.len()) == needle
}

/// Starts of the matches found by scanning left to right from `from`, taking
/// the first occurrence each time and resuming behind it.
pub open spec fn matches_from(haystack: Seq<u8>, needle: Seq<u8>, from: int) -> Seq<int>
    decreases haystack.len() - from,
{
    if needle.len() == 0 || from < 0 || from + needle.len() > haystack.len() {
        Seq::empty()
    } else if occurs_at(haystack, needle, from) {
        seq![from] + matches_from(haystack, needle, from + needle.len())
    } else {
        matches_from(haystack, needle, from + 1)
    }
}

/// The search results for a needle: none for an empty one, else one range per
/// match of the left-to-right scan.
pub open spec fn literal_ranges(haystack: Seq<u8>, needle: Seq<u8>) -> Seq<DocumentSearchMatch> {
    matches_from(haystack, needle, 0).map_values(
        |at: int| DocumentSearchMatch { start: at as usize, end: (at + needle.len()) as usize },
    )
}

/// Machine offsets read as integers.
pub open spec fn offsets_of(offsets: Seq<usize>) -> Seq<int> {
    offsets.map_values(|at: usize| at as int)
}

/// Byte offsets at which a line begins: zero, and behind every newline.
pub open spec fn line_starts_of(bytes: Seq<u8>) -> Seq<int>
    decreases bytes.len(),
{
    if bytes.len() == 0 {
        seq![0]
    } else if bytes.last() == 10u8 {
        line_starts_of(bytes.drop_last()).push(bytes.len() as int)
    } else {
        line_starts_of(bytes.drop_last())
    }
}

/// Newlines before byte `index`: the zero-based line that holds it.
pub open spec fn newlines_before(bytes: Seq<u8>, index: int) -> int
    decreases index,
{
    if index <= 0 {
        0
    } else {
        newlines_before(bytes, index - 1) + (if index <= bytes.len() && bytes[index - 1] == 10u8 {
            1int
        } else {
            0
        })
    }
}

/// `memchr::memmem::Finder::new` and `Finder::find_iter`: the iterator yields
/// the byte offset of the first occurrence of the needle and resumes behind
/// each match, so the offsets are those of the left-to-right scan.
#[verifier::external_body]
fn finder_offsets(haystack: &[u8], needle: &[u8]) -> (offsets: Vec<usize>)
    requires
        needle@.len() > 0,
    ensures
        offsets_of(offsets@) == matches_from(haystack@, needle@, 0),
{
    Finder::new(needle).find_iter(haystack).collect()
}

proof fn lemma_matches_from_bounds(haystack: Seq<u8>, needle: Seq<u8>, from: int)
    requires
        0 <= from,
        needle.len() > 0,
    ensures
        forall|k: int|
            0 <= k < matches_from(haystack, needle, from).len() ==> from <= #[trigger] matches_from(
                haystack,
                needle,
                from,
            )[k] && occurs_at(haystack, needle, matches_from(haystack, needle, from)[k]),
        forall|k: int, l: int|
            0 <= k < l < matches_from(haystack, needle, from).len() ==> #[trigger] matches_from(
                haystack,
                needle,
                from,
            )[k] + needle.len() <= #[trigger] matches_from(haystack, needle, from)[l],
    decreases haystack.len() - from,
{
    if from + needle.len() > haystack.len() {
    } else if occurs_at(haystack, needle, from) {
        lemma_matches_from_bounds(haystack, needle, from + needle.len());
        let rest = matches_from(haystack, needle, from + needle.len());
        let all = matches_from(haystack, needle, from);
        assert(all =~= seq![from] + rest);
        assert forall|k: int| 0 <= k < all.len() implies from <= #[trigger] all[k] && occurs_at(
            haystack,
            needle,
            all[k],
        ) by {
            if k > 0 {
                assert(all[k] == rest[k - 1]);
            }
        }
        assert forall|k: int, l: int| 0 <= k < l < all.len() implies #[trigger] all[k]
            + needle.len() <= #[trigger] all[l] by {
            assert(all[l] == rest[l - 1]);
            if k > 0 {
                assert(all[k] == rest[k - 1]);
            }
        }
    } else {
        lemma_matches_from_bounds(haystack, needle, from + 1);
        let rest = matches_from(haystack, needle, from + 1);
        let all = matches_from(haystack, needle, from);
        assert(all == rest);
        assert forall|k: int| 0 <= k < all.len() implies from <= #[trigger] all[k] && occurs_at(
            haystack,
            needle,
            all[k],
        ) by {
            assert(rest[k] >= from + 1);
        }
    }
}

proof fn lemma_matches_from_covers(haystack: Seq<u8>, needle: Seq<u8>, from: int, at: int)
    requires
        0 <= from <= at,
        needle.len() > 0,
        occurs_at(haystack, needle, at),
    ensures
        exists|k: int|
            0 <= k < matches_from(haystack, needle, from).len() && #[trigger] matches_from(
                haystack,
                needle,
                from,
            )[k] <= at < matches_from(haystack, needle, from)[k] + needle.len(),
    decreases haystack.len() - from,
{
    let all = matches_from(haystack, needle, from);
    if occurs_at(haystack, needle, from) {
        if at < from + needle.len() {
            assert(all[0] == from);
        } else {
            let rest = matches_from(haystack, needle, from + needle.len());
            lemma_matches_from_covers(haystack, needle, from + needle.len(), at);
            let k = choose|k: int|
                0 <= k < rest.len() && #[trigger] rest[k] <= at < rest[k] + needle.len();
            assert(all[k + 1] == rest[k]);
        }
    } else {
        lemma_matches_from_covers(haystack, needle, from + 1, at);
    }
}

/// Every reported range holds the needle, no two reported ranges overlap and
/// they come in text order.
pub proof fn reported_ranges_hold_the_needle_and_are_disjoint(haystack: Seq<u8>, needle: Seq<u8>)
    requires
        haystack.len() <= usize::MAX,
    ensures
        forall|k: int|
            0 <= k < literal_ranges(haystack, needle).len() ==> {
                let range = #[trigger] literal_ranges(haystack, needle)[k];
                occurs_at(haystack, needle, range.start as int) && range.end == range.start
                    + needle.len()
            },
        forall|k: int, l: int|
            0 <= k < l < literal_ranges(haystack, needle).len() ==> #[trigger] literal_ranges(
                haystack,
                needle,
            )[k].end <= #[trigger] literal_ranges(haystack, needle)[l].start,
{
    if needle.len() > 0 {
        lemma_matches_from_bounds(haystack, needle, 0);
        let starts = matches_from(haystack, needle, 0);
        let ranges = literal_ranges(haystack, needle);
        assert forall|k: int| 0 <= k < ranges.len() implies {
            let range = #[trigger] ranges[k];
            occurs_at(haystack, needle, range.start as int) && range.end == range.start
                + needle.len()
        } by {
            assert(occurs_at(haystack, needle, starts[k]));
        }
        assert forall|k: int, l: int| 0 <= k < l < ranges.len() implies #[trigger] ranges[k].end
            <= #[trigger] ranges[l].start by {
            assert(occurs_at(haystack, needle, starts[k]));
            assert(occurs_at(haystack, needle, starts[l]));
            assert(starts[k] + needle.len() <= starts[l]);
        }
    } else {
        assert(matches_from(haystack, needle, 0) =~= Seq::empty());
    }
}

/// No occurrence is missed: each one begins inside a reported range.
pub proof fn every_occurrence_begins_in_a_reported_range(
    haystack: Seq<u8>,
    needle: Seq<u8>,
    at: int,
)
    requires
        haystack.len() <= usize::MAX,
        needle.len() > 0,
        occurs_at(haystack, needle, at),
    ensures
        exists|k: int|
            0 <= k < literal_ranges(haystack, needle).len() && #[trigger] literal_ranges(
                haystack,
                needle,
            )[k].start <= at < literal_ranges(haystack, needle)[k].end,
{
    lemma_matches_from_bounds(haystack, needle, 0);
    lemma_matches_from_covers(haystack, needle, 0, at);
    let starts = matches_from(haystack, needle, 0);
    let ranges = literal_ranges(haystack, needle);
    let k = choose|k: int|
        0 <= k < starts.len() && #[trigger] starts[k] <= at < starts[k] + needle.len();
    assert(occurs_at(haystack, needle, starts[k]));
    assert(ranges[k].start <= at < ranges[k].end);
}

pub(crate) proof fn lemma_line_starts_shape(bytes: Seq<u8>)
    ensures
        line_starts_of(bytes).len() >= 1,
        line_starts_of(bytes)[0] == 0,
        line_starts_of(bytes).last() <= bytes.len(),
        line_starts_of(bytes).len() == newlines_before(bytes, bytes.len() as int) + 1,
        forall|k: int, l: int|
            0 <= k < l < line_starts_of(bytes).len() ==> #[trigger] line_starts_of(bytes)[k]
                < #[trigger] line_starts_of(bytes)[l],
    decreases bytes.len(),
{
    if bytes.len() > 0 {
        let shorter = bytes.drop_last();
        lemma_line_starts_shape(shorter);
        lemma_newlines_prefix(bytes, shorter, shorter.len() as int);
    }
}

proof fn lemma_newlines_prefix(bytes: Seq<u8>, prefix: Seq<u8>, index: int)
    requires
        prefix == bytes.drop_last(),
        bytes.len() > 0,
        index <= prefix.len(),
    ensures
        newlines_before(bytes, index) == newlines_before(prefix, index),
    decreases index,
{
    if index > 0 {
        lemma_newlines_prefix(bytes, prefix, index - 1);
    }
}

proof fn lemma_newlines_past_end(bytes: Seq<u8>, index: int)
    requires
        index >= bytes.len(),
    ensures
        newlines_before(bytes, index) == newlines_before(bytes, bytes.len() as int),
    decreases index - bytes.len(),
{
    if index > bytes.len() {
        lemma_newlines_past_end(bytes, index - 1);
    }
}

/// The line that begins at `line_starts[k]` holds a byte exactly when that
/// start is at or before it and no later start is.
pub(crate) proof fn lemma_line_of_byte(bytes: Seq<u8>, index: int, k: int)
    requires
        0 <= index,
        0 <= k < line_starts_of(bytes).len(),
        line_starts_of(bytes)[k] <= index,
        k + 1 < line_starts_of(bytes).len() ==> index < line_starts_of(bytes)[k + 1],
    ensures
        newlines_before(bytes, index) == k,
    decreases bytes.len(),
{
    lemma_line_starts_shape(bytes);
    let starts = line_starts_of(bytes);
    if bytes.len() == 0 {
        lemma_newlines_past_end(bytes, index);
    } else if index >= bytes.len() {
        lemma_newlines_past_end(bytes, index);
        if k + 1 < starts.len() {
            assert(starts[k + 1] <= starts.last());
        }
    } else {
        let shorter = bytes.drop_last();
        lemma_line_starts_shape(shorter);
        let fewer = line_starts_of(shorter);
        lemma_newlines_prefix(bytes, shorter, index);
        if bytes.last() == 10u8 {
            assert(starts == fewer.push(bytes.len() as int));
            assert(k < fewer.len());
        }
        lemma_line_of_byte(shorter, index, k);
    }
}

/// A document's text with the byte offset of each of its lines.
#[derive(Debug, PartialEq, Eq)]
pub struct DocumentSearchSnapshot {
    text: String,
    line_starts: Vec<usize>,
}

impl Clone for DocumentSearchSnapshot {
    fn clone(&self) -> (copy: Self)
        ensures
            copy.content() == self.content(),
    {
        proof {
            use_type_invariant(self);
        }
        let line_starts = self.line_starts.clone();
        assert(line_starts@ =~= self.line_starts@);
        DocumentSearchSnapshot { text: self.text.clone(), line_starts }
    }
}

impl DocumentSearchSnapshot {
    /// The searched text.
    pub closed spec fn content(&self) -> Seq<char> {
        self.text@
    }

    /// The searched text as bytes.
    pub open spec fn bytes(&self) -> Seq<u8> {
        vstd::utf8::encode_utf8(self.content())
    }

    #[verifier::type_invariant]
    spec fn indexed(&self) -> bool {
        offsets_of(self.line_starts@) == line_starts_of(
            vstd::utf8::encode_utf8(self.text@),
        )
    }

    #[must_use]
    pub fn new(text: String) -> (snapshot: Self)
        ensures
            snapshot.content() == text@,
    {
        let mut line_starts: Vec<usize> = Vec::new();
        line_starts.push(0);
        let bytes = text.as_str().as_bytes();
        let mut byte_index: usize = 0;
        proof {
            assert(offsets_of(line_starts@) =~= line_starts_of(
                bytes@.take(0),
            ));
        }
        while byte_index < bytes.len()
            invariant
                bytes@ == vstd::utf8::encode_utf8(text@),
                byte_index <= bytes@.len(),
                offsets_of(line_starts@) == line_starts_of(
                    bytes@.take(byte_index as int),
                ),
            decreases bytes@.len() - byte_index,
        {
            let ghost before = line_starts@;
            if bytes[byte_index] == 10u8 {
                line_starts.push(byte_index + 1);
            }
            proof {
                let next = bytes@.take(byte_index + 1);
                assert(next.drop_last() =~= bytes@.take(byte_index as int));
                assert(next.last() == bytes@[byte_index as int]);
                assert(offsets_of(line_starts@) =~= line_starts_of(next));
            }
            byte_index = byte_index + 1;
        }
        proof {
            assert(bytes@.take(byte_index as int) =~= bytes@);
        }
        DocumentSearchSnapshot { text, line_starts }
    }

    #[must_use]
    pub fn text(&self) -> (text: &str)
        ensures
            text@ == self.content(),
    {
        self.text.as_str()
    }

    #[must_use]
    pub fn line_starts(&self) -> (starts: &[usize])
        ensures
            offsets_of(starts@) == line_starts_of(self.bytes()),
    {
        proof {
            use_type_invariant(self);
        }
        self.line_starts.as_slice()
    }

    #[must_use]
    pub fn find_literal(&self, needle: &str) -> (found: Vec<DocumentSearchMatch>)
        ensures
            found@ == literal_ranges(self.bytes(), vstd::utf8::encode_utf8(needle@)),
    {
        find_literal_ranges(self.text.as_str(), needle)
    }

    /// The zero-based line that holds a byte offset; offsets past the end
    /// belong to the last line.
    #[must_use]
    pub fn line_for_byte(&self, byte_index: usize) -> (line: usize)
        ensures
            line == newlines_before(self.bytes(), byte_index as int),
    {
        proof {
            use_type_invariant(self);
            lemma_line_starts_shape(self.bytes());
        }
        let ghost starts = line_starts_of(self.bytes());
        let mut low: usize = 0;
        let mut high: usize = self.line_starts.len();
        assert(starts.len() == self.line_starts@.len());
        assert(starts[0] == self.line_starts@[0]);
        while low < high
            invariant
                starts == line_starts_of(self.bytes()),
                starts == offsets_of(self.line_starts@),
                starts.len() >= 1,
                starts[0] == 0,
                forall|k: int, l: int|
                    0 <= k < l < starts.len() ==> #[trigger] starts[k] < #[trigger] starts[l],
                low <= high <= starts.len(),
                forall|k: int| 0 <= k < low ==> #[trigger] starts[k] <= byte_index,
                forall|k: int| high <= k < starts.len() ==> #[trigger] starts[k] > byte_index,
            decreases high - low,
        {
            let middle: usize = low + (high - low) / 2;
            assert(starts[middle as int] == self.line_starts@[middle as int]);
            if self.line_starts[middle] <= byte_index {
                low = middle + 1;
            } else {
                high = middle;
            }
        }
        proof {
            if low == 0 {
                assert(starts[0] > byte_index);
            }
            lemma_line_of_byte(self.bytes(), byte_index as int, low - 1);
        }
        low.saturating_sub(1)
    }
}

/// Byte ranges of the needle's matches, none for an empty needle.
#[must_use]
pub fn find_literal_ranges(haystack: &str, needle: &str) -> (found: Vec<DocumentSearchMatch>)
    ensures
        found@ == literal_ranges(
            vstd::utf8::encode_utf8(haystack@),
            vstd::utf8::encode_utf8(needle@),
        ),
{
    let ghost needle_bytes = vstd::utf8::encode_utf8(needle@);
    let haystack_bytes = haystack.as_bytes();
    let bytes = needle.as_bytes();
    let mut found: Vec<DocumentSearchMatch> = Vec::new();
    if bytes.len() == 0 {
        assert(found@ =~= literal_ranges(haystack_bytes@, needle_bytes));
        return found;
    }
    let limit: usize = haystack_bytes.len();
    let offsets = finder_offsets(haystack_bytes, bytes);
    let ghost starts = matches_from(haystack_bytes@, needle_bytes, 0);
    proof {
        lemma_matches_from_bounds(haystack_bytes@, needle_bytes, 0);
        assert(starts.len() == offsets@.len());
    }
    let mut next: usize = 0;
    while next < offsets.len()
        invariant
            next <= offsets@.len(),
            bytes@ == needle_bytes,
            haystack_bytes@.len() == limit,
            starts == matches_from(haystack_bytes@, needle_bytes, 0),
            starts == offsets_of(offsets@),
            forall|k: int|
                0 <= k < starts.len() ==> occurs_at(
                    haystack_bytes@,
                    needle_bytes,
                    #[trigger] starts[k],
                ),
            found@.len() == next,
            forall|k: int|
                0 <= k < next ==> #[trigger] found@[k] == literal_ranges(
                    haystack_bytes@,
                    needle_bytes,
                )[k],
        decreases offsets@.len() - next,
    {
        let start: usize = offsets[next];
        assert(starts[next as int] == start);
        let end: usize = start + bytes.len();
        found.push(DocumentSearchMatch { start, end });
        next = next + 1;
    }
    assert(found@ =~= literal_ranges(haystack_bytes@, needle_bytes));
    found
}

} // verus!
