//! What a search in a document's text finds, and on which line.

use crate::document_search::{
    every_occurrence_begins_in_a_reported_range, find_literal_ranges, lemma_line_of_byte,
    lemma_line_starts_shape, line_starts_of, literal_ranges, offsets_of,
    reported_ranges_hold_the_needle_and_are_disjoint, DocumentSearchMatch, DocumentSearchSnapshot,
};
use vstd::prelude::*;
use vstd::utf8::encode_utf8;

verus! {

/// A text's bytes read the same as another's from a place on.
pub open spec fn reads_at(bytes: Seq<u8>, part: Seq<u8>, at: int) -> bool {
    0 <= at && at + part.len() <= bytes.len() && forall|i: int|
        0 <= i < part.len() ==> #[trigger] bytes[at + i] == part[i]
}

/// Every range that is found covers exactly the needle, the ranges come in the
/// order of the text and none overlaps another, and wherever the needle stands
/// it begins in one of them; an empty needle finds nothing.
pub proof fn a_search_finds_the_needle(
    haystack: &str,
    needle: &str,
    found: Vec<DocumentSearchMatch>,
)
    requires
        call_ensures(find_literal_ranges, (haystack, needle), found),
        encode_utf8(haystack@).len() <= usize::MAX,
    ensures
        encode_utf8(needle@).len() == 0 ==> found@.len() == 0,
        forall|k: int|
            0 <= k < found@.len() ==> reads_at(
                encode_utf8(haystack@),
                encode_utf8(needle@),
                (#[trigger] found@[k]).start as int,
            ) && found@[k].end == found@[k].start + encode_utf8(needle@).len(),
        forall|k: int, l: int|
            0 <= k < l < found@.len() ==> (#[trigger] found@[k]).end <= (
            #[trigger] found@[l]).start,
        forall|at: int|
            encode_utf8(needle@).len() > 0 && #[trigger] reads_at(
                encode_utf8(haystack@),
                encode_utf8(needle@),
                at,
            ) ==> exists|k: int|
                0 <= k < found@.len() && (#[trigger] found@[k]).start <= at < found@[k].end,
{
    let bytes = encode_utf8(haystack@);
    let part = encode_utf8(needle@);
    assert(found@ == literal_ranges(bytes, part));
    reported_ranges_hold_the_needle_and_are_disjoint(bytes, part);
    assert forall|k: int| 0 <= k < found@.len() implies reads_at(
        bytes,
        part,
        (#[trigger] found@[k]).start as int,
    ) && found@[k].end == found@[k].start + part.len() by {
        let at = found@[k].start as int;
        let cut = bytes.subrange(at, at + part.len());
        assert(cut == part);
        assert forall|i: int| 0 <= i < part.len() implies #[trigger] bytes[at + i] == part[i] by {
            assert(cut[i] == bytes[at + i]);
        }
    }
    assert forall|at: int|
        part.len() > 0 && #[trigger] reads_at(bytes, part, at) implies exists|k: int|
        0 <= k < found@.len() && (#[trigger] found@[k]).start <= at < found@[k].end by {
        let cut = bytes.subrange(at, at + part.len());
        assert forall|i: int| 0 <= i < part.len() implies cut[i] == part[i] by {
            assert(bytes[at + i] == part[i]);
        }
        assert(cut =~= part);
        every_occurrence_begins_in_a_reported_range(bytes, part, at);
        let k = choose|k: int|
            0 <= k < literal_ranges(bytes, part).len() && #[trigger] literal_ranges(
                bytes,
                part,
            )[k].start <= at < literal_ranges(bytes, part)[k].end;
        assert(found@[k].start <= at < found@[k].end);
    }
}

/// A line begins at a place: the text's front, or behind a line feed.
pub open spec fn line_begins(bytes: Seq<u8>, at: int) -> bool {
    at == 0 || (0 < at <= bytes.len() && bytes[at - 1] == 10u8)
}

proof fn lemma_line_begins(bytes: Seq<u8>, at: int)
    ensures
        line_starts_of(bytes).contains(at) <==> line_begins(bytes, at),
    decreases bytes.len(),
{
    let starts = line_starts_of(bytes);
    if bytes.len() == 0 {
        assert(starts[0] == 0);
    } else {
        let front = bytes.drop_last();
        lemma_line_begins(front, at);
        let fewer = line_starts_of(front);
        let n = bytes.len() as int;
        if 0 < at < n {
            assert(front[at - 1] == bytes[at - 1]);
        }
        if bytes.last() == 10u8 {
            assert(starts == fewer.push(n));
            if fewer.contains(at) {
                let i = choose|i: int| 0 <= i < fewer.len() && fewer[i] == at;
                assert(starts[i] == at);
            }
            if at == n {
                assert(starts[fewer.len() as int] == n);
            }
            if starts.contains(at) {
                let i = choose|i: int| 0 <= i < starts.len() && starts[i] == at;
                if i < fewer.len() {
                    assert(fewer[i] == at);
                }
            }
        }
    }
}

/// A line begins at the text's front and behind every line feed, and nowhere
/// else, in order; and a byte is on the line that begins last before it.
pub proof fn a_byte_is_on_the_line_that_begins_before_it(
    snapshot: DocumentSearchSnapshot,
    starts: &[usize],
    byte_index: usize,
    line: usize,
    k: int,
)
    requires
        call_ensures(DocumentSearchSnapshot::line_starts, (&snapshot,), starts),
        call_ensures(DocumentSearchSnapshot::line_for_byte, (&snapshot, byte_index), line),
        0 <= k < starts@.len(),
        starts@[k] <= byte_index,
        k + 1 < starts@.len() ==> byte_index < starts@[k + 1],
    ensures
        line == k,
        starts@[0] == 0,
        forall|i: int, j: int|
            0 <= i < j < starts@.len() ==> #[trigger] starts@[i] < #[trigger] starts@[j],
        forall|at: int|
            #[trigger] line_begins(snapshot.bytes(), at) <==> exists|i: int|
                0 <= i < starts@.len() && #[trigger] starts@[i] == at,
{
    let bytes = snapshot.bytes();
    let all = line_starts_of(bytes);
    let offsets = offsets_of(starts@);
    assert(offsets == all);
    assert(offsets.len() == starts@.len());
    assert forall|i: int| 0 <= i < starts@.len() implies #[trigger] starts@[i] == all[i] by {
        assert(offsets[i] == starts@[i]);
    }
    lemma_line_starts_shape(bytes);
    assert(starts@[k] == all[k]);
    if k + 1 < starts@.len() {
        assert(starts@[k + 1] == all[k + 1]);
    }
    lemma_line_of_byte(bytes, byte_index as int, k);
    assert forall|i: int, j: int| 0 <= i < j < starts@.len() implies #[trigger] starts@[i]
        < #[trigger] starts@[j] by {
        assert(all[i] < all[j]);
    }
    assert forall|at: int| #[trigger]
        line_begins(bytes, at) <==> exists|i: int|
            0 <= i < starts@.len() && #[trigger] starts@[i] == at by {
        lemma_line_begins(bytes, at);
        if line_begins(bytes, at) {
            let i = choose|i: int| 0 <= i < all.len() && all[i] == at;
            assert(starts@[i] == at);
        }
        if exists|i: int| 0 <= i < starts@.len() && #[trigger] starts@[i] == at {
            let i = choose|i: int| 0 <= i < starts@.len() && #[trigger] starts@[i] == at;
            assert(all[i] == at);
            assert(all.contains(at));
        }
    }
}

} // verus!
