//! What the tub's tree shows and what a search by name finds.

use crate::ordering::{goes_before, places, stable_order, text_order_is_strict};
use crate::text::{byte_len, lowered_ascii, texts, trimmed};
use crate::text_set::TextSet;
use crate::tub::{
    answer_key, answers, dir_text, everything, expanded_tub_search_dirs, filter_tub_files_by_name,
    lemma_answers, lemma_order_exists, name_rank, ranked_answers, TubFile,
};
use vstd::prelude::*;

verus! {

/// One text is part of another.
pub open spec fn is_part_of(part: Seq<char>, text: Seq<char>) -> bool {
    exists|at: int|
        0 <= at <= text.len() - part.len() && #[trigger] text.subrange(at, at + part.len()) == part
}

/// A text is the front of another.
pub open spec fn is_front_of(part: Seq<char>, text: Seq<char>) -> bool {
    part.len() <= text.len() && text.take(part.len() as int) == part
}

/// A file fits a query: its name or its path holds it, whatever the case.
pub open spec fn fits(file: TubFile, asked: Seq<char>) -> bool {
    is_part_of(asked, lowered_ascii(file.file_name@)) || is_part_of(
        asked,
        lowered_ascii(file.display_path@),
    )
}

/// One file fits a query better than another: a name that begins with it comes
/// before one that only holds it, that before one whose path alone holds it,
/// and among those the shorter path first.
pub open spec fn fits_better(file: TubFile, other: TubFile, asked: Seq<char>) -> bool {
    let begins = is_front_of(asked, lowered_ascii(file.file_name@));
    let other_begins = is_front_of(asked, lowered_ascii(other.file_name@));
    let named = is_part_of(asked, lowered_ascii(file.file_name@));
    let other_named = is_part_of(asked, lowered_ascii(other.file_name@));
    let shorter = byte_len(file.display_path@) < byte_len(other.display_path@);
    ||| begins && !other_begins
    ||| named && !other_named
    ||| begins == other_begins && named == other_named && shorter
}

/// The file at a place is among those found.
pub open spec fn was_found(found: Seq<usize>, place: int) -> bool {
    exists|i: int| 0 <= i < found.len() && #[trigger] found[i] == place
}

pub(crate) proof fn lemma_part(text: Seq<char>, part: Seq<char>)
    ensures
        is_part_of(part, text) <==> crate::text::holds_text(text, part),
        is_front_of(part, text) <==> crate::text::begins_with(text, part),
        is_front_of(part, text) ==> is_part_of(part, text),
{
    if is_part_of(part, text) {
        let at = choose|at: int|
            0 <= at <= text.len() - part.len() && #[trigger] text.subrange(at, at + part.len())
                == part;
        assert(crate::text::stands_at(text, part, at));
    }
    if crate::text::holds_text(text, part) {
        let at = choose|at: int| crate::text::stands_at(text, part, at);
        assert(text.subrange(at, at + part.len()) == part);
    }
    assert(part.len() <= text.len() ==> text.take(part.len() as int) =~= text.subrange(
        0,
        part.len() as int,
    ));
}

proof fn lemma_rank(file: TubFile, asked: Seq<char>)
    ensures
        name_rank(file, asked) is Some <==> fits(file, asked),
        name_rank(file, asked) == Some(0int) <==> is_front_of(
            asked,
            lowered_ascii(file.file_name@),
        ),
        name_rank(file, asked) is Some && name_rank(file, asked)->0 <= 1 <==> is_part_of(
            asked,
            lowered_ascii(file.file_name@),
        ),
        name_rank(file, asked) is Some ==> 0 <= name_rank(file, asked)->0 <= 2,
{
    lemma_part(lowered_ascii(file.file_name@), asked);
    lemma_part(lowered_ascii(file.display_path@), asked);
}

proof fn lemma_every_answer(files: Seq<TubFile>, asked: Seq<char>, m: int, k: int)
    requires
        0 <= m < k,
        name_rank(files[m], asked) is Some,
    ensures
        answers(files, asked, k).contains(m),
    decreases k,
{
    if m == k - 1 {
        assert(answers(files, asked, k).last() == m);
    } else {
        lemma_every_answer(files, asked, m, k - 1);
        let before = answers(files, asked, k - 1);
        let i = choose|i: int| 0 <= i < before.len() && before[i] == m;
        assert(answers(files, asked, k)[i] == m);
    }
}

/// A search by name finds the files that hold what is asked, whatever the case
/// and without the white space around it, none twice, the better ones first
/// and never more than the limit; it leaves one out only where the limit is
/// reached, and then none that is better than one it found. With nothing asked
/// it finds the first files.
pub proof fn a_search_finds_the_files_that_hold_it(
    files: Vec<TubFile>,
    query: &str,
    limit: usize,
    found: Vec<usize>,
)
    requires
        call_ensures(filter_tub_files_by_name, (&files, query, limit), found),
    ensures
        found@.len() <= limit,
        forall|i: int| 0 <= i < found@.len() ==> #[trigger] found@[i] < files@.len(),
        forall|i: int, j: int|
            0 <= i < j < found@.len() ==> #[trigger] found@[i] != #[trigger] found@[j],
        lowered_ascii(trimmed(query@)).len() == 0 ==> {
            &&& forall|i: int| 0 <= i < found@.len() ==> #[trigger] found@[i] == i
            &&& found@.len() < limit ==> found@.len() == files@.len()
        },
        lowered_ascii(trimmed(query@)).len() > 0 ==> {
            &&& forall|i: int|
                0 <= i < found@.len() ==> fits(
                    files@[#[trigger] found@[i] as int],
                    lowered_ascii(trimmed(query@)),
                )
            &&& forall|i: int, j: int|
                0 <= i < j < found@.len() ==> !fits_better(
                    files@[#[trigger] found@[j] as int],
                    files@[#[trigger] found@[i] as int],
                    lowered_ascii(trimmed(query@)),
                )
            &&& forall|m: int|
                0 <= m < files@.len() && fits(#[trigger] files@[m], lowered_ascii(trimmed(query@)))
                    && !was_found(found@, m) ==> found@.len() == limit && forall|i: int|
                    0 <= i < found@.len() ==> !fits_better(
                        files@[m],
                        files@[#[trigger] found@[i] as int],
                        lowered_ascii(trimmed(query@)),
                    )
        },
{
    let asked = lowered_ascii(trimmed(query@));
    let all = files@;
    let listed = places(found@);
    assert(listed == crate::tub::found_places(all, query@, limit as int));
    assert(listed.len() == found@.len());
    assert forall|i: int| 0 <= i < found@.len() implies #[trigger] found@[i] == listed[i] by {}
    if asked.len() == 0 {
        assert(everything(all.len()).len() == all.len());
        assert forall|i: int| 0 <= i < found@.len() implies #[trigger] found@[i] == i by {
            assert(listed[i] == everything(all.len())[i]);
        }
    } else {
        let some = answers(all, asked, all.len() as int);
        let keys = some.map_values(|m: int| answer_key(all[m], asked));
        lemma_order_exists(keys);
        let order = stable_order(keys);
        let ranked = ranked_answers(all, asked);
        lemma_answers(all, asked, all.len() as int);
        assert(ranked.len() == order.len());
        assert forall|i: int| 0 <= i < ranked.len() implies 0 <= #[trigger] ranked[i] < all.len()
            && fits(all[ranked[i]], asked) by {
            assert(0 <= order[i] < some.len());
            assert(ranked[i] == some[order[i]]);
            lemma_rank(all[ranked[i]], asked);
        }
        assert forall|i: int, j: int| 0 <= i < j < ranked.len() implies #[trigger] ranked[i]
            != #[trigger] ranked[j] && !fits_better(all[ranked[j]], all[ranked[i]], asked) by {
            assert(0 <= order[i] < some.len());
            assert(0 <= order[j] < some.len());
            assert(goes_before(keys, order[i], order[j]));
            text_order_is_strict(keys[order[i]].2, keys[order[j]].2);
            lemma_rank(all[ranked[i]], asked);
            lemma_rank(all[ranked[j]], asked);
            assert(keys[order[i]] == answer_key(all[ranked[i]], asked));
            assert(keys[order[j]] == answer_key(all[ranked[j]], asked));
            if order[i] < order[j] {
                assert(some[order[i]] < some[order[j]]);
            } else if order[j] < order[i] {
                assert(some[order[j]] < some[order[i]]);
            }
        }
        assert forall|i: int| 0 <= i < found@.len() implies #[trigger] found@[i] == ranked[i] by {
            assert(found@[i] == listed[i]);
            assert(listed[i] == ranked[i]);
        }
        assert forall|m: int|
            0 <= m < all.len() && fits(#[trigger] all[m], asked) && !was_found(
                found@,
                m,
            ) implies found@.len() == limit && forall|i: int|
            0 <= i < found@.len() ==> !fits_better(
                all[m],
                all[#[trigger] found@[i] as int],
                asked,
            ) by {
            lemma_rank(all[m], asked);
            lemma_every_answer(all, asked, m, all.len() as int);
            let p = choose|p: int| 0 <= p < some.len() && some[p] == m;
            assert(order.contains(p));
            let q = choose|q: int| 0 <= q < order.len() && order[q] == p;
            assert(ranked[q] == m);
            if q < found@.len() {
                assert(found@[q] == m);
            }
            assert forall|i: int| 0 <= i < found@.len() implies !fits_better(
                all[m],
                all[#[trigger] found@[i] as int],
                asked,
            ) by {
                assert(found@[i] == ranked[i]);
            }
        }
    }
}

/// A search opens the root and every directory above a file it found, and no
/// other.
pub proof fn a_search_opens_the_way_to_what_it_found(
    root: &str,
    files: Vec<TubFile>,
    members: Vec<usize>,
    dirs: TextSet,
)
    requires
        call_ensures(expanded_tub_search_dirs, (root, &files, &members), dirs),
        forall|i: int| 0 <= i < members@.len() ==> #[trigger] members@[i] < files@.len(),
    ensures
        dirs@.contains(root@),
        forall|i: int, k: int|
            0 <= i < members@.len() && 0 < k <= files@[members@[i] as int].parent@.len()
                ==> dirs@.contains(
                dir_text(
                    root@,
                    #[trigger] texts(files@[#[trigger] members@[i] as int].parent@).take(k),
                ),
            ),
        forall|dir: Seq<char>| #[trigger]
            dirs@.contains(dir) && dir != root@ ==> exists|i: int, k: int|
                0 <= i < members@.len() && 0 < k <= files@[members@[i] as int].parent@.len() && dir
                    == dir_text(
                    root@,
                    #[trigger] texts(files@[#[trigger] members@[i] as int].parent@).take(k),
                ),
{
    let all = places(members@);
    assert forall|i: int, k: int|
        0 <= i < members@.len() && 0 < k <= files@[members@[i] as int].parent@.len() implies dirs@.contains(
        dir_text(
            root@,
            #[trigger] texts(files@[#[trigger] members@[i] as int].parent@).take(k),
        ),
    ) by {
        assert(all[i] == members@[i]);
        assert(dir_text(root@, texts(files@[all[i]].parent@).take(k)) == dir_text(
            root@,
            texts(files@[members@[i] as int].parent@).take(k),
        ));
    }
    assert forall|dir: Seq<char>| #[trigger]
        dirs@.contains(dir) && dir != root@ implies exists|i: int, k: int|
        0 <= i < members@.len() && 0 < k <= files@[members@[i] as int].parent@.len() && dir
            == dir_text(
            root@,
            #[trigger] texts(files@[#[trigger] members@[i] as int].parent@).take(k),
        ) by {
        let (i, k) = choose|i: int, k: int|
            0 <= i < all.len() && 0 <= k <= files@[all[i]].parent@.len() && dir == dir_text(
                root@,
                #[trigger] texts(files@[#[trigger] all[i]].parent@).take(k),
            );
        assert(all[i] == members@[i]);
        assert(dir == dir_text(root@, texts(files@[members@[i] as int].parent@).take(k)));
    }
}

} // verus!
