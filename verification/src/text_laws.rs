//! What cutting, joining and comparing texts keeps.

use crate::text::{
    ascii_lowered, byte_len, contains_text, eq_ignoring_ascii_case, front_of,
    front_within, is_space, join_texts, joined_with, lemma_byte_len_concat,
    lemma_byte_len_push, starts_with_text, stands_at, texts, trim, trim_back, trim_end, trim_front,
};
use vstd::prelude::*;

verus! {

/// Every character of a text is white space.
pub open spec fn is_blank(text: Seq<char>) -> bool {
    forall|i: int| 0 <= i < text.len() ==> is_space(#[trigger] text[i])
}

pub(crate) proof fn lemma_trim_front(text: Seq<char>) -> (cut: Seq<char>)
    ensures
        text == cut + trim_front(text),
        is_blank(cut),
        trim_front(text).len() > 0 ==> !is_space(trim_front(text)[0]),
    decreases text.len(),
{
    if text.len() > 0 && is_space(text[0]) {
        let rest = lemma_trim_front(text.skip(1));
        let cut = seq![text[0]] + rest;
        assert(text =~= seq![text[0]] + text.skip(1));
        assert(text =~= cut + trim_front(text));
        assert forall|i: int| 0 <= i < cut.len() implies is_space(#[trigger] cut[i]) by {
            if i > 0 {
                assert(cut[i] == rest[i - 1]);
            }
        }
        cut
    } else {
        assert(text =~= Seq::<char>::empty() + text);
        Seq::empty()
    }
}

pub(crate) proof fn lemma_trim_back(text: Seq<char>) -> (cut: Seq<char>)
    ensures
        text == trim_back(text) + cut,
        is_blank(cut),
        trim_back(text).len() > 0 ==> !is_space(trim_back(text).last()),
    decreases text.len(),
{
    if text.len() > 0 && is_space(text.last()) {
        let rest = lemma_trim_back(text.drop_last());
        let cut = rest.push(text.last());
        assert(text =~= text.drop_last().push(text.last()));
        assert(text =~= trim_back(text) + cut);
        assert forall|i: int| 0 <= i < cut.len() implies is_space(#[trigger] cut[i]) by {
            if i < rest.len() {
                assert(cut[i] == rest[i]);
            }
        }
        cut
    } else {
        assert(text =~= text + Seq::<char>::empty());
        Seq::empty()
    }
}

/// Trimming takes white space off both ends and nothing else, and leaves none
/// at either end. What was cut off in front and behind is handed out.
pub proof fn trimming_takes_white_space_off_the_ends(text: &str, inner: String) -> (cut: (
    Seq<char>,
    Seq<char>,
))
    requires
        call_ensures(trim, (text,), inner),
    ensures
        text@ == cut.0 + inner@ + cut.1,
        is_blank(cut.0),
        is_blank(cut.1),
        inner@.len() > 0 ==> !is_space(inner@[0]) && !is_space(inner@.last()),
{
    let front = lemma_trim_front(text@);
    let back = lemma_trim_back(trim_front(text@));
    assert(text@ =~= front + inner@ + back);
    if inner@.len() > 0 {
        assert(trim_front(text@)[0] == inner@[0]);
    }
    (front, back)
}

/// Trimming the end takes white space off it and nothing else.
pub proof fn trimming_the_end_keeps_the_front(text: &str, front: String) -> (cut: Seq<char>)
    requires
        call_ensures(trim_end, (text,), front),
    ensures
        text@ == front@ + cut,
        is_blank(cut),
        front@.len() > 0 ==> !is_space(front@.last()),
{
    lemma_trim_back(text@)
}

/// A text holds another exactly where it is that one with something before and
/// something behind it.
pub proof fn what_is_held_stands_between(text: &str, part: &str, b: bool)
    requires
        call_ensures(contains_text, (text, part), b),
    ensures
        b ==> exists|before: Seq<char>, behind: Seq<char>|
            text@ == #[trigger] (before + part@ + behind),
        forall|before: Seq<char>, behind: Seq<char>|
            text@ == #[trigger] (before + part@ + behind) ==> b,
{
    if b {
        let at = choose|at: int| stands_at(text@, part@, at);
        let before = text@.take(at);
        let behind = text@.skip(at + part@.len());
        assert(text@ =~= before + part@ + behind);
    }
    assert forall|before: Seq<char>, behind: Seq<char>|
        text@ == #[trigger] (before + part@ + behind) implies b by {
        let at = before.len() as int;
        assert(text@.subrange(at, at + part@.len()) =~= part@);
        assert(stands_at(text@, part@, at));
    }
}

/// A text begins with another exactly where it is that one with something
/// behind it.
pub proof fn what_begins_stands_in_front(text: &str, part: &str, b: bool)
    requires
        call_ensures(starts_with_text, (text, part), b),
    ensures
        b ==> exists|behind: Seq<char>| text@ == #[trigger] (part@ + behind),
        forall|behind: Seq<char>| text@ == #[trigger] (part@ + behind) ==> b,
{
    if b {
        let behind = text@.skip(part@.len() as int);
        assert(text@ =~= part@ + behind);
    }
    assert forall|behind: Seq<char>| text@ == #[trigger] (part@ + behind) implies b by {
        assert(text@.subrange(0, part@.len() as int) =~= part@);
    }
}

/// Lowering turns the capitals from A to Z into the letters thirty-two places
/// on, and nothing else.
pub proof fn lowering_changes_capitals_alone(text: &str, lower: String)
    requires
        call_ensures(ascii_lowered, (text,), lower),
    ensures
        lower@.len() == text@.len(),
        forall|i: int|
            0 <= i < text@.len() ==> if 65 <= text@[i] as int <= 90 {
                (#[trigger] lower@[i]) as int == text@[i] as int + 32
            } else {
                lower@[i] == text@[i]
            },
{
    assert forall|i: int| 0 <= i < text@.len() implies if 65 <= text@[i] as int <= 90 {
        (#[trigger] lower@[i]) as int == text@[i] as int + 32
    } else {
        lower@[i] == text@[i]
    } by {
        assert('A' as int == 65 && 'Z' as int == 90);
    }
}

/// Two characters are the same letter, or the same character.
pub open spec fn same_letter(left: char, right: char) -> bool {
    ||| left == right
    ||| 65 <= left as int <= 90 && right as int == left as int + 32
    ||| 65 <= right as int <= 90 && left as int == right as int + 32
}

/// Two texts are equal but for case exactly where they are the same letter by
/// letter.
pub proof fn texts_equal_letter_by_letter(left: &str, right: &str, b: bool)
    requires
        call_ensures(eq_ignoring_ascii_case, (left, right), b),
    ensures
        b <==> left@.len() == right@.len() && forall|i: int|
            0 <= i < left@.len() ==> same_letter(#[trigger] left@[i], right@[i]),
{
    let l = left@.map_values(|c: char| crate::text::ascii_lower(c));
    let r = right@.map_values(|c: char| crate::text::ascii_lower(c));
    if b {
        assert(l.len() == r.len());
        assert forall|i: int| 0 <= i < left@.len() implies same_letter(
            #[trigger] left@[i],
            right@[i],
        ) by {
            assert(l[i] == r[i]);
        }
    }
    if left@.len() == right@.len() && forall|i: int|
        0 <= i < left@.len() ==> same_letter(#[trigger] left@[i], right@[i]) {
        assert forall|i: int| 0 <= i < l.len() implies l[i] == r[i] by {
            assert(same_letter(left@[i], right@[i]));
        }
        assert(l =~= r);
    }
}

pub(crate) proof fn lemma_joined(parts: Seq<Seq<char>>, more: Seq<Seq<char>>, separator: Seq<char>)
    requires
        parts.len() > 0,
        more.len() > 0,
    ensures
        joined_with(parts + more, separator) == joined_with(parts, separator) + separator
            + joined_with(more, separator),
    decreases more.len(),
{
    let all = parts + more;
    if more.len() == 1 {
        assert(all.drop_last() =~= parts);
    } else {
        lemma_joined(parts, more.drop_last(), separator);
        assert(all.drop_last() =~= parts + more.drop_last());
    }
    assert(joined_with(all, separator) =~= joined_with(parts, separator) + separator + joined_with(
        more,
        separator,
    ));
}

/// Texts joined are the first, the separator and the others joined; one alone
/// is itself and none is nothing.
pub proof fn joined_texts_follow_one_another(
    first: Vec<String>,
    rest: Vec<String>,
    all: Vec<String>,
    separator: &str,
    front: String,
    back: String,
    whole: String,
)
    requires
        call_ensures(join_texts, (&first, separator), front),
        call_ensures(join_texts, (&rest, separator), back),
        call_ensures(join_texts, (&all, separator), whole),
        all@ == first@ + rest@,
    ensures
        first@.len() == 0 ==> front@ == Seq::<char>::empty(),
        first@.len() == 1 ==> front@ == first@[0]@,
        first@.len() > 0 && rest@.len() > 0 ==> whole@ == front@ + separator@ + back@,
{
    assert(texts(all@) =~= texts(first@) + texts(rest@));
    if first@.len() > 0 && rest@.len() > 0 {
        lemma_joined(texts(first@), texts(rest@), separator@);
    }
}

proof fn lemma_front_fits(text: Seq<char>, limit: int)
    requires
        0 <= limit,
    ensures
        front_within(text, limit).len() <= text.len(),
        text.take(front_within(text, limit).len() as int) == front_within(text, limit),
        byte_len(front_within(text, limit)) <= limit,
        front_within(text, limit).len() < text.len() ==> byte_len(
            text.take(front_within(text, limit).len() as int + 1),
        ) > limit,
    decreases text.len(),
{
    assert(byte_len(Seq::<char>::empty()) == 0);
    if text.len() > 0 {
        let one = seq![text[0]];
        assert(Seq::<char>::empty().push(text[0]) =~= one);
        lemma_byte_len_push(Seq::empty(), text[0]);
        assert(text.take(1) =~= one);
        assert(text.take(0) =~= Seq::<char>::empty());
        let width = crate::text::char_width(text[0]) as int;
        if width <= limit {
            let rest = text.skip(1);
            lemma_front_fits(rest, limit - width);
            let inner = front_within(rest, limit - width);
            let front = front_within(text, limit);
            assert(front =~= one + inner);
            lemma_byte_len_concat(one, inner);
            assert(text.take(front.len() as int) =~= one + rest.take(inner.len() as int));
            if front.len() < text.len() {
                lemma_byte_len_concat(one, rest.take(inner.len() as int + 1));
                assert(text.take(front.len() as int + 1) =~= one + rest.take(inner.len() as int + 1));
            }
        }
    } else {
        assert(text.take(0) =~= Seq::<char>::empty());
    }
}

/// The front of a text within a limit is a front of it, takes no more bytes
/// than the limit, and one character more would.
pub proof fn the_front_is_as_long_as_it_may_be(chars: Vec<char>, limit: usize, front: String)
    requires
        call_ensures(front_of, (&chars, limit), front),
    ensures
        front@.len() <= chars@.len(),
        front@ == chars@.take(front@.len() as int),
        byte_len(front@) <= limit,
        front@.len() < chars@.len() ==> byte_len(chars@.take(front@.len() as int + 1)) > limit,
{
    lemma_front_fits(chars@, limit as int);
}

} // verus!
