//! Strings as sequences of characters: building, numbering, trimming and
//! searching.

use vstd::prelude::*;
use vstd::string::StringExecFns;

verus! {

/// `String::push` appends the character.
pub assume_specification[ String::push ](text: &mut String, c: char)
    ensures
        final(text)@ == old(text)@.push(c),
;

/// Whether Unicode counts the character as white space.
pub uninterp spec fn is_space(c: char) -> bool;

/// `char::is_whitespace` is a function of the character, here by its name; a
/// space is white space.
pub assume_specification[ char::is_whitespace ](c: char) -> (b: bool)
    ensures
        b == is_space(c),
        c == ' ' ==> b,
;

/// Whether Unicode counts the character as a letter or a number.
pub uninterp spec fn is_word_char(c: char) -> bool;

/// `char::is_alphanumeric` is a function of the character, here by its name.
pub assume_specification[ char::is_alphanumeric ](c: char) -> (b: bool)
    ensures
        b == is_word_char(c),
;

/// The text in lower case after Unicode's mapping.
pub uninterp spec fn lowered(text: Seq<char>) -> Seq<char>;

/// `str::to_lowercase` is a function of the text, here by its name.
#[verifier::external_body]
pub(crate) fn to_lowercase(text: &str) -> (lower: String)
    ensures
        lower@ == lowered(text@),
{
    text.to_lowercase()
}

/// A digit's character.
pub open spec fn digit_char(digit: int) -> char {
    if digit < 10 {
        (48 + digit) as char
    } else {
        (87 + digit) as char
    }
}

/// A number written out in a base, without leading zeros.
pub open spec fn numeral(number: nat, base: nat) -> Seq<char>
    decreases number,
{
    if base < 2 {
        Seq::empty()
    } else if number < base {
        seq![digit_char(number as int)]
    } else {
        proof {
            assert(number / base < number) by (nonlinear_arith)
                requires
                    base >= 2,
                    number >= base,
            ;
        }
        numeral(number / base, base).push(digit_char((number % base) as int))
    }
}

/// A number in decimal.
pub open spec fn decimal(number: nat) -> Seq<char> {
    numeral(number, 10)
}

/// A number in lower-case hexadecimal.
pub open spec fn hexadecimal(number: nat) -> Seq<char> {
    numeral(number, 16)
}

fn digit(value: u8) -> (c: char)
    requires
        value < 16,
    ensures
        c == digit_char(value as int),
{
    if value < 10 {
        (48u8 + value) as char
    } else {
        (87u8 + value) as char
    }
}

fn push_numeral(text: &mut String, number: u128, base: u128)
    requires
        2 <= base <= 16,
    ensures
        final(text)@ == old(text)@ + numeral(number as nat, base as nat),
    decreases number,
{
    if number < base {
        text.push(digit(number as u8));
        assert(text@ =~= old(text)@ + numeral(number as nat, base as nat));
    } else {
        let rest: u128 = number / base;
        let last: u128 = number % base;
        assert(rest < number) by (nonlinear_arith)
            requires
                rest == number / base,
                base >= 2,
                number >= base,
        ;
        assert(last < base) by (nonlinear_arith)
            requires
                last == number % base,
                base >= 2,
        ;
        push_numeral(text, rest, base);
        text.push(digit(last as u8));
        assert(text@ =~= old(text)@ + numeral(number as nat, base as nat));
    }
}

/// Appends a number in decimal.
pub fn push_decimal(text: &mut String, number: u128)
    ensures
        final(text)@ == old(text)@ + decimal(number as nat),
{
    push_numeral(text, number, 10);
}

/// A number in decimal.
pub fn decimal_text(number: u128) -> (text: String)
    ensures
        text@ == decimal(number as nat),
{
    let mut text = String::new();
    push_numeral(&mut text, number, 10);
    assert(text@ =~= decimal(number as nat));
    text
}

/// A number in lower-case hexadecimal.
pub fn hexadecimal_text(number: u128) -> (text: String)
    ensures
        text@ == hexadecimal(number as nat),
{
    let mut text = String::new();
    push_numeral(&mut text, number, 16);
    assert(text@ =~= hexadecimal(number as nat));
    text
}

/// The value of a digit in bases up to sixteen, either case.
pub open spec fn digit_value(c: char) -> Option<int> {
    if '0' <= c <= '9' {
        Some(c as int - 48)
    } else if 'a' <= c <= 'f' {
        Some(c as int - 87)
    } else if 'A' <= c <= 'F' {
        Some(c as int - 55)
    } else {
        None
    }
}

/// Every character is a digit of the base.
pub open spec fn all_digits(text: Seq<char>, base: int) -> bool {
    forall|i: int|
        0 <= i < text.len() ==> (digit_value(#[trigger] text[i]) is Some && digit_value(
            text[i],
        )->0 < base)
}

/// The number that the digits stand for.
pub open spec fn positional(text: Seq<char>, base: int) -> int
    decreases text.len(),
{
    if text.len() == 0 {
        0
    } else {
        positional(text.drop_last(), base) * base + (match digit_value(text.last()) {
            Some(value) => value,
            None => 0,
        })
    }
}

/// The digits of a numeral: all of the text but a leading plus sign.
pub open spec fn unsigned_digits(text: Seq<char>) -> Seq<char> {
    if text.len() > 0 && text[0] == '+' {
        text.skip(1)
    } else {
        text
    }
}

/// The number a text denotes in a base: digits, at least one, behind an
/// optional plus sign, up to a limit.
pub open spec fn parsed(text: Seq<char>, base: int, limit: int) -> Option<int> {
    let digits = unsigned_digits(text);
    if digits.len() > 0 && all_digits(digits, base) && positional(digits, base) <= limit {
        Some(positional(digits, base))
    } else {
        None
    }
}

/// All characters of a text, in order.
pub fn chars_of(text: &str) -> (chars: Vec<char>)
    ensures
        chars@ == text@,
{
    broadcast use vstd::string::axiom_spec_iter;

    let mut chars: Vec<char> = Vec::new();
    for c in iter: text.chars()
        invariant
            chars@ == iter.seq().take(iter.index()),
            iter.seq() == text@,
    {
        chars.push(c);
        assert(chars@ =~= iter.seq().take(iter.index() + 1));
    }
    assert(chars@ =~= text@);
    chars
}

/// The text made of the characters from one index up to another.
pub fn text_between(chars: &Vec<char>, from: usize, to: usize) -> (text: String)
    requires
        from <= to <= chars@.len(),
    ensures
        text@ == chars@.subrange(from as int, to as int),
{
    let mut text = String::new();
    let mut next: usize = from;
    assert(text@ =~= chars@.subrange(from as int, from as int));
    while next < to
        invariant
            from <= next <= to <= chars@.len(),
            text@ == chars@.subrange(from as int, next as int),
        decreases to - next,
    {
        text.push(chars[next]);
        next = next + 1;
        assert(text@ =~= chars@.subrange(from as int, next as int));
    }
    text
}

proof fn lemma_positional_grows(text: Seq<char>, base: int, k: int)
    requires
        0 <= k <= text.len(),
        base >= 1,
        all_digits(text, base),
    ensures
        0 <= positional(text.take(k), base) <= positional(text, base),
    decreases text.len(),
{
    if text.len() == 0 {
        assert(text.take(k) =~= text);
    } else {
        let shorter = text.drop_last();
        assert forall|i: int| 0 <= i < shorter.len() implies (digit_value(
            #[trigger] shorter[i],
        ) is Some && digit_value(shorter[i])->0 < base) by {
            assert(shorter[i] == text[i]);
        }
        assert(digit_value(text[text.len() - 1]) is Some);
        if k < text.len() {
            lemma_positional_grows(shorter, base, k);
            assert(shorter.take(k) =~= text.take(k));
        } else {
            lemma_positional_grows(shorter, base, k - 1);
            assert(shorter.take(k - 1) =~= shorter);
            assert(text.take(k) =~= text);
        }
        let high = positional(shorter, base);
        assert(high * base >= high) by (nonlinear_arith)
            requires
                high >= 0,
                base >= 1,
        ;
    }
}

/// The value of one digit.
fn value_of(c: char) -> (value: Option<u32>)
    ensures
        match value {
            Some(value) => digit_value(c) == Some(value as int) && value < 16,
            None => digit_value(c) is None,
        },
{
    let code: u32 = c as u32;
    if '0' <= c && c <= '9' {
        Some(code - 48)
    } else if 'a' <= c && c <= 'f' {
        Some(code - 87)
    } else if 'A' <= c && c <= 'F' {
        Some(code - 55)
    } else {
        None
    }
}

/// Reads a number in a base up to sixteen, as the standard integer parsers
/// do: an optional plus sign, then digits, and nothing past the limit.
pub fn parse_number(text: &str, base: u32, limit: u128) -> (number: Option<u128>)
    requires
        2 <= base <= 16,
    ensures
        match number {
            Some(number) => parsed(text@, base as int, limit as int) == Some(number as int),
            None => parsed(text@, base as int, limit as int) is None,
        },
{
    let chars = chars_of(text);
    let mut next: usize = 0;
    if chars.len() > 0 && chars[0] == '+' {
        next = 1;
    }
    let ghost digits = unsigned_digits(text@);
    let ghost skipped: int = next as int;
    assert(digits =~= chars@.skip(skipped));
    if next == chars.len() {
        assert(digits.len() == 0);
        return None;
    }
    let mut number: u128 = 0;
    assert(digits.take(0) =~= Seq::empty());
    while next < chars.len()
        invariant
            2 <= base <= 16,
            0 <= skipped <= next <= chars@.len(),
            digits == chars@.skip(skipped),
            digits == unsigned_digits(text@),
            digits.len() > 0,
            number <= limit,
            number == positional(digits.take(next - skipped), base as int),
            all_digits(digits.take(next - skipped), base as int),
        decreases chars@.len() - next,
    {
        let ghost k: int = next - skipped;
        let ghost taken = digits.take(k + 1);
        assert(chars@[next as int] == digits[k]);
        assert(taken.drop_last() =~= digits.take(k));
        assert(taken.last() == digits[k]);
        let value: u32 = match value_of(chars[next]) {
            Some(value) => value,
            None => {
                assert(digit_value(digits[k]) is None);
                return None;
            },
        };
        if value >= base {
            assert(!(digit_value(digits[k])->0 < base));
            return None;
        }
        assert forall|i: int| 0 <= i < taken.len() implies (digit_value(#[trigger] taken[i]) is Some
            && digit_value(taken[i])->0 < base) by {
            if i < k {
                assert(taken[i] == digits.take(k)[i]);
            }
        }
        let product: Option<u128> = number.checked_mul(base as u128);
        let sum: Option<u128> = match product {
            Some(high) => high.checked_add(value as u128),
            None => None,
        };
        let over = match sum {
            Some(total) => total > limit,
            None => true,
        };
        if over {
            proof {
                assert(positional(taken, base as int) > limit);
                if all_digits(digits, base as int) {
                    lemma_positional_grows(digits, base as int, k + 1);
                }
            }
            return None;
        }
        if let Some(total) = sum {
            number = total;
        }
        next = next + 1;
    }
    assert(digits.take(next - skipped) =~= digits);
    Some(number)
}

/// The text without white space at its front.
pub open spec fn trim_front(text: Seq<char>) -> Seq<char>
    decreases text.len(),
{
    if text.len() > 0 && is_space(text[0]) {
        trim_front(text.skip(1))
    } else {
        text
    }
}

/// The text without white space at its back.
pub open spec fn trim_back(text: Seq<char>) -> Seq<char>
    decreases text.len(),
{
    if text.len() > 0 && is_space(text.last()) {
        trim_back(text.drop_last())
    } else {
        text
    }
}

/// The text without white space at either end.
pub open spec fn trimmed(text: Seq<char>) -> Seq<char> {
    trim_back(trim_front(text))
}

/// The text without white space at either end.
pub fn trim(text: &str) -> (inner: String)
    ensures
        inner@ == trimmed(text@),
{
    let chars = chars_of(text);
    let mut from: usize = 0;
    assert(chars@.skip(0) =~= chars@);
    while from < chars.len() && chars[from].is_whitespace()
        invariant
            from <= chars@.len(),
            trim_front(text@) == trim_front(chars@.skip(from as int)),
        decreases chars@.len() - from,
    {
        assert(chars@.skip(from as int).skip(1) =~= chars@.skip(from + 1));
        from = from + 1;
    }
    let ghost rest = chars@.skip(from as int);
    assert(trim_front(rest) == rest);
    let mut to: usize = chars.len();
    assert(chars@.subrange(from as int, to as int) =~= rest);
    while to > from && chars[to - 1].is_whitespace()
        invariant
            from <= to <= chars@.len(),
            trim_back(rest) == trim_back(chars@.subrange(from as int, to as int)),
        decreases to - from,
    {
        assert(chars@.subrange(from as int, to as int).drop_last() =~= chars@.subrange(
            from as int,
            to - 1,
        ));
        to = to - 1;
    }
    text_between(&chars, from, to)
}

/// The text without white space at its back.
pub fn trim_end(text: &str) -> (front: String)
    ensures
        front@ == trim_back(text@),
{
    let chars = chars_of(text);
    let mut to: usize = chars.len();
    assert(chars@.subrange(0, to as int) =~= text@);
    while to > 0 && chars[to - 1].is_whitespace()
        invariant
            to <= chars@.len(),
            trim_back(text@) == trim_back(chars@.subrange(0, to as int)),
        decreases to,
    {
        assert(chars@.subrange(0, to as int).drop_last() =~= chars@.subrange(0, to - 1));
        to = to - 1;
    }
    text_between(&chars, 0, to)
}

/// One text stands in another at an index.
pub open spec fn stands_at(text: Seq<char>, part: Seq<char>, at: int) -> bool {
    &&& 0 <= at
    &&& at + part.len() <= text.len()
    &&& text.subrange(at, at + part.len()) == part
}

/// One text stands somewhere in another.
pub open spec fn holds_text(text: Seq<char>, part: Seq<char>) -> bool {
    exists|at: int| stands_at(text, part, at)
}

/// One text stands at the front of another.
pub open spec fn begins_with(text: Seq<char>, part: Seq<char>) -> bool {
    stands_at(text, part, 0)
}

fn stands(text: &Vec<char>, part: &Vec<char>, at: usize) -> (b: bool)
    ensures
        b == stands_at(text@, part@, at as int),
{
    if part.len() > text.len() || at > text.len() - part.len() {
        return false;
    }
    let total: usize = text.len();
    let mut next: usize = 0;
    while next < part.len()
        invariant
            next <= part@.len(),
            text@.len() == total,
            at + part@.len() <= text@.len(),
            forall|i: int| 0 <= i < next ==> text@[at + i] == #[trigger] part@[i],
        decreases part@.len() - next,
    {
        if text[at + next] != part[next] {
            assert(text@.subrange(at as int, at + part@.len())[next as int] != part@[next as int]);
            return false;
        }
        next = next + 1;
    }
    assert(text@.subrange(at as int, at + part@.len()) =~= part@);
    true
}

/// One text stands somewhere in another.
pub fn contains_text(text: &str, part: &str) -> (b: bool)
    ensures
        b == holds_text(text@, part@),
{
    let text_chars = chars_of(text);
    let part_chars = chars_of(part);
    if part_chars.len() > text_chars.len() {
        return false;
    }
    let last: usize = text_chars.len() - part_chars.len();
    let mut at: usize = 0;
    while at <= last
        invariant
            text_chars@ == text@,
            part_chars@ == part@,
            part@.len() + last == text@.len(),
            at <= last + 1,
            last < usize::MAX || at <= last,
            forall|i: int| 0 <= i < at ==> !stands_at(text@, part@, i),
        decreases last + 1 - at,
    {
        if stands(&text_chars, &part_chars, at) {
            return true;
        }
        if at == last {
            return false;
        }
        at = at + 1;
    }
    false
}

/// One text stands at the front of another.
pub fn starts_with_text(text: &str, part: &str) -> (b: bool)
    ensures
        b == begins_with(text@, part@),
{
    let text_chars = chars_of(text);
    let part_chars = chars_of(part);
    stands(&text_chars, &part_chars, 0)
}

/// Two texts are the same.
pub fn same_text(left: &str, right: &str) -> (b: bool)
    ensures
        b == (left@ == right@),
{
    let left_chars = chars_of(left);
    let right_chars = chars_of(right);
    if left_chars.len() != right_chars.len() {
        return false;
    }
    let b = stands(&left_chars, &right_chars, 0);
    assert(left@.subrange(0, left@.len() as int) =~= left@);
    b
}

/// An ASCII letter in lower case, any other character as it is.
pub open spec fn ascii_lower(c: char) -> char {
    if 'A' <= c <= 'Z' {
        (c as int + 32) as char
    } else {
        c
    }
}

/// A text with its ASCII letters in lower case.
pub open spec fn lowered_ascii(text: Seq<char>) -> Seq<char> {
    text.map_values(|c: char| ascii_lower(c))
}

/// Two texts that differ at most in the case of ASCII letters.
pub open spec fn same_ignoring_ascii_case(left: Seq<char>, right: Seq<char>) -> bool {
    left.map_values(|c: char| ascii_lower(c)) == right.map_values(|c: char| ascii_lower(c))
}

fn lower_char(c: char) -> (lower: char)
    ensures
        lower == ascii_lower(c),
{
    if 'A' <= c && c <= 'Z' {
        ((c as u8) + 32) as char
    } else {
        c
    }
}

/// Puts a text's ASCII letters in lower case.
pub fn ascii_lowered(text: &str) -> (lower: String)
    ensures
        lower@ == lowered_ascii(text@),
{
    let chars = chars_of(text);
    let mut lower = String::new();
    let mut next: usize = 0;
    assert(lower@ =~= lowered_ascii(chars@.take(0)));
    while next < chars.len()
        invariant
            next <= chars@.len(),
            lower@ == lowered_ascii(chars@.take(next as int)),
        decreases chars@.len() - next,
    {
        lower.push(lower_char(chars[next]));
        next = next + 1;
        assert(lower@ =~= lowered_ascii(chars@.take(next as int)));
    }
    assert(chars@.take(next as int) =~= chars@);
    lower
}

pub fn eq_ignoring_ascii_case(left: &str, right: &str) -> (b: bool)
    ensures
        b == same_ignoring_ascii_case(left@, right@),
{
    let left_chars = chars_of(left);
    let right_chars = chars_of(right);
    let ghost l = left@.map_values(|c: char| ascii_lower(c));
    let ghost r = right@.map_values(|c: char| ascii_lower(c));
    if left_chars.len() != right_chars.len() {
        assert(l.len() != r.len());
        return false;
    }
    let mut next: usize = 0;
    while next < left_chars.len()
        invariant
            left_chars@ == left@,
            right_chars@ == right@,
            left@.len() == right@.len(),
            next <= left@.len(),
            l == left@.map_values(|c: char| ascii_lower(c)),
            r == right@.map_values(|c: char| ascii_lower(c)),
            forall|i: int| 0 <= i < next ==> #[trigger] l[i] == r[i],
        decreases left@.len() - next,
    {
        if lower_char(left_chars[next]) != lower_char(right_chars[next]) {
            assert(l[next as int] != r[next as int]);
            return false;
        }
        next = next + 1;
    }
    assert(l =~= r);
    true
}

/// Bytes a text takes in UTF-8.
pub open spec fn byte_len(text: Seq<char>) -> nat {
    vstd::utf8::encode_utf8(text).len()
}

/// Bytes a character takes in UTF-8.
pub open spec fn char_width(c: char) -> nat {
    if c as u32 <= 0x7F {
        1
    } else if c as u32 <= 0x7FF {
        2
    } else if c as u32 <= 0xFFFF {
        3
    } else {
        4
    }
}

/// Texts take together the bytes that each takes.
pub proof fn lemma_byte_len_concat(left: Seq<char>, right: Seq<char>)
    ensures
        byte_len(left + right) == byte_len(left) + byte_len(right),
    decreases left.len(),
{
    if left.len() == 0 {
        assert(left + right =~= right);
    } else {
        lemma_byte_len_concat(left.drop_first(), right);
        assert((left + right).drop_first() =~= left.drop_first() + right);
    }
}

/// One more character takes its width more.
pub proof fn lemma_byte_len_push(text: Seq<char>, c: char)
    ensures
        byte_len(text.push(c)) == byte_len(text) + char_width(c),
{
    lemma_byte_len_concat(text, seq![c]);
    assert(text.push(c) =~= text + seq![c]);
    assert(seq![c].drop_first() =~= Seq::empty());
    assert(vstd::utf8::encode_utf8(Seq::<char>::empty()).len() == 0);
    assert(vstd::utf8::encode_utf8(seq![c]) == vstd::utf8::encode_scalar(c as u32)
        + vstd::utf8::encode_utf8(seq![c].drop_first()));
}

/// Bytes a character takes in UTF-8.
pub fn width_of(c: char) -> (width: usize)
    ensures
        width == char_width(c),
{
    let code: u32 = c as u32;
    if code <= 0x7F {
        1
    } else if code <= 0x7FF {
        2
    } else if code <= 0xFFFF {
        3
    } else {
        4
    }
}

/// Bytes a text takes in UTF-8.
pub fn byte_count(text: &str) -> (count: usize)
    ensures
        count == byte_len(text@),
{
    text.as_bytes().len()
}

/// The parts of a text joined with a separator between them.
pub open spec fn joined_with(parts: Seq<Seq<char>>, separator: Seq<char>) -> Seq<char>
    decreases parts.len(),
{
    if parts.len() == 0 {
        Seq::empty()
    } else if parts.len() == 1 {
        parts[0]
    } else {
        joined_with(parts.drop_last(), separator) + separator + parts.last()
    }
}

/// The contents of a list of texts.
pub open spec fn texts(list: Seq<String>) -> Seq<Seq<char>> {
    list.map_values(|text: String| text@)
}

pub proof fn lemma_texts_push(list: Seq<String>, text: String)
    ensures
        texts(list.push(text)) == texts(list).push(text@),
{
    assert(texts(list.push(text)) =~= texts(list).push(text@));
}

/// Joins texts with a separator.
pub fn join_texts(parts: &Vec<String>, separator: &str) -> (text: String)
    ensures
        text@ == joined_with(texts(parts@), separator@),
{
    let mut text = String::new();
    let mut next: usize = 0;
    let ghost all = texts(parts@);
    assert(all.take(0) =~= Seq::empty());
    while next < parts.len()
        invariant
            next <= parts@.len(),
            all == texts(parts@),
            text@ == joined_with(all.take(next as int), separator@),
        decreases parts@.len() - next,
    {
        proof {
            let taken = all.take(next + 1);
            assert(taken.drop_last() =~= all.take(next as int));
            assert(taken.last() == parts@[next as int]@);
        }
        if next > 0 {
            text.append(separator);
        } else {
            assert(text@ =~= Seq::empty());
        }
        text.append(parts[next].as_str());
        assert(text@ =~= joined_with(all.take(next + 1), separator@));
        next = next + 1;
    }
    assert(all.take(next as int) =~= all);
    text
}

/// The longest front of a text that takes at most so many bytes.
pub open spec fn front_within(text: Seq<char>, limit: int) -> Seq<char>
    decreases text.len(),
{
    if text.len() == 0 || char_width(text[0]) > limit {
        Seq::empty()
    } else {
        seq![text[0]] + front_within(text.skip(1), limit - char_width(text[0]))
    }
}

/// The longest front of a text that takes at most so many bytes.
pub fn front_of(chars: &Vec<char>, limit: usize) -> (front: String)
    ensures
        front@ == front_within(chars@, limit as int),
{
    let mut front = String::new();
    let mut left: usize = limit;
    let mut next: usize = 0;
    assert(chars@.skip(0) =~= chars@);
    while next < chars.len() && width_of(chars[next]) <= left
        invariant
            next <= chars@.len(),
            front_within(chars@, limit as int) == front@ + front_within(
                chars@.skip(next as int),
                left as int,
            ),
        decreases chars@.len() - next,
    {
        let ghost rest = chars@.skip(next as int);
        assert(rest.skip(1) =~= chars@.skip(next + 1));
        let ghost before = front@;
        front.push(chars[next]);
        left = left - width_of(chars[next]);
        next = next + 1;
        assert(front@ + front_within(rest.skip(1), left as int) =~= before + (seq![rest[0]]
            + front_within(rest.skip(1), left as int)));
    }
    assert(front_within(chars@.skip(next as int), left as int) =~= Seq::empty());
    assert(front@ + Seq::<char>::empty() =~= front@);
    front
}

/// The front within a limit takes at most that many bytes.
pub proof fn lemma_front_within_bytes(text: Seq<char>, limit: int)
    requires
        limit >= 0,
    ensures
        byte_len(front_within(text, limit)) <= limit,
    decreases text.len(),
{
    if text.len() == 0 || char_width(text[0]) > limit {
        assert(vstd::utf8::encode_utf8(Seq::<char>::empty()).len() == 0);
    } else {
        lemma_front_within_bytes(text.skip(1), limit - char_width(text[0]));
        let rest = front_within(text.skip(1), limit - char_width(text[0]));
        lemma_byte_len_concat(seq![text[0]], rest);
        lemma_byte_len_push(Seq::empty(), text[0]);
        assert(Seq::<char>::empty().push(text[0]) =~= seq![text[0]]);
        assert(vstd::utf8::encode_utf8(Seq::<char>::empty()).len() == 0);
    }
}

proof fn lemma_digit_char(digit: int)
    requires
        0 <= digit < 16,
    ensures
        digit_value(digit_char(digit)) == Some(digit),
        digit_char(digit) != '+',
{
}

proof fn lemma_numeral_digits(number: nat, base: nat)
    requires
        2 <= base <= 16,
    ensures
        numeral(number, base).len() > 0,
        all_digits(numeral(number, base), base as int),
        positional(numeral(number, base), base as int) == number,
        numeral(number, base)[0] != '+',
    decreases number,
{
    let text = numeral(number, base);
    if number < base {
        lemma_digit_char(number as int);
        assert(text.drop_last() =~= Seq::empty());
        assert(positional(Seq::<char>::empty(), base as int) == 0);
    } else {
        let rest = number / base;
        let last = number % base;
        assert(rest < number && last < base && rest * base + last == number)
            by (nonlinear_arith)
            requires
                rest == number / base,
                last == number % base,
                base >= 2,
                number >= base,
        ;
        lemma_numeral_digits(rest, base);
        lemma_digit_char(last as int);
        let front = numeral(rest, base);
        assert(text.drop_last() =~= front);
        assert(text.last() == digit_char(last as int));
        assert forall|i: int| 0 <= i < text.len() implies (digit_value(#[trigger] text[i]) is Some
            && digit_value(text[i])->0 < base) by {
            if i < front.len() {
                assert(text[i] == front[i]);
            }
        }
        assert(text[0] == front[0]);
    }
}

/// A number written out reads back as itself.
pub proof fn numerals_read_back(number: nat, base: nat, limit: int)
    requires
        2 <= base <= 16,
        number <= limit,
    ensures
        parsed(numeral(number, base), base as int, limit) == Some(number as int),
{
    lemma_numeral_digits(number, base);
}

/// Zeros before a text to a width.
pub open spec fn zero_padded(text: Seq<char>, width: int) -> Seq<char>
    decreases width - text.len(),
{
    if text.len() >= width {
        text
    } else {
        zero_padded(seq!['0'] + text, width)
    }
}

pub(crate) proof fn lemma_padded_len(text: Seq<char>, width: int)
    ensures
        zero_padded(text, width).len() >= width,
    decreases width - text.len(),
{
    if text.len() < width {
        lemma_padded_len(seq!['0'] + text, width);
    }
}

proof fn lemma_leading_zero(text: Seq<char>, base: int)
    requires
        2 <= base <= 16,
        all_digits(text, base),
    ensures
        all_digits(seq!['0'] + text, base),
        positional(seq!['0'] + text, base) == positional(text, base),
    decreases text.len(),
{
    let longer = seq!['0'] + text;
    assert forall|i: int| 0 <= i < longer.len() implies (digit_value(#[trigger] longer[i]) is Some
        && digit_value(longer[i])->0 < base) by {
        if i > 0 {
            assert(longer[i] == text[i - 1]);
        }
    }
    if text.len() == 0 {
        assert(longer.drop_last() =~= Seq::empty());
        assert(positional(Seq::<char>::empty(), base) == 0);
        assert(longer.last() == '0');
    } else {
        let front = text.drop_last();
        assert forall|i: int| 0 <= i < front.len() implies (digit_value(#[trigger] front[i]) is Some
            && digit_value(front[i])->0 < base) by {
            assert(front[i] == text[i]);
        }
        lemma_leading_zero(front, base);
        assert(longer.drop_last() =~= seq!['0'] + front);
        assert(longer.last() == text.last());
    }
}

proof fn lemma_zero_padded(text: Seq<char>, width: int, base: int)
    requires
        2 <= base <= 16,
        all_digits(text, base),
        text.len() > 0,
        text[0] != '+',
    ensures
        all_digits(zero_padded(text, width), base),
        positional(zero_padded(text, width), base) == positional(text, base),
        zero_padded(text, width).len() > 0,
        zero_padded(text, width)[0] != '+',
    decreases width - text.len(),
{
    if text.len() < width {
        lemma_leading_zero(text, base);
        lemma_zero_padded(seq!['0'] + text, width, base);
    }
}

/// A number written out with zeros before it reads back as itself.
pub proof fn padded_numerals_read_back(number: nat, base: nat, width: int, limit: int)
    requires
        2 <= base <= 16,
        number <= limit,
    ensures
        parsed(zero_padded(numeral(number, base), width), base as int, limit) == Some(
            number as int,
        ),
{
    lemma_numeral_digits(number, base);
    lemma_zero_padded(numeral(number, base), width, base as int);
}

/// A number in hexadecimal with zeros before it to a width.
pub fn padded_hexadecimal_text(number: u128, width: usize) -> (text: String)
    ensures
        text@ == zero_padded(hexadecimal(number as nat), width as int),
{
    let mut text = hexadecimal_text(number);
    let mut length: usize = text.as_str().unicode_len();
    while length < width
        invariant
            text@.len() == length,
            zero_padded(hexadecimal(number as nat), width as int) == zero_padded(
                text@,
                width as int,
            ),
        decreases width - length,
    {
        let mut longer = String::new();
        longer.push('0');
        longer.append(text.as_str());
        assert(longer@ =~= seq!['0'] + text@);
        text = longer;
        length = length + 1;
    }
    text
}

} // verus!
