//! Fresh ids.

use crate::text::{chars_of, hexadecimal, padded_hexadecimal_text, text_between, zero_padded};
use vstd::prelude::*;
use vstd::string::StringExecFns;

verus! {

/// A random id carries the mark of its kind: the digit four in front of its
/// third part, and the two bits of its variant.
pub open spec fn is_random_id(id: u128) -> bool {
    (id >> 76) & 0xf == 4 && (id >> 62) & 3 == 2
}

/// `uuid::Uuid::new_v4` with `Uuid::as_u128`: an id of random bits but for
/// the mark of its kind. That two calls give two ids is left to chance, so
/// nothing is said of it.
#[verifier::external_body]
pub(crate) fn random_id() -> (id: u128)
    ensures
        is_random_id(id),
{
    uuid::Uuid::new_v4().as_u128()
}

/// An id as it is written: thirty-two digits in five parts.
pub open spec fn hyphenated(id: u128) -> Seq<char> {
    let digits = zero_padded(hexadecimal(id as nat), 32);
    digits.subrange(0, 8).push('-') + digits.subrange(8, 12).push('-') + digits.subrange(
        12,
        16,
    ).push('-') + digits.subrange(16, 20).push('-') + digits.subrange(20, digits.len() as int)
}

/// A text is a random id as it is written.
pub open spec fn is_written_id(text: Seq<char>) -> bool {
    exists|id: u128| is_random_id(id) && text == #[trigger] hyphenated(id)
}

/// An id as it is written.
pub fn hyphenated_text(id: u128) -> (text: String)
    ensures
        text@ == hyphenated(id),
{
    let digits = padded_hexadecimal_text(id, 32);
    let chars = chars_of(digits.as_str());
    proof {
        crate::text::lemma_padded_len(hexadecimal(id as nat), 32);
    }
    let mut text = text_between(&chars, 0, 8);
    text.push('-');
    let second = text_between(&chars, 8, 12);
    text.append(second.as_str());
    text.push('-');
    let third = text_between(&chars, 12, 16);
    text.append(third.as_str());
    text.push('-');
    let fourth = text_between(&chars, 16, 20);
    text.append(fourth.as_str());
    text.push('-');
    let last = text_between(&chars, 20, chars.len());
    text.append(last.as_str());
    assert(text@ =~= hyphenated(id));
    text
}

} // verus!
