//! Turning every character that is not a letter or a number into a space, so
//! that it separates words.
use crate::words::{is_word_char, spaced_char};
use vstd::prelude::*;
use vstd::string::{StrSliceExecFns, StringExecFns};

verus! {

/// Whether std counts `c` as alphanumeric: a letter or a number of Unicode.
pub uninterp spec fn unicode_alphanumeric(c: char) -> bool;

/// Relies on std's `char::is_alphanumeric`: `is_alphabetic() ||
/// is_numeric()`; among ASCII characters those are the letters and digits.
#[verifier::external_body]
fn is_alphanumeric(c: char) -> (r: bool)
    ensures
        r == unicode_alphanumeric(c),
        (c as u32) < 128 ==> r == is_word_char(c),
{
    c.is_alphanumeric()
}

/// `c`, or a space where it is not alphanumeric.
pub open spec fn separated_char(c: char) -> char {
    if unicode_alphanumeric(c) {
        c
    } else {
        ' '
    }
}

pub open spec fn separated(s: Seq<char>) -> Seq<char> {
    s.map_values(|c: char| separated_char(c))
}

/// Replaces each character of `input` that is not alphanumeric by a space.
pub fn separate_words(input: &str) -> (r: String)
    ensures
        r@ == separated(input@),
        forall|j: int|
            0 <= j < input@.len() && (input@[j] as u32) < 128 ==> r@[j] == spaced_char(
                #[trigger] input@[j],
            ),
{
    let n = input.unicode_len();
    let mut out = String::new();
    let mut i: usize = 0;
    proof {
        broadcast use vstd::string::group_string_axioms;

        reveal_strlit(" ");
        assert(" "@.len() == 1);
    }
    while i < n
        invariant
            n == input@.len(),
            i <= n,
            out@.len() == i,
            forall|j: int| 0 <= j < i ==> out@[j] == separated_char(#[trigger] input@[j]),
            forall|j: int|
                0 <= j < i && (input@[j] as u32) < 128 ==> out@[j] == spaced_char(
                    #[trigger] input@[j],
                ),
            " "@ =~= seq![' '],
        decreases n - i,
    {
        let c = input.get_char(i);
        if is_alphanumeric(c) {
            let one = input.substring_char(i, i + 1);
            assert(one@ =~= seq![c]);
            out.append(one);
        } else {
            out.append(" ");
        }
        i = i + 1;
    }
    assert(out@ =~= separated(input@));
    out
}

} // verus!
