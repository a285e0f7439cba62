use crate::scheme::NamingScheme;
use crate::separate::{separate_words, separated, unicode_alphanumeric};
use crate::words::{
    ascii_cased, in_canonical_form, is_ascii_text, is_spaced_text, lemma_canonical_form_unchanged,
    lemma_delimiters_convert_to_empty, lemma_spacing_keeps_words,
};
use convert_case::{Boundary, Case, Casing};
use vstd::prelude::*;

verus! {

/// A place where an identifier is split into words.
#[derive(Clone, Copy, Debug, PartialEq, Eq, Structural)]
pub enum WordBoundary {
    /// At an underscore, which is dropped.
    Underscore,
    /// At a hyphen, which is dropped.
    Hyphen,
    /// At a space, which is dropped.
    Space,
    /// Between a lowercase letter and the uppercase letter after it.
    LowerUpper,
    /// Between a digit and the uppercase letter after it.
    DigitUpper,
    /// Before the last uppercase letter of a run that a lowercase letter
    /// follows (`XMLParser` gives `XML`, `Parser`).
    Acronym,
}

/// The boundaries every conversion splits at, whatever its target. A digit
/// stays in the word before it.
pub open spec fn word_boundaries() -> Seq<WordBoundary> {
    seq![
        WordBoundary::Underscore,
        WordBoundary::Hyphen,
        WordBoundary::Space,
        WordBoundary::LowerUpper,
        WordBoundary::DigitUpper,
        WordBoundary::Acronym,
    ]
}

/// What convert_case makes of `s` when it splits it at `boundaries` and
/// recombines the words in the convention `scheme`.
pub uninterp spec fn cased(s: Seq<char>, boundaries: Seq<WordBoundary>, scheme: NamingScheme) -> Seq<char>;

/// The result of converting `s` to `scheme`: every character that is not
/// alphanumeric becomes a space, then convert_case splits and recombines.
pub open spec fn converted(s: Seq<char>, scheme: NamingScheme) -> Seq<char> {
    cased(separated(s), word_boundaries(), scheme)
}

/// Relies on convert_case's `Casing::with_boundaries` followed by
/// `StateConverter::to_case`: split at the given boundaries, then recombine.
/// The result depends on its arguments alone; an empty text splits into no
/// words and joins to an empty string. On text of ASCII letters, digits and
/// spaces split at `word_boundaries`, each character is one grapheme, the
/// only delimiter present is the space, and the source's steps are those of
/// `ascii_cased`: split, drop empty words, lowercase or capitalize each word
/// by the case's pattern, join with the case's delimiter.
#[verifier::external_body]
fn to_case_at(s: &str, boundaries: &[WordBoundary], scheme: NamingScheme) -> (r: String)
    ensures
        r@ == cased(s@, boundaries@, scheme),
        s@.len() == 0 ==> r@.len() == 0,
        boundaries@ == word_boundaries() && is_spaced_text(s@) ==> r@ == ascii_cased(s@, scheme),
{
    let bs: Vec<Boundary> = boundaries.iter().map(|b| match b {
        WordBoundary::Underscore => Boundary::Underscore,
        WordBoundary::Hyphen => Boundary::Hyphen,
        WordBoundary::Space => Boundary::Space,
        WordBoundary::LowerUpper => Boundary::LowerUpper,
        WordBoundary::DigitUpper => Boundary::DigitUpper,
        WordBoundary::Acronym => Boundary::Acronym,
    }).collect();
    let case = match scheme {
        NamingScheme::Camel => Case::Camel,
        NamingScheme::Pascal => Case::Pascal,
        NamingScheme::Snake => Case::Snake,
        NamingScheme::Kebab => Case::Kebab,
    };
    s.with_boundaries(&bs).to_case(case)
}

/// The boundaries of `word_boundaries`, as a vector.
fn boundary_list() -> (r: Vec<WordBoundary>)
    ensures
        r@ == word_boundaries(),
{
    let mut r: Vec<WordBoundary> = Vec::new();
    r.push(WordBoundary::Underscore);
    r.push(WordBoundary::Hyphen);
    r.push(WordBoundary::Space);
    r.push(WordBoundary::LowerUpper);
    r.push(WordBoundary::DigitUpper);
    r.push(WordBoundary::Acronym);
    assert(r@ =~= word_boundaries());
    r
}

/// Converts `input` to `scheme`. Every character that is not a letter or a
/// number separates words and is dropped; a new word also starts where the
/// letter case changes. The words are lowercased and then recombined
/// (capitalized and run together for camelCase and PascalCase, joined by `_`
/// or `-` for snake_case and kebab-case). An input without letters or
/// numbers, the empty one included, gives an empty string; a name already
/// written in `scheme` comes back unchanged.
pub fn convert(input: &str, scheme: NamingScheme) -> (r: String)
    ensures
        r@ == converted(input@, scheme),
        is_ascii_text(input@) ==> r@ == ascii_cased(input@, scheme),
        (forall|j: int| 0 <= j < input@.len() ==> !unicode_alphanumeric(#[trigger] input@[j]))
            ==> r@ == Seq::<char>::empty(),
        in_canonical_form(input@, scheme) ==> r@ == input@,
{
    let spaced = separate_words(input);
    let boundaries = boundary_list();
    let r = to_case_at(spaced.as_str(), boundaries.as_slice(), scheme);
    proof {
        if is_ascii_text(input@) {
            lemma_spacing_keeps_words(input@, spaced@, scheme);
        }
        if forall|j: int| 0 <= j < input@.len() ==> !unicode_alphanumeric(#[trigger] input@[j]) {
            assert(spaced@ =~= Seq::new(input@.len(), |j: int| ' '));
            lemma_delimiters_convert_to_empty(spaced@, scheme);
        }
        if in_canonical_form(input@, scheme) {
            lemma_canonical_form_unchanged(input@, scheme);
        }
    }
    r
}

} // verus!
