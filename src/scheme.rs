use crate::text::same_chars;
use vstd::prelude::*;

verus! {

/// The naming conventions an identifier can be converted to.
#[derive(Clone, Copy, Debug, PartialEq, Eq, Structural)]
pub enum NamingScheme {
    /// `firstWordLowerThenCapitalized`
    Camel,
    /// `EveryWordCapitalized`
    Pascal,
    /// `lower_words_joined_by_underscores`
    Snake,
    /// `lower-words-joined-by-hyphens`
    Kebab,
}

/// The selector that names each convention; matching is exact and
/// case-sensitive.
pub open spec fn selector_of(k: NamingScheme) -> Seq<char> {
    match k {
        NamingScheme::Camel => "camelCase"@,
        NamingScheme::Pascal => "PascalCase"@,
        NamingScheme::Snake => "snake_case"@,
        NamingScheme::Kebab => "kebab-case"@,
    }
}

/// The convention a selector names, if it names one.
pub open spec fn scheme_of(selector: Seq<char>) -> Option<NamingScheme> {
    if selector == selector_of(NamingScheme::Camel) {
        Some(NamingScheme::Camel)
    } else if selector == selector_of(NamingScheme::Pascal) {
        Some(NamingScheme::Pascal)
    } else if selector == selector_of(NamingScheme::Snake) {
        Some(NamingScheme::Snake)
    } else if selector == selector_of(NamingScheme::Kebab) {
        Some(NamingScheme::Kebab)
    } else {
        None
    }
}

impl NamingScheme {
    /// Reads a selector such as `"snake_case"`; any other text, including a
    /// known name in another letter case, selects nothing.
    pub fn from_selector(selector: &str) -> (r: Option<NamingScheme>)
        ensures
            r == scheme_of(selector@),
    {
        if same_chars(selector, "camelCase") {
            Some(NamingScheme::Camel)
        } else if same_chars(selector, "PascalCase") {
            Some(NamingScheme::Pascal)
        } else if same_chars(selector, "snake_case") {
            Some(NamingScheme::Snake)
        } else if same_chars(selector, "kebab-case") {
            Some(NamingScheme::Kebab)
        } else {
            None
        }
    }
}

} // verus!
