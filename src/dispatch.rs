use crate::converter::{convert, converted};
use crate::scheme::{scheme_of, NamingScheme};
use crate::separate::unicode_alphanumeric;
use crate::words::{ascii_cased, in_canonical_form, is_ascii_text};
use vstd::prelude::*;

verus! {

/// What `submit` returns: the conversion of `name` when `selector` names a
/// convention, and `name` itself otherwise.
pub open spec fn submitted(name: Seq<char>, selector: Seq<char>) -> Seq<char> {
    match scheme_of(selector) {
        Some(k) => converted(name, k),
        None => name,
    }
}

/// The command the front end calls: converts `name` to the convention that
/// `scheme` names (`"camelCase"`, `"PascalCase"`, `"snake_case"` or
/// `"kebab-case"`, matched exactly), and hands `name` back unchanged for any
/// other selector.
pub fn submit(name: &str, scheme: &str) -> (r: String)
    ensures
        r@ == submitted(name@, scheme@),
        scheme_of(scheme@) is None ==> r@ == name@,
        scheme_of(scheme@) is Some && (forall|j: int|
            0 <= j < name@.len() ==> !unicode_alphanumeric(#[trigger] name@[j])) ==> r@
            == Seq::<char>::empty(),
        name@.len() == 0 ==> r@ == Seq::<char>::empty(),
        forall|k: NamingScheme|
            scheme_of(scheme@) == Some(k) && is_ascii_text(name@) ==> r@ == #[trigger] ascii_cased(
                name@,
                k,
            ),
        forall|k: NamingScheme|
            scheme_of(scheme@) == Some(k) && #[trigger] in_canonical_form(name@, k) ==> r@
                == name@,
{
    match NamingScheme::from_selector(scheme) {
        Some(k) => convert(name, k),
        None => name.to_owned(),
    }
}

/// A selector that names no convention leaves every name as it is.
pub proof fn lemma_unrecognized_selector_passes_through(name: Seq<char>, selector: Seq<char>)
    requires
        scheme_of(selector) is None,
    ensures
        submitted(name, selector) == name,
{
}

} // verus!
