//! What a conversion does to ASCII text: where it splits the text into words,
//! how each word is cased, and how the words are joined again.
use crate::scheme::NamingScheme;
use vstd::prelude::*;

verus! {

/// An ASCII letter or digit.
pub open spec fn is_word_char(c: char) -> bool {
    is_upper(c) || is_lower(c) || is_digit(c)
}

/// Any character but an ASCII letter or digit separates words and is
/// dropped: `_`, `-`, space, punctuation alike.
pub open spec fn is_delimiter(c: char) -> bool {
    !is_word_char(c)
}

/// Text of ASCII letters, digits and spaces alone.
pub open spec fn is_spaced_text(s: Seq<char>) -> bool {
    forall|i: int| 0 <= i < s.len() ==> is_word_char(#[trigger] s[i]) || s[i] == ' '
}

/// `c` with every separating character replaced by a space.
pub open spec fn spaced_char(c: char) -> char {
    if is_word_char(c) {
        c
    } else {
        ' '
    }
}

pub open spec fn is_upper(c: char) -> bool {
    'A' <= c && c <= 'Z'
}

pub open spec fn is_lower(c: char) -> bool {
    'a' <= c && c <= 'z'
}

pub open spec fn is_digit(c: char) -> bool {
    '0' <= c && c <= '9'
}

pub open spec fn is_ascii_text(s: Seq<char>) -> bool {
    forall|i: int| 0 <= i < s.len() ==> (s[i] as u32) < 128
}

/// Whether a new word starts at `s[i]`, which is kept: an uppercase letter
/// after a lowercase letter or a digit, or the last capital of a run of
/// capitals that a lowercase letter follows.
pub open spec fn starts_word(s: Seq<char>, i: int) -> bool {
    &&& 1 <= i < s.len()
    &&& is_upper(s[i])
    &&& (is_lower(s[i - 1]) || is_digit(s[i - 1]) || (is_upper(s[i - 1]) && i + 1 < s.len()
        && is_lower(s[i + 1])))
}

/// A finished word, unless it is empty.
pub open spec fn kept(w: Seq<char>) -> Seq<Seq<char>> {
    if w.len() == 0 {
        seq![]
    } else {
        seq![w]
    }
}

/// The words of `s` from position `i` on, where `word` holds what the current
/// word has gathered so far.
pub open spec fn words_from(s: Seq<char>, i: int, word: Seq<char>) -> Seq<Seq<char>>
    decreases s.len() - i,
{
    if i < 0 || i >= s.len() {
        kept(word)
    } else if is_delimiter(s[i]) {
        kept(word) + words_from(s, i + 1, seq![])
    } else if starts_word(s, i) {
        kept(word) + words_from(s, i + 1, seq![s[i]])
    } else {
        words_from(s, i + 1, word.push(s[i]))
    }
}

/// The words of `s`, in order, none of them empty.
pub open spec fn words(s: Seq<char>) -> Seq<Seq<char>> {
    words_from(s, 0, seq![])
}

pub open spec fn lower_char(c: char) -> char {
    if is_upper(c) {
        ((c as u32) + 32) as char
    } else {
        c
    }
}

pub open spec fn upper_char(c: char) -> char {
    if is_lower(c) {
        ((c as u32) - 32) as char
    } else {
        c
    }
}

pub open spec fn lowered(w: Seq<char>) -> Seq<char> {
    w.map_values(|c: char| lower_char(c))
}

/// The first letter uppercase, the rest lowercase.
pub open spec fn capitalized(w: Seq<char>) -> Seq<char> {
    if w.len() == 0 {
        w
    } else {
        seq![upper_char(w[0])] + lowered(w.drop_first())
    }
}

/// How the word at position `i` is cased in `scheme`.
pub open spec fn word_style(w: Seq<char>, i: int, scheme: NamingScheme) -> Seq<char> {
    match scheme {
        NamingScheme::Camel => if i == 0 {
            lowered(w)
        } else {
            capitalized(w)
        },
        NamingScheme::Pascal => capitalized(w),
        NamingScheme::Snake => lowered(w),
        NamingScheme::Kebab => lowered(w),
    }
}

pub open spec fn styled(ws: Seq<Seq<char>>, scheme: NamingScheme) -> Seq<Seq<char>> {
    Seq::new(ws.len(), |i: int| word_style(ws[i], i, scheme))
}

/// What stands between two words in `scheme`.
pub open spec fn delimiter_of(scheme: NamingScheme) -> Seq<char> {
    match scheme {
        NamingScheme::Camel => seq![],
        NamingScheme::Pascal => seq![],
        NamingScheme::Snake => seq!['_'],
        NamingScheme::Kebab => seq!['-'],
    }
}

pub open spec fn joined(ws: Seq<Seq<char>>, d: Seq<char>) -> Seq<char>
    decreases ws.len(),
{
    if ws.len() == 0 {
        seq![]
    } else if ws.len() == 1 {
        ws[0]
    } else {
        ws[0] + d + joined(ws.drop_first(), d)
    }
}

/// The conversion of ASCII text `s` to `scheme`.
pub open spec fn ascii_cased(s: Seq<char>, scheme: NamingScheme) -> Seq<char> {
    joined(styled(words(s), scheme), delimiter_of(scheme))
}

/// Text made of delimiters alone holds no words from `i` on.
proof fn lemma_delimiters_hold_no_words(s: Seq<char>, i: int)
    requires
        0 <= i <= s.len(),
        forall|j: int| 0 <= j < s.len() ==> is_delimiter(#[trigger] s[j]),
    ensures
        words_from(s, i, seq![]) == Seq::<Seq<char>>::empty(),
    decreases s.len() - i,
{
    if i < s.len() {
        lemma_delimiters_hold_no_words(s, i + 1);
        assert(kept(seq![]) =~= Seq::<Seq<char>>::empty());
        assert(words_from(s, i, seq![]) =~= Seq::<Seq<char>>::empty());
    }
}

/// Text made of delimiters alone, the empty text included, converts to the
/// empty string in every scheme.
pub proof fn lemma_delimiters_convert_to_empty(s: Seq<char>, scheme: NamingScheme)
    requires
        forall|j: int| 0 <= j < s.len() ==> is_delimiter(#[trigger] s[j]),
    ensures
        ascii_cased(s, scheme) == Seq::<char>::empty(),
{
    lemma_delimiters_hold_no_words(s, 0);
    assert(styled(words(s), scheme) =~= Seq::<Seq<char>>::empty());
}

proof fn lemma_lowered_capitalized(w: Seq<char>)
    ensures
        lowered(capitalized(w)) == lowered(w),
        lowered(lowered(w)) == lowered(w),
{
    assert(lowered(lowered(w)) =~= lowered(w));
    if w.len() > 0 {
        assert(lowered(capitalized(w)) =~= lowered(w));
    }
}

/// Every scheme yields the same number of words from a text, and the same
/// words up to letter case: recombining changes case and separators only.
pub proof fn lemma_words_same_for_every_scheme(s: Seq<char>, a: NamingScheme, b: NamingScheme)
    ensures
        styled(words(s), a).len() == words(s).len(),
        styled(words(s), a).len() == styled(words(s), b).len(),
        forall|i: int|
            0 <= i < words(s).len() ==> lowered(#[trigger] styled(words(s), a)[i]) == lowered(
                words(s)[i],
            ) && lowered(styled(words(s), b)[i]) == lowered(words(s)[i]),
{
    assert forall|i: int| 0 <= i < words(s).len() implies lowered(
        #[trigger] styled(words(s), a)[i],
    ) == lowered(words(s)[i]) && lowered(styled(words(s), b)[i]) == lowered(words(s)[i]) by {
        lemma_lowered_capitalized(words(s)[i]);
    }
}

/// `s` written as lowercase words joined by `d`: only lowercase letters,
/// digits and `d`, with no `d` first or last and never two in a row. With `_`
/// this is snake_case, with `-` kebab-case.
pub open spec fn is_lower_joined_by(s: Seq<char>, d: char) -> bool {
    &&& forall|i: int| 0 <= i < s.len() ==> is_lower(#[trigger] s[i]) || is_digit(s[i]) || s[i] == d
    &&& s.len() > 0 ==> s[0] != d && s[s.len() - 1] != d
    &&& forall|i: int| 0 <= i < s.len() - 1 ==> !(#[trigger] s[i] == d && s[i + 1] == d)
}

/// Splitting such text from the start of a word at `k` gives words that hold
/// no uppercase letter and join back by `d` to the rest of the text.
proof fn lemma_lower_joined_words(s: Seq<char>, d: char, k: int, i: int)
    requires
        d == '_' || d == '-',
        is_lower_joined_by(s, d),
        0 <= k <= i <= s.len(),
        k < s.len(),
        k == 0 || s[k - 1] == d,
        forall|j: int| k <= j < i ==> s[j] != d,
    ensures
        words_from(s, i, s.subrange(k, i)).len() > 0,
        joined(words_from(s, i, s.subrange(k, i)), seq![d]) == s.subrange(k, s.len() as int),
        forall|j: int|
            0 <= j < words_from(s, i, s.subrange(k, i)).len() ==> lowered(
                #[trigger] words_from(s, i, s.subrange(k, i))[j],
            ) == words_from(s, i, s.subrange(k, i))[j],
    decreases s.len() - i,
{
    let acc = s.subrange(k, i);
    if k > 0 {
        assert(s[k - 1] == d);
    }
    assert(s[k] != d);
    if i == s.len() {
        assert(lowered(acc) =~= acc);
        assert(words_from(s, i, acc) =~= seq![acc]);
    } else if s[i] == d {
        assert(i > k);
        assert(i + 1 < s.len());
        assert(s[i + 1] != d);
        assert(s.subrange(i + 1, i + 1) =~= Seq::<char>::empty());
        lemma_lower_joined_words(s, d, i + 1, i + 1);
        let rest = words_from(s, i + 1, seq![]);
        let ws = words_from(s, i, acc);
        assert(ws =~= seq![acc] + rest);
        assert(ws.drop_first() =~= rest);
        assert(lowered(acc) =~= acc);
        assert(joined(ws, seq![d]) == acc + seq![d] + joined(rest, seq![d]));
        assert(s.subrange(k, s.len() as int) =~= acc + seq![d] + s.subrange(
            i + 1,
            s.len() as int,
        ));
        assert forall|j: int| 0 <= j < ws.len() implies lowered(#[trigger] ws[j]) == ws[j] by {
            if j > 0 {
                assert(ws[j] == rest[j - 1]);
            }
        }
    } else {
        assert(acc.push(s[i]) =~= s.subrange(k, i + 1));
        lemma_lower_joined_words(s, d, k, i + 1);
    }
}

/// A name already in snake_case, or in kebab-case, converts to itself in
/// that scheme.
proof fn lemma_lower_joined_unchanged(s: Seq<char>, scheme: NamingScheme)
    requires
        (scheme == NamingScheme::Snake && is_lower_joined_by(s, '_')) || (scheme
            == NamingScheme::Kebab && is_lower_joined_by(s, '-')),
    ensures
        is_ascii_text(s),
        ascii_cased(s, scheme) == s,
{
    let d = if scheme == NamingScheme::Snake {
        '_'
    } else {
        '-'
    };
    assert(delimiter_of(scheme) == seq![d]);
    if s.len() == 0 {
        assert(words(s) =~= Seq::<Seq<char>>::empty());
        assert(styled(words(s), scheme) =~= Seq::<Seq<char>>::empty());
        assert(s =~= Seq::<char>::empty());
    } else {
        assert(s.subrange(0, 0) =~= Seq::<char>::empty());
        lemma_lower_joined_words(s, d, 0, 0);
        assert(styled(words(s), scheme) =~= words(s));
        assert(s.subrange(0, s.len() as int) =~= s);
    }
}

/// `s` written as words run together, each after the first starting with an
/// uppercase letter: only letters and digits, never two uppercase letters in
/// a row, and the first character uppercase exactly when `first_upper`. With
/// `false` this is camelCase, with `true` PascalCase.
pub open spec fn is_capitals_joined(s: Seq<char>, first_upper: bool) -> bool {
    &&& forall|i: int|
        0 <= i < s.len() ==> is_upper(#[trigger] s[i]) || is_lower(s[i]) || is_digit(s[i])
    &&& s.len() > 0 ==> is_upper(s[0]) == first_upper
    &&& forall|i: int| 0 <= i < s.len() - 1 ==> !(is_upper(#[trigger] s[i]) && is_upper(s[i + 1]))
}

/// Splitting such text from the start of a word at `k` gives words that run
/// together back to the rest of the text; each word after the first is
/// capitalized, and so is the first when it starts with an uppercase letter.
proof fn lemma_capitals_joined_words(s: Seq<char>, first_upper: bool, k: int, i: int)
    requires
        is_capitals_joined(s, first_upper),
        0 <= k <= i <= s.len(),
        k < s.len(),
        k == 0 || is_upper(s[k]),
        forall|j: int| k < j < i ==> !is_upper(s[j]),
    ensures
        words_from(s, i, s.subrange(k, i)).len() > 0,
        joined(words_from(s, i, s.subrange(k, i)), seq![]) == s.subrange(k, s.len() as int),
        is_upper(s[k]) ==> capitalized(words_from(s, i, s.subrange(k, i))[0]) == words_from(
            s,
            i,
            s.subrange(k, i),
        )[0],
        !is_upper(s[k]) ==> lowered(words_from(s, i, s.subrange(k, i))[0]) == words_from(
            s,
            i,
            s.subrange(k, i),
        )[0],
        forall|j: int|
            0 < j < words_from(s, i, s.subrange(k, i)).len() ==> capitalized(
                #[trigger] words_from(s, i, s.subrange(k, i))[j],
            ) == words_from(s, i, s.subrange(k, i))[j],
    decreases s.len() - i,
{
    let acc = s.subrange(k, i);
    if i == s.len() {
        assert(words_from(s, i, acc) =~= seq![acc]);
        if is_upper(s[k]) {
            assert(capitalized(acc) =~= acc);
        } else {
            assert(lowered(acc) =~= acc);
        }
    } else if i > k && is_upper(s[i]) {
        assert(!is_upper(s[i - 1]));
        assert(starts_word(s, i));
        assert(s.subrange(i, i + 1) =~= seq![s[i]]);
        lemma_capitals_joined_words(s, first_upper, i, i + 1);
        let rest = words_from(s, i + 1, seq![s[i]]);
        let ws = words_from(s, i, acc);
        assert(ws =~= seq![acc] + rest);
        assert(ws.drop_first() =~= rest);
        assert(joined(ws, seq![]) == acc + seq![] + joined(rest, seq![]));
        assert(s.subrange(k, s.len() as int) =~= acc + seq![] + s.subrange(i, s.len() as int));
        if is_upper(s[k]) {
            assert(capitalized(acc) =~= acc);
        } else {
            assert(lowered(acc) =~= acc);
        }
        assert forall|j: int| 0 < j < ws.len() implies capitalized(#[trigger] ws[j]) == ws[j] by {
            assert(ws[j] == rest[j - 1]);
        }
    } else {
        assert(!is_delimiter(s[i]));
        assert(acc.push(s[i]) =~= s.subrange(k, i + 1));
        if i == k && starts_word(s, i) {
            assert(acc =~= Seq::<char>::empty());
            assert(kept(acc) =~= Seq::<Seq<char>>::empty());
            assert(acc.push(s[i]) =~= seq![s[i]]);
            let tail = words_from(s, i + 1, seq![s[i]]);
            assert(words_from(s, i, acc) == kept(acc) + tail);
            assert(kept(acc) + tail =~= tail);
        }
        lemma_capitals_joined_words(s, first_upper, k, i + 1);
    }
}

/// A name already in camelCase, or in PascalCase, converts to itself in that
/// scheme.
proof fn lemma_capitals_joined_unchanged(s: Seq<char>, scheme: NamingScheme)
    requires
        (scheme == NamingScheme::Camel && is_capitals_joined(s, false)) || (scheme
            == NamingScheme::Pascal && is_capitals_joined(s, true)),
    ensures
        is_ascii_text(s),
        ascii_cased(s, scheme) == s,
{
    let first_upper = scheme == NamingScheme::Pascal;
    assert(delimiter_of(scheme) =~= Seq::<char>::empty());
    if s.len() == 0 {
        assert(words(s) =~= Seq::<Seq<char>>::empty());
        assert(styled(words(s), scheme) =~= Seq::<Seq<char>>::empty());
        assert(s =~= Seq::<char>::empty());
    } else {
        assert(s.subrange(0, 0) =~= Seq::<char>::empty());
        lemma_capitals_joined_words(s, first_upper, 0, 0);
        assert(styled(words(s), scheme) =~= words(s));
        assert(s.subrange(0, s.len() as int) =~= s);
    }
}

/// Whether `s` is already written in `scheme`.
pub open spec fn in_canonical_form(s: Seq<char>, scheme: NamingScheme) -> bool {
    match scheme {
        NamingScheme::Camel => is_capitals_joined(s, false),
        NamingScheme::Pascal => is_capitals_joined(s, true),
        NamingScheme::Snake => is_lower_joined_by(s, '_'),
        NamingScheme::Kebab => is_lower_joined_by(s, '-'),
    }
}

/// Converting a name that is already written in a scheme to that scheme
/// gives the name back.
pub proof fn lemma_canonical_form_unchanged(s: Seq<char>, scheme: NamingScheme)
    requires
        in_canonical_form(s, scheme),
    ensures
        is_ascii_text(s),
        ascii_cased(s, scheme) == s,
{
    match scheme {
        NamingScheme::Camel => lemma_capitals_joined_unchanged(s, scheme),
        NamingScheme::Pascal => lemma_capitals_joined_unchanged(s, scheme),
        NamingScheme::Snake => lemma_lower_joined_unchanged(s, scheme),
        NamingScheme::Kebab => lemma_lower_joined_unchanged(s, scheme),
    }
}

proof fn lemma_spaced_words_from(s: Seq<char>, t: Seq<char>, i: int, w: Seq<char>)
    requires
        t.len() == s.len(),
        forall|j: int| 0 <= j < s.len() ==> #[trigger] t[j] == spaced_char(s[j]),
    ensures
        words_from(t, i, w) == words_from(s, i, w),
    decreases s.len() - i,
{
    if 0 <= i < s.len() {
        assert(t[i] == spaced_char(s[i]));
        if i >= 1 {
            assert(t[i - 1] == spaced_char(s[i - 1]));
        }
        if i + 1 < s.len() {
            assert(t[i + 1] == spaced_char(s[i + 1]));
        }
        assert(starts_word(t, i) == starts_word(s, i));
        lemma_spaced_words_from(s, t, i + 1, seq![]);
        lemma_spaced_words_from(s, t, i + 1, seq![s[i]]);
        lemma_spaced_words_from(s, t, i + 1, w.push(s[i]));
    }
}

/// Replacing every separating character by a space changes no word, and
/// leaves text of letters, digits and spaces alone.
pub proof fn lemma_spacing_keeps_words(s: Seq<char>, t: Seq<char>, scheme: NamingScheme)
    requires
        t.len() == s.len(),
        forall|j: int| 0 <= j < s.len() ==> #[trigger] t[j] == spaced_char(s[j]),
    ensures
        is_spaced_text(t),
        words(t) == words(s),
        ascii_cased(t, scheme) == ascii_cased(s, scheme),
{
    assert forall|j: int| 0 <= j < t.len() implies is_word_char(#[trigger] t[j]) || t[j]
        == ' ' by {
        assert(t[j] == spaced_char(s[j]));
    }
    lemma_spaced_words_from(s, t, 0, seq![]);
}

} // verus!
