//! Application tags: the short names under which applications are registered.

use vstd::prelude::*;
use crate::text::str_eq;

verus! {

/// The grammar of a tag as a regular expression: lower case, a letter first,
/// words of letters and digits separated by single `-` or `_`.
pub const APP_TAG_PATTERN: &'static str = "^[a-z][a-z0-9]*([-_][a-z0-9]+)*$";

/// The tag of the launcher itself.
pub const LAUNCHER_TAG: &'static str = "wexe";

/// The tag of the management tool.
pub const MANAGER_TAG: &'static str = "wexecfg";

pub open spec fn is_tag_letter(c: char) -> bool {
    'a' <= c && c <= 'z'
}

pub open spec fn is_tag_digit(c: char) -> bool {
    '0' <= c && c <= '9'
}

pub open spec fn is_tag_separator(c: char) -> bool {
    c == '-' || c == '_'
}

/// A legal tag: not empty, made of lower-case letters, digits, `-` and `_`,
/// starting with a letter, not ending in a separator, and with no two
/// separators side by side.
pub open spec fn is_app_tag(s: Seq<char>) -> bool {
    &&& s.len() > 0
    &&& is_tag_letter(s[0])
    &&& !is_tag_separator(s[s.len() - 1])
    &&& forall|i: int|
        0 <= i < s.len() ==> is_tag_letter(#[trigger] s[i]) || is_tag_digit(s[i])
            || is_tag_separator(s[i])
    &&& forall|i: int, j: int|
        #![trigger s[i], s[j]]
        0 <= i && j == i + 1 && j < s.len() ==> !(is_tag_separator(s[i]) && is_tag_separator(
            s[j],
        ))
}

/// One of the two tags that no application may be registered under.
pub open spec fn is_reserved(s: Seq<char>) -> bool {
    s == LAUNCHER_TAG@ || s == MANAGER_TAG@
}

/// A tag under which an application may be registered.
pub open spec fn is_registrable(s: Seq<char>) -> bool {
    is_app_tag(s) && !is_reserved(s)
}

/// `regex::Regex::new` on `pattern`, then `Regex::is_match` on `haystack`;
/// `None` where the pattern does not compile. For the tag pattern the
/// expression's syntax gives the language directly: anchored at both ends,
/// one letter, any letters and digits, then groups of one separator followed
/// by at least one letter or digit. Of other patterns nothing is claimed.
#[verifier::external_body]
fn regex_is_match(pattern: &str, haystack: &str) -> (r: Option<bool>)
    ensures
        pattern@ == APP_TAG_PATTERN@ ==> r == Some(is_app_tag(haystack@)),
{
    match regex::Regex::new(pattern) {
        Ok(re) => Some(re.is_match(haystack)),
        Err(_) => None,
    }
}

/// Whether `tag` is a legal application tag.
pub fn is_valid_app_tag(tag: &str) -> (r: bool)
    ensures
        r == is_app_tag(tag@),
{
    match regex_is_match(APP_TAG_PATTERN, tag) {
        Some(found) => found,
        None => false,
    }
}

/// Whether `tag` names the launcher or the management tool.
pub fn is_reserved_tag(tag: &str) -> (r: bool)
    ensures
        r == is_reserved(tag@),
{
    str_eq(tag, LAUNCHER_TAG) || str_eq(tag, MANAGER_TAG)
}

/// What can never be a tag: the empty string, a string that starts with a
/// digit or a separator, a string with a character outside the lower-case
/// letters, digits and the two separators at position `i` (an upper-case
/// letter, say), a string with separators at `i` and `i + 1`, and a string
/// that ends in a separator.
pub proof fn lemma_not_a_tag(s: Seq<char>, i: int)
    ensures
        s.len() == 0 ==> !is_app_tag(s),
        s.len() > 0 && (is_tag_digit(s[0]) || is_tag_separator(s[0])) ==> !is_app_tag(s),
        0 <= i < s.len() && 'A' <= s[i] && s[i] <= 'Z' ==> !is_app_tag(s),
        0 <= i < s.len() && !(is_tag_letter(s[i]) || is_tag_digit(s[i]) || is_tag_separator(s[i]))
            ==> !is_app_tag(s),
        0 <= i && i + 1 < s.len() && is_tag_separator(s[i]) && is_tag_separator(s[i + 1])
            ==> !is_app_tag(s),
        s.len() > 0 && is_tag_separator(s[s.len() - 1]) ==> !is_app_tag(s),
{
    if 0 <= i && i + 1 < s.len() && is_tag_separator(s[i]) && is_tag_separator(s[i + 1]) {
        let j = i + 1;
        assert(is_tag_separator(s[i]) && is_tag_separator(s[j]));
    }
}

/// A word of letters and digits that starts with a letter is a tag, and two
/// tags joined by one separator make a tag.
pub proof fn lemma_tag_words(a: Seq<char>, sep: char, b: Seq<char>)
    requires
        is_app_tag(a),
        is_tag_separator(sep),
        b.len() > 0,
        forall|i: int| 0 <= i < b.len() ==> is_tag_letter(#[trigger] b[i]) || is_tag_digit(b[i]),
    ensures
        is_app_tag(a + seq![sep] + b),
{
    let s = a + seq![sep] + b;
    assert(s[0] == a[0]);
    assert(s[s.len() - 1] == b[b.len() - 1]);
    assert forall|i: int| 0 <= i < s.len() implies is_tag_letter(#[trigger] s[i]) || is_tag_digit(
        s[i],
    ) || is_tag_separator(s[i]) by {
        if i < a.len() {
            assert(s[i] == a[i]);
        } else if i == a.len() {
            assert(s[i] == sep);
        } else {
            assert(s[i] == b[i - a.len() - 1]);
        }
    }
    assert forall|i: int, j: int|
        #![trigger s[i], s[j]]
        0 <= i && j == i + 1 && j < s.len() implies !(is_tag_separator(s[i]) && is_tag_separator(
        s[j],
    )) by {
        if j < a.len() {
            assert(s[i] == a[i] && s[j] == a[j]);
        } else if j == a.len() {
            assert(s[i] == a[a.len() - 1]);
        } else if i == a.len() {
            assert(s[j] == b[0]);
        } else {
            assert(s[i] == b[i - a.len() - 1]);
        }
    }
}

} // verus!
