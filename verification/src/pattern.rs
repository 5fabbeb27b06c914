//! The `owner/name` pattern and what it finds in the text of a list item.

use crate::repository::{Identity, Repository};
use regex::Regex;
use vstd::prelude::*;
use vstd::string::{StrSliceExecFns, StringExecFns};

verus! {

/// The pattern of a reference: one or more characters that are neither a
/// slash nor white space, a slash, then one or more characters that are
/// neither a slash, white space nor a closing parenthesis.
pub const REFERENCE_PATTERN: &'static str = r"([^/\s]+)/([^/\s)]+)";

/// Why no reference could be looked for.
#[derive(Debug)]
pub enum ExtractError {
    /// The pattern engine refused [`REFERENCE_PATTERN`].
    PatternRefused,
}

/// Whether a character has the Unicode property `White_Space`.
pub open spec fn is_white_space(c: char) -> bool {
    ||| '\u{9}' <= c <= '\u{d}'
    ||| c == ' '
    ||| c == '\u{85}'
    ||| c == '\u{a0}'
    ||| c == '\u{1680}'
    ||| '\u{2000}' <= c <= '\u{200a}'
    ||| c == '\u{2028}'
    ||| c == '\u{2029}'
    ||| c == '\u{202f}'
    ||| c == '\u{205f}'
    ||| c == '\u{3000}'
}

/// Whether a text holds nothing but white space.
pub open spec fn is_blank(text: Seq<char>) -> bool {
    forall|i: int| 0 <= i < text.len() ==> is_white_space(#[trigger] text[i])
}

/// Whether a character has the Unicode property `White_Space`.
pub fn white_space(c: char) -> (white: bool)
    ensures
        white == is_white_space(c),
{
    ('\u{9}' <= c && c <= '\u{d}') || c == ' ' || c == '\u{85}' || c == '\u{a0}' || c
        == '\u{1680}' || ('\u{2000}' <= c && c <= '\u{200a}') || c == '\u{2028}' || c
        == '\u{2029}' || c == '\u{202f}' || c == '\u{205f}' || c == '\u{3000}'
}

/// Whether a text holds nothing but white space.
pub fn blank(text: &str) -> (all_white: bool)
    ensures
        all_white == is_blank(text@),
{
    let length: usize = text.unicode_len();
    let mut position: usize = 0;
    while position < length
        invariant
            length == text@.len(),
            position <= length,
            forall|i: int| 0 <= i < position ==> is_white_space(#[trigger] text@[i]),
        decreases length - position,
    {
        if !white_space(text.get_char(position)) {
            return false;
        }
        position += 1;
    }
    true
}

/// The two groups of a match, each absent where it took no part in the match.
pub type Groups = (Option<Seq<char>>, Option<Seq<char>>);

/// Whether the pattern engine accepts a pattern.
pub uninterp spec fn pattern_compiles(pattern: Seq<char>) -> bool;

/// The first and second capture group of the leftmost match of a pattern in a
/// text, or `None` where the pattern matches nowhere in it.
pub uninterp spec fn first_match(pattern: Seq<char>, text: Seq<char>) -> Option<Groups>;

/// The characters of what a search returned.
pub open spec fn groups_view(found: Option<(Option<String>, Option<String>)>) -> Option<Groups> {
    match found {
        Some((first, second)) => Some(
            (
                match first {
                    Some(group) => Some(group@),
                    None => None,
                },
                match second {
                    Some(group) => Some(group@),
                    None => None,
                },
            ),
        ),
        None => None,
    }
}

/// The pattern engine's error, `regex::Error`: carried, never looked into.
#[verifier::external_type_specification]
#[verifier::external_body]
pub struct ExPatternError(regex::Error);

/// Compiles a pattern with `regex::Regex::new` and searches a text for its
/// leftmost match with `Regex::captures`, reading groups 1 and 2 of it with
/// `Captures::get`. Believed, not proved: whether the pattern compiles depends
/// on the pattern alone ([`pattern_compiles`]), and what the search finds on
/// the pattern and the text alone ([`first_match`]).
#[verifier::external_body]
pub(crate) fn search(pattern: &str, text: &str) -> (found: Result<
    Option<(Option<String>, Option<String>)>,
    regex::Error,
>)
    ensures
        found is Ok <==> pattern_compiles(pattern@),
        found is Ok ==> groups_view(found->Ok_0) == first_match(pattern@, text@),
{
    let compiled = Regex::new(pattern)?;
    Ok(
        compiled.captures(text).map(
            |captures|
                (
                    captures.get(1).map(|group| group.as_str().to_string()),
                    captures.get(2).map(|group| group.as_str().to_string()),
                ),
        ),
    )
}

/// The reference that a match stands for: its first group is the owner, its
/// second the name. No match, or a match without both groups, stands for none.
pub open spec fn reference_of(found: Option<Groups>) -> Option<Identity> {
    match found {
        Some((Some(owner), Some(name))) => Some(Identity { owner, name }),
        _ => None,
    }
}

/// The reference in the text of a list item: none in a blank text, else that
/// of the leftmost match of [`REFERENCE_PATTERN`].
pub open spec fn reference_in(text: Seq<char>) -> Option<Identity> {
    if is_blank(text) {
        None
    } else {
        reference_of(first_match(REFERENCE_PATTERN@, text))
    }
}

/// The references in the texts of a sequence of list items, in order. An item
/// without a reference adds nothing.
pub open spec fn references_in(texts: Seq<Seq<char>>) -> Seq<Identity>
    decreases texts.len(),
{
    if texts.len() == 0 {
        Seq::empty()
    } else {
        let before = references_in(texts.drop_last());
        match reference_in(texts.last()) {
            Some(reference) => before.push(reference),
            None => before,
        }
    }
}

impl Repository {
    /// Turns what a search found into a reference: the first group is the
    /// owner, the second the name.
    pub fn from_match(found: Option<(Option<String>, Option<String>)>) -> (reference: Option<
        Repository,
    >)
        ensures
            reference is Some <==> reference_of(groups_view(found)) is Some,
            reference is Some ==> reference->Some_0@ == reference_of(groups_view(found))->Some_0,
    {
        match found {
            Some((Some(user), Some(name))) => Some(Repository { name, user }),
            _ => None,
        }
    }
}

} // verus!
