//! Text as sequences of characters: the few string operations the rest of the
//! library needs, each with its meaning stated over `Seq<char>`.

use vstd::prelude::*;
use vstd::std_specs::iter::IteratorSpec;

verus! {

broadcast use vstd::string::group_string_axioms;

/// Whether `pattern` stands in `text` at offset `at`.
pub open spec fn occurs_at(text: Seq<char>, pattern: Seq<char>, at: int) -> bool {
    &&& 0 <= at
    &&& at + pattern.len() <= text.len()
    &&& text.subrange(at, at + pattern.len()) == pattern
}

/// Whether `pattern` stands somewhere in `text`.
pub open spec fn has_substring(text: Seq<char>, pattern: Seq<char>) -> bool {
    exists|at: int| occurs_at(text, pattern, at)
}

/// Whether `at` is where the first `separator` of `text` stands, or the end
/// of a `text` that holds none.
pub open spec fn is_cut(text: Seq<char>, separator: char, at: int) -> bool {
    &&& 0 <= at <= text.len()
    &&& forall|k: int| 0 <= k < at ==> text[k] != separator
    &&& at < text.len() ==> text[at] == separator
}

/// The part of `text` in front of its first `separator`; all of `text` where
/// it holds none.
pub open spec fn before_separator(text: Seq<char>, separator: char) -> Seq<char> {
    text.take(choose|at: int| is_cut(text, separator, at))
}

/// Every text has a cut.
pub proof fn lemma_cut_exists(text: Seq<char>, separator: char)
    ensures
        exists|at: int| is_cut(text, separator, at),
{
    lemma_cut_from(text, separator, 0);
}

/// A text without a separator in front of `from` has a cut at `from` or behind it.
proof fn lemma_cut_from(text: Seq<char>, separator: char, from: int)
    requires
        0 <= from <= text.len(),
        forall|k: int| 0 <= k < from ==> text[k] != separator,
    ensures
        exists|at: int| is_cut(text, separator, at),
    decreases text.len() - from,
{
    if from == text.len() || text[from] == separator {
        assert(is_cut(text, separator, from));
    } else {
        lemma_cut_from(text, separator, from + 1);
    }
}

/// A text has one cut only, so any cut found gives the part in front of the
/// first separator.
pub proof fn lemma_before_separator(text: Seq<char>, separator: char, at: int)
    requires
        is_cut(text, separator, at),
    ensures
        before_separator(text, separator) == text.take(at),
{
    let chosen = choose|at: int| is_cut(text, separator, at);
    if chosen < at {
        assert(text[chosen] != separator);
    } else if at < chosen {
        assert(text[at] != separator);
    }
}

/// The part in front of the first separator starts the text, holds no
/// separator, and ends where the text ends or a separator stands.
pub proof fn lemma_before_separator_shape(text: Seq<char>, separator: char)
    ensures
        before_separator(text, separator).is_prefix_of(text),
        !before_separator(text, separator).contains(separator),
        before_separator(text, separator).len() < text.len() ==> text[before_separator(
            text,
            separator,
        ).len() as int] == separator,
{
    lemma_cut_exists(text, separator);
}

/// The characters of `text`, in order.
pub fn chars_of(text: &str) -> (chars: Vec<char>)
    ensures
        chars@ == text@,
{
    let mut chars: Vec<char> = Vec::new();
    let mut rest = text.chars();
    loop
        invariant
            rest.obeys_prophetic_iter_laws(),
            rest.decrease() is Some,
            chars@ + rest.remaining() == text@,
        decreases rest.decrease()->0,
    {
        match rest.next() {
            Some(c) => {
                chars.push(c);
            },
            None => {
                return chars;
            },
        }
    }
}

/// Whether `pattern` stands in `text` at offset `at`.
fn matches_at(text: &[char], pattern: &[char], at: usize) -> (matched: bool)
    requires
        at + pattern.len() <= text.len(),
    ensures
        matched == occurs_at(text@, pattern@, at as int),
{
    let mut j: usize = 0;
    while j < pattern.len()
        invariant
            j <= pattern.len(),
            at + pattern.len() <= text.len(),
            forall|k: int| 0 <= k < j ==> text[at + k] == pattern[k],
        decreases pattern.len() - j,
    {
        if text[at + j] != pattern[j] {
            return false;
        }
        j += 1;
    }
    assert(text@.subrange(at as int, at + pattern.len()) =~= pattern@);
    true
}

/// Whether `pattern` stands somewhere in `text`.
pub fn contains(text: &[char], pattern: &[char]) -> (found: bool)
    ensures
        found == has_substring(text@, pattern@),
{
    if pattern.len() > text.len() {
        return false;
    }
    let last: usize = text.len() - pattern.len();
    let mut at: usize = 0;
    loop
        invariant
            last == text.len() - pattern.len(),
            at <= last,
            forall|k: int| 0 <= k < at ==> !occurs_at(text@, pattern@, k),
        decreases last - at,
    {
        if matches_at(text, pattern, at) {
            return true;
        }
        if at == last {
            return false;
        }
        at += 1;
    }
}

/// The part of `text` in front of its first `separator`; all of `text` where
/// it holds none.
pub fn before<'a>(text: &'a str, separator: char) -> (prefix: &'a str)
    ensures
        prefix@ == before_separator(text@, separator),
{
    let chars = chars_of(text);
    let mut at: usize = 0;
    while at < chars.len() && chars[at] != separator
        invariant
            at <= chars.len(),
            forall|k: int| 0 <= k < at ==> chars[k] != separator,
        decreases chars.len() - at,
    {
        at += 1;
    }
    proof {
        lemma_before_separator(text@, separator, at as int);
    }
    text.substring_char(0, at)
}

} // verus!
