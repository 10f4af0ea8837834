//! The calls into the regex crate, and the quoting of literal text for its
//! patterns. What a regular expression matches is not modelled here: each
//! search has a name, and the contracts of the callers are stated over
//! those names.
use crate::text::chars_of;
use vstd::prelude::*;

verus! {

/// Whether the regular expression `pattern` matches anywhere in `haystack`.
/// A pattern that does not compile matches nowhere.
pub uninterp spec fn regex_matches(pattern: Seq<char>, haystack: Seq<char>) -> bool;

/// The capture groups of the leftmost match of `pattern` in `haystack`, group 0
/// (the whole match) first, then the groups in the order of their opening
/// parentheses. A group that took no part in the match is `None`. The result
/// is `None` where nothing matches or the pattern does not compile.
pub uninterp spec fn regex_captures(pattern: Seq<char>, multi_line: bool, haystack: Seq<char>) -> Option<
    Seq<Option<Seq<char>>>,
>;

/// The capture groups of each of the successive non-overlapping matches of
/// `pattern` in `haystack`, leftmost first. Empty where nothing matches or
/// the pattern does not compile.
pub uninterp spec fn regex_all_captures(pattern: Seq<char>, multi_line: bool, haystack: Seq<char>) -> Seq<
    Seq<Option<Seq<char>>>,
>;

/// Whether `c` has a meaning of its own in a regular expression: the
/// eighteen meta characters of the regex crate's syntax.
pub open spec fn is_meta_character(c: char) -> bool {
    c == '\\' || c == '.' || c == '+' || c == '*' || c == '?' || c == '(' || c == ')' || c == '|'
        || c == '[' || c == ']' || c == '{' || c == '}' || c == '^' || c == '$' || c == '#'
        || c == '&' || c == '-' || c == '~'
}

/// `s` with a backslash in front of each meta character.
pub open spec fn escaped(s: Seq<char>) -> Seq<char>
    decreases s.len(),
{
    if s.len() == 0 {
        s
    } else if is_meta_character(s.last()) {
        escaped(s.drop_last()).push('\\').push(s.last())
    } else {
        escaped(s.drop_last()).push(s.last())
    }
}

/// The text of each group of one match.
pub open spec fn groups_view(groups: Seq<Option<&str>>) -> Seq<Option<Seq<char>>> {
    Seq::new(
        groups.len(),
        |i: int|
            match groups[i] {
                Some(s) => Some(s@),
                None => None,
            },
    )
}

/// The text of each group of an optional match.
pub open spec fn captures_view(found: Option<Vec<Option<&str>>>) -> Option<Seq<Option<Seq<char>>>> {
    match found {
        Some(groups) => Some(groups_view(groups@)),
        None => None,
    }
}

/// The text of each group of each match of a list.
pub open spec fn matches_view(all: Seq<Vec<Option<&str>>>) -> Seq<Seq<Option<Seq<char>>>> {
    Seq::new(all.len(), |i: int| groups_view(all[i]@))
}

/// `Regex::is_match` of the regex crate, on a pattern compiled by
/// `Regex::new`. The result is the one that `regex_matches` names.
#[verifier::external_body]
pub(crate) fn is_match(pattern: &str, haystack: &str) -> (found: bool)
    ensures
        found == regex_matches(pattern@, haystack@),
{
    match regex::Regex::new(pattern) {
        Ok(re) => re.is_match(haystack),
        Err(_) => false,
    }
}

/// `Regex::captures` of the regex crate, on a pattern built by `RegexBuilder`
/// with its multi-line switch as given; each group is handed out as the text
/// it matched. The result is the one that `regex_captures` names.
#[verifier::external_body]
pub(crate) fn captures<'h>(pattern: &str, multi_line: bool, haystack: &'h str) -> (found: Option<
    Vec<Option<&'h str>>,
>)
    ensures
        captures_view(found) == regex_captures(pattern@, multi_line, haystack@),
{
    let re = regex::RegexBuilder::new(pattern).multi_line(multi_line).build().ok()?;
    let groups = re.captures(haystack)?;
    Some(groups.iter().map(|group| group.map(|m| m.as_str())).collect())
}

/// `Regex::captures_iter` of the regex crate, on a pattern built by
/// `RegexBuilder` with its multi-line switch as given; each group of each
/// match is handed out as the text it matched. The result is the one that
/// `regex_all_captures` names.
#[verifier::external_body]
pub(crate) fn captures_iter<'h>(pattern: &str, multi_line: bool, haystack: &'h str) -> (all: Vec<
    Vec<Option<&'h str>>,
>)
    ensures
        matches_view(all@) == regex_all_captures(pattern@, multi_line, haystack@),
{
    match regex::RegexBuilder::new(pattern).multi_line(multi_line).build() {
        Ok(re) => re.captures_iter(haystack).map(
            |groups| groups.iter().map(|group| group.map(|m| m.as_str())).collect(),
        ).collect(),
        Err(_) => Vec::new(),
    }
}

/// Whether `c` is a meta character.
pub fn is_meta(c: char) -> (meta: bool)
    ensures
        meta == is_meta_character(c),
{
    c == '\\' || c == '.' || c == '+' || c == '*' || c == '?' || c == '(' || c == ')' || c == '|'
        || c == '[' || c == ']' || c == '{' || c == '}' || c == '^' || c == '$' || c == '#'
        || c == '&' || c == '-' || c == '~'
}

/// Quotes `text` for use in a pattern: a backslash goes in front of every
/// meta character, and nothing else changes. The regex crate's `escape`
/// gives the same text.
pub fn escape(text: &str) -> (quoted: String)
    ensures
        quoted@ == escaped(text@),
{
    let chars = chars_of(text);
    let mut quoted = String::new();
    let mut i: usize = 0;
    proof {
        assert(chars@.take(0) =~= Seq::<char>::empty());
    }
    while i < chars.len()
        invariant
            i <= chars.len(),
            chars@ == text@,
            quoted@ == escaped(chars@.take(i as int)),
        decreases chars.len() - i,
    {
        proof {
            assert(chars@.take(i + 1).drop_last() =~= chars@.take(i as int));
            assert(chars@.take(i + 1).last() == chars@[i as int]);
        }
        if is_meta(chars[i]) {
            quoted.push('\\');
        }
        quoted.push(chars[i]);
        i += 1;
    }
    proof {
        assert(chars@.take(chars.len() as int) =~= chars@);
    }
    quoted
}

} // verus!
