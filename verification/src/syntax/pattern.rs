use vstd::prelude::*;
use crate::text::is_part_of;

verus! {

#[verifier::external_type_specification]
#[verifier::external_body]
pub struct ExRegex(regex::Regex);

/// The pattern text that a compiled pattern was made from.
pub uninterp spec fn regex_source(re: regex::Regex) -> Seq<char>;

/// Whether a pattern text compiles.
pub uninterp spec fn regex_valid(source: Seq<char>) -> bool;

/// The texts of the first and the second capture group of the leftmost match
/// of a compiled pattern in `text`, where there is a match and both groups
/// take part in it.
pub uninterp spec fn regex_groups(re: regex::Regex, text: Seq<char>) -> Option<(Seq<char>, Seq<char>)>;

/// Whether a compiled pattern matches somewhere in `text`.
pub uninterp spec fn regex_is_match(re: regex::Regex, text: Seq<char>) -> bool;

/// Whether `c` has a meaning of its own in a pattern.
pub open spec fn is_meta_character(c: char) -> bool {
    c == '\\' || c == '.' || c == '+' || c == '*' || c == '?' || c == '(' || c == ')' || c == '|'
        || c == '[' || c == ']' || c == '{' || c == '}' || c == '^' || c == '$' || c == '#' || c
        == '&' || c == '-' || c == '~'
}

/// `text` with a backslash put before each character that has a meaning of
/// its own in a pattern.
pub open spec fn spec_escape(text: Seq<char>) -> Seq<char>
    decreases text.len(),
{
    if text.len() == 0 {
        Seq::empty()
    } else if is_meta_character(text.last()) {
        spec_escape(text.drop_last()).push('\\').push(text.last())
    } else {
        spec_escape(text.drop_last()).push(text.last())
    }
}

/// `regex::Regex::new`: compiles `source`. Whether it compiles depends on
/// `source` alone, and the compiled pattern remembers the text it was made
/// from.
#[verifier::external_body]
pub(crate) fn compile(source: &str) -> (r: Option<regex::Regex>)
    ensures
        r.is_some() == regex_valid(source@),
        r matches Some(re) ==> regex_source(re) == source@,
{
    regex::Regex::new(source).ok()
}

/// `regex::escape`: puts a backslash before each meta character of `text`
/// and leaves the other characters as they are.
#[verifier::external_body]
pub(crate) fn escape(text: &str) -> (r: String)
    ensures
        r@ == spec_escape(text@),
{
    regex::escape(text)
}

/// `regex::Regex::captures`, then `Captures::get` for the groups 1 and 2: the
/// texts of both groups where the pattern matches and both take part, a
/// function of the pattern and of `text`. Each is a part of `text`.
#[verifier::external_body]
pub(crate) fn groups(re: &regex::Regex, text: &str) -> (r: Option<(String, String)>)
    ensures
        match r {
            Some((first, second)) => regex_groups(*re, text@) == Some((first@, second@)) && is_part_of(
                first@,
                text@,
            ) && is_part_of(second@, text@),
            None => regex_groups(*re, text@).is_none(),
        },
{
    let captures = re.captures(text)?;
    Some((captures.get(1)?.as_str().to_string(), captures.get(2)?.as_str().to_string()))
}

/// `regex::Regex::find`: whether the pattern matches somewhere in `text`, a
/// function of the pattern and of `text`.
#[verifier::external_body]
pub(crate) fn is_match(re: &regex::Regex, text: &str) -> (r: bool)
    ensures
        r == regex_is_match(*re, text@),
{
    re.find(text).is_some()
}

} // verus!
