//! Regular expressions, by the `regex` crate.
use crate::text::without_c0_controls;
use vstd::prelude::*;

verus! {

/// What `regex::Regex::new(pattern)` followed by `replace_all(text, replacement)`
/// gives: `None` when the pattern does not compile.
pub uninterp spec fn regex_replace_all_of(pattern: Seq<char>, text: Seq<char>, replacement: Seq<char>) -> Option<Seq<char>>;

/// What `regex::Regex::new(pattern)` followed by `captures_iter(text)` gives:
/// for each match, its capture groups in order (group 0 is the whole match,
/// `None` for a group that did not take part); `None` when the pattern does
/// not compile.
pub uninterp spec fn regex_captures_of(pattern: Seq<char>, text: Seq<char>) -> Option<Seq<Seq<Option<Seq<char>>>>>;

/// Compiles `pattern` with `regex::Regex::new` and replaces every
/// non-overlapping match in `text` by `replacement` (`Regex::replace_all`).
/// The result is named by [`regex_replace_all_of`]; `None` when the pattern
/// is refused. The class `[\x00-\x1F]` compiles and matches exactly the
/// characters U+0000 to U+001F, one at a time, and an empty replacement
/// (which holds no `$` group reference) puts nothing in their place: with
/// that pattern and replacement the result is the text without them.
#[verifier::external_body]
pub(crate) fn regex_replace_all(pattern: &str, text: &str, replacement: &str) -> (r: Option<String>)
    ensures
        match r {
            Some(s) => regex_replace_all_of(pattern@, text@, replacement@) == Some(s@),
            None => regex_replace_all_of(pattern@, text@, replacement@) is None,
        },
        pattern@ == "[\\x00-\\x1F]"@ && replacement@ == ""@ ==> r is Some && r->0@ == without_c0_controls(text@),
{
    match regex::Regex::new(pattern) {
        Ok(re) => Some(re.replace_all(text, replacement).into_owned()),
        Err(_) => None,
    }
}

/// Compiles `pattern` with `regex::Regex::new` and collects the capture
/// groups of each match of `Regex::captures_iter` over `text`. The result is
/// named by [`regex_captures_of`]; of each match the first group (index 0)
/// is always present, as the crate documents for `Captures::iter`.
#[verifier::external_body]
pub(crate) fn regex_captures(pattern: &str, text: &str) -> (r: Option<Vec<Vec<Option<String>>>>)
    ensures
        match r {
            Some(all) => {
                &&& regex_captures_of(pattern@, text@) == Some(
                    all@.map_values(|g: Vec<Option<String>>| g@.map_values(|m: Option<String>| match m {
                        Some(s) => Some(s@),
                        None => None,
                    })),
                )
                &&& forall|i: int| 0 <= i < all@.len() ==> (#[trigger] all@[i])@.len() > 0 && all@[i]@[0] is Some
            },
            None => regex_captures_of(pattern@, text@) is None,
        },
{
    let re = match regex::Regex::new(pattern) {
        Ok(re) => re,
        Err(_) => return None,
    };
    let mut all = Vec::new();
    for caps in re.captures_iter(text) {
        let mut groups = Vec::new();
        for m in caps.iter() {
            groups.push(m.map(|m| m.as_str().to_string()));
        }
        all.push(groups);
    }
    Some(all)
}

} // verus!
