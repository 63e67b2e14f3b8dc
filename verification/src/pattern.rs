//! Regular expressions, as far as the library uses them: what the first group
//! of a pattern captures in a text.

use regex::Regex;
use vstd::prelude::*;

verus! {

/// What the first capture group of the regular expression `pattern` holds for
/// the leftmost match of `pattern` in `text`. It is `None` where `pattern` is
/// no regular expression, where it matches nowhere in `text`, and where the
/// match leaves the group out.
pub uninterp spec fn first_group(pattern: Seq<char>, text: Seq<char>) -> Option<Seq<char>>;

/// The text of what was captured.
pub open spec fn captured_text(captured: Option<String>) -> Option<Seq<char>> {
    match captured {
        Some(name) => Some(name@),
        None => None,
    }
}

/// Compiles `pattern` once with `regex::Regex::new`, searches each of `texts`
/// with `Regex::captures` and hands out the text of group 1 (`Captures::get`,
/// `Match::as_str`), text by text. The contract gives each result its name,
/// `first_group`; it claims that the result depends on the pattern and the
/// text alone.
#[verifier::external_body]
pub(crate) fn capture_first_groups(pattern: &str, texts: &Vec<String>) -> (found: Vec<
    Option<String>,
>)
    ensures
        found@.len() == texts@.len(),
        forall|i: int|
            0 <= i < texts@.len() ==> captured_text(#[trigger] found@[i]) == first_group(
                pattern@,
                texts@[i]@,
            ),
{
    match Regex::new(pattern) {
        Ok(re) => texts.iter().map(
            |text| re.captures(text).and_then(|caps| caps.get(1)).map(|m| m.as_str().to_string()),
        ).collect(),
        Err(_) => texts.iter().map(|_| None).collect(),
    }
}

} // verus!
