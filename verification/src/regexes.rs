//! Regular expressions, as the crate `regex` understands them.

use vstd::prelude::*;

verus! {

/// What `Regex::captures` finds: the groups of the first match, the whole match
/// first; `None` where the pattern does not compile or nothing matches.
pub uninterp spec fn captured(pattern: Seq<char>, text: Seq<char>) -> Option<
    Seq<Option<Seq<char>>>,
>;

/// Whether `Regex::is_match` finds the pattern in a text.
pub uninterp spec fn matching(pattern: Seq<char>, text: Seq<char>) -> bool;

/// What `Regex::new` says is wrong with a pattern; `None` for one that compiles.
pub uninterp spec fn pattern_error(pattern: Seq<char>) -> Option<Seq<char>>;

/// `regex::Regex::new` followed by `Regex::captures`. The groups are a function of the
/// pattern and the text alone.
#[verifier::external_body]
pub(crate) fn captures(pattern: &str, text: &str) -> (r: Option<Vec<Option<String>>>)
    ensures
        r.deep_view() == captured(pattern@, text@),
{
    let re = regex::Regex::new(pattern).ok()?;
    let caps = re.captures(text)?;
    Some(caps.iter().map(|m| m.map(|x| x.as_str().to_string())).collect())
}

/// `regex::Regex::new` followed by `Regex::is_match` on each text. The error and the
/// answers are functions of the pattern and of each text alone.
#[verifier::external_body]
pub(crate) fn match_each(pattern: &str, texts: &Vec<String>) -> (r: Result<Vec<bool>, String>)
    ensures
        match r {
            Ok(v) => pattern_error(pattern@) is None && v@.len() == texts@.len() && forall|i: int|
                0 <= i < v@.len() ==> #[trigger] v@[i] == matching(pattern@, texts@[i]@),
            Err(e) => pattern_error(pattern@) == Some(e@),
        },
{
    let re = regex::Regex::new(pattern).map_err(|e| e.to_string())?;
    Ok(texts.iter().map(|t| re.is_match(t)).collect())
}

} // verus!
