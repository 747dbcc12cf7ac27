//! Paths of keys, as users write them.

use crate::chars;
use crate::infra::pathname;
use crate::infra::pathname::{joined, Platform};
use crate::text;
use vstd::prelude::*;

verus! {

/// The path with `~/` or `~\` at its front replaced by the home directory, where that is
/// known; any other path as it is.
pub open spec fn expanded(path: Seq<char>, home: Option<Seq<char>>, p: Platform) -> Seq<char> {
    if home is Some && (chars::starts_with(path, "~/"@) || chars::starts_with(path, "~\\"@)) {
        joined(home->0, path.subrange(2, path.len() as int), p)
    } else {
        path
    }
}

pub fn expand_tilde(path: &str, home: Option<&str>, platform: Platform) -> (r: String)
    ensures
        r@ == expanded(path@, home.deep_view(), platform),
{
    proof {
        reveal_strlit("~/");
        reveal_strlit("~\\");
    }
    match home {
        Some(h) => {
            match text::strip_prefix(path, "~/") {
                Some(rest) => return pathname::join(h, rest, platform),
                None => {},
            }
            match text::strip_prefix(path, "~\\") {
                Some(rest) => return pathname::join(h, rest, platform),
                None => {},
            }
        },
        None => {},
    }
    text::owned(path)
}

} // verus!
