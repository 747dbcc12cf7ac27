//! Finding the agents that are installed.

use crate::agent::registry::AgentDescriptor;
use crate::regexes;
use vstd::prelude::*;

verus! {

/// An agent that was found.
#[derive(Debug)]
pub struct DetectedAgent {
    pub provider: &'static str,
    pub display_name: &'static str,
    pub path: String,
    pub version: Option<String>,
}

/// A version number of three parts, with or without a `v`.
pub const VERSION_PATTERN: &'static str = "v?(\\d+)\\.(\\d+)\\.(\\d+)";

/// The three groups behind the whole match, with dots between them.
pub open spec fn dotted(groups: Seq<Option<Seq<char>>>) -> Option<Seq<char>> {
    if groups.len() >= 4 && groups[1] is Some && groups[2] is Some && groups[3] is Some {
        Some(groups[1]->0 + "."@ + groups[2]->0 + "."@ + groups[3]->0)
    } else {
        None
    }
}

/// The version that the groups of a match spell.
pub fn version_of(groups: &Vec<Option<String>>) -> (r: Option<String>)
    ensures
        r.deep_view() == dotted(groups.deep_view()),
{
    let ghost g = groups.deep_view();
    if groups.len() < 4 {
        return None;
    }
    assert(g[1] == groups@[1].deep_view());
    assert(g[2] == groups@[2].deep_view());
    assert(g[3] == groups@[3].deep_view());
    match (&groups[1], &groups[2], &groups[3]) {
        (Some(a), Some(b), Some(c)) => {
            let mut out = a.clone();
            out.append(".");
            out.append(b.as_str());
            out.append(".");
            out.append(c.as_str());
            Some(out)
        },
        _ => None,
    }
}

/// The version in what an agent says about itself.
pub fn parse_version(output: &str) -> (r: Option<String>)
    ensures
        r.deep_view() == match regexes::captured(VERSION_PATTERN@, output@) {
            Some(groups) => dotted(groups),
            None => None,
        },
{
    match regexes::captures(VERSION_PATTERN, output) {
        Some(groups) => version_of(&groups),
        None => None,
    }
}

/// What was found out about one known agent: where its command is, and what it
/// says when asked for its version, if it answers in time.
#[derive(Debug)]
pub struct Probe {
    pub path: Option<String>,
    pub version_output: Option<String>,
}

/// How many of the first `n` agents were found.
pub open spec fn found(probes: Seq<Probe>, n: int) -> nat
    decreases n,
{
    if n <= 0 {
        0
    } else {
        found(probes, n - 1) + (if probes[n - 1].path is Some { 1nat } else { 0nat })
    }
}

/// The version that an answer tells.
pub open spec fn told_version(output: Option<Seq<char>>) -> Option<Seq<char>> {
    match output {
        Some(o) => match regexes::captured(VERSION_PATTERN@, o) {
            Some(groups) => dotted(groups),
            None => None,
        },
        None => None,
    }
}

/// The detected agent is the known one, at the place where it was found.
pub open spec fn describes(a: DetectedAgent, d: AgentDescriptor, p: Probe) -> bool {
    &&& a.provider@ == d.provider@
    &&& a.display_name@ == d.display_name@
    &&& p.path is Some && a.path@ == p.path->0@
    &&& a.version.deep_view() == told_version(p.version_output.deep_view())
}

/// The known agents that are installed, in the order in which they are known.
pub fn detect(known: &Vec<AgentDescriptor>, probes: &Vec<Probe>) -> (r: Vec<DetectedAgent>)
    requires
        probes@.len() == known@.len(),
    ensures
        r@.len() == found(probes@, known@.len() as int),
        forall|i: int|
            0 <= i < known@.len() && (#[trigger] probes@[i]).path is Some ==> found(probes@, i)
                < r@.len() && describes(r@[found(probes@, i) as int], known@[i], probes@[i]),
{
    let mut out: Vec<DetectedAgent> = Vec::new();
    let mut i: usize = 0;
    while i < known.len()
        invariant
            i <= known@.len() == probes@.len(),
            out@.len() == found(probes@, i as int),
            forall|k: int|
                0 <= k < i && (#[trigger] probes@[k]).path is Some ==> found(probes@, k)
                    < out@.len() && describes(
                    out@[found(probes@, k) as int],
                    known@[k],
                    probes@[k],
                ),
        decreases known@.len() - i,
    {
        match &probes[i].path {
            Some(path) => {
                let version = match &probes[i].version_output {
                    Some(o) => parse_version(o.as_str()),
                    None => None,
                };
                out.push(
                    DetectedAgent {
                        provider: known[i].provider,
                        display_name: known[i].display_name,
                        path: path.clone(),
                        version,
                    },
                );
                assert(describes(out@.last(), known@[i as int], probes@[i as int]));
            },
            None => {},
        }
        i = i + 1;
    }
    out
}

} // verus!
