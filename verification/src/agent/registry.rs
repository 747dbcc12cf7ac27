//! The agents that are known.

use vstd::prelude::*;

verus! {

#[derive(Clone, Copy, Debug)]
pub struct AgentDescriptor {
    pub provider: &'static str,
    pub command: &'static str,
    pub display_name: &'static str,
}

/// The known agents, in the order in which they are looked for.
pub fn registry() -> (r: Vec<AgentDescriptor>)
    ensures
        r@.len() == 2,
        r@[0].provider@ == "opencode"@,
        r@[0].command@ == "opencode"@,
        r@[0].display_name@ == "OpenCode"@,
        r@[1].provider@ == "codeagentcli"@,
        r@[1].command@ == "codeagentcli"@,
        r@[1].display_name@ == "CodeAgentCLI"@,
{
    let mut v: Vec<AgentDescriptor> = Vec::new();
    v.push(
        AgentDescriptor { provider: "opencode", command: "opencode", display_name: "OpenCode" },
    );
    v.push(
        AgentDescriptor {
            provider: "codeagentcli",
            command: "codeagentcli",
            display_name: "CodeAgentCLI",
        },
    );
    v
}

} // verus!
