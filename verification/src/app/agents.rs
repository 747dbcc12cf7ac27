//! The table of agents and which of them is active.

use crate::agent::detect::DetectedAgent;
use crate::agent::registry;
use crate::chars;
use crate::ids;
use crate::order;
use crate::order::{OrderKey, OrderKeyModel};
use crate::text;
use vstd::prelude::*;

verus! {

/// One row of the table of agents.
#[derive(Debug)]
pub struct AgentRow {
    pub id: String,
    pub provider: String,
    pub display_name: String,
    pub path: String,
    pub version: Option<String>,
    pub source: String,
    pub is_active: bool,
    pub detected_at: String,
}

#[verifier::ext_equal]
pub struct AgentModel {
    pub id: Seq<char>,
    pub provider: Seq<char>,
    pub display_name: Seq<char>,
    pub path: Seq<char>,
    pub version: Option<Seq<char>>,
    pub source: Seq<char>,
    pub is_active: bool,
    pub detected_at: Seq<char>,
}

impl View for AgentRow {
    type V = AgentModel;

    open spec fn view(&self) -> AgentModel {
        AgentModel {
            id: self.id@,
            provider: self.provider@,
            display_name: self.display_name@,
            path: self.path@,
            version: self.version.deep_view(),
            source: self.source@,
            is_active: self.is_active,
            detected_at: self.detected_at@,
        }
    }
}

pub open spec fn agent_models(rows: Seq<AgentRow>) -> Seq<AgentModel> {
    rows.map_values(|r: AgentRow| r@)
}

/// The row of an agent that was detected, not added by hand.
pub open spec fn is_auto(a: AgentModel) -> bool {
    a.source == "auto"@
}

/// Some row of the provider was detected.
pub open spec fn has_auto(rows: Seq<AgentModel>, provider: Seq<char>) -> bool {
    exists|i: int|
        0 <= i < rows.len() && is_auto(#[trigger] rows[i]) && rows[i].provider == provider
}

/// The rows of a provider that were detected before, with what was detected now.
pub open spec fn refreshed(rows: Seq<AgentModel>, d: DetectedAgent, now: Seq<char>) -> Seq<
    AgentModel,
> {
    rows.map_values(
        |a: AgentModel|
            if is_auto(a) && a.provider == d.provider@ {
                AgentModel {
                    path: d.path@,
                    version: d.version.deep_view(),
                    detected_at: now,
                    ..a
                }
            } else {
                a
            },
    )
}

/// The row of an agent that is detected for the first time. It is not active.
pub open spec fn new_auto(id: Seq<char>, d: DetectedAgent, now: Seq<char>) -> AgentModel {
    AgentModel {
        id,
        provider: d.provider@,
        display_name: d.display_name@,
        path: d.path@,
        version: d.version.deep_view(),
        source: "auto"@,
        is_active: false,
        detected_at: now,
    }
}

/// What the table is after an agent was detected: the row that an earlier detection made
/// is refreshed, or a row comes in under a fresh id.
pub open spec fn upserted(
    before: Seq<AgentModel>,
    d: DetectedAgent,
    now: Seq<char>,
    after: Seq<AgentModel>,
) -> bool {
    if has_auto(before, d.provider@) {
        after == refreshed(before, d, now)
    } else {
        exists|id: Seq<char>| #[trigger]
            ids::is_uuid(id) && after == before.push(new_auto(id, d, now))
    }
}

/// A detected agent refreshes the row that an earlier detection made, or gets a row of
/// its own, which is not active.
pub fn upsert_auto_agent(rows: &mut Vec<AgentRow>, d: &DetectedAgent, now: &str)
    ensures
        upserted(agent_models(old(rows)@), *d, now@, agent_models(final(rows)@)),
{
    let ghost ms = agent_models(rows@);
    let ghost goal = refreshed(ms, *d, now@);
    let mut known = false;
    let mut i: usize = 0;
    while i < rows.len()
        invariant
            i <= rows@.len() == ms.len(),
            goal == refreshed(ms, *d, now@),
            known == exists|k: int|
                0 <= k < i && is_auto(#[trigger] ms[k]) && ms[k].provider == d.provider@,
            forall|k: int| 0 <= k < i ==> (#[trigger] rows@[k])@ == goal[k],
            forall|k: int| i <= k < rows@.len() ==> (#[trigger] rows@[k])@ == ms[k],
        decreases rows@.len() - i,
    {
        assert(rows@[i as int]@ == ms[i as int]);
        if text::same(rows[i].source.as_str(), "auto") && text::same(
            rows[i].provider.as_str(),
            d.provider,
        ) {
            rows[i].path = d.path.clone();
            rows[i].version = text::clone_opt(&d.version);
            rows[i].detected_at = text::owned(now);
            known = true;
            assert(rows@[i as int]@ =~= goal[i as int]);
        }
        i = i + 1;
    }
    assert(agent_models(rows@) =~= goal);
    if !known {
        assert(goal =~= ms);
        let row = AgentRow {
            id: ids::new_uuid(),
            provider: text::owned(d.provider),
            display_name: text::owned(d.display_name),
            path: d.path.clone(),
            version: text::clone_opt(&d.version),
            source: text::owned("auto"),
            is_active: false,
            detected_at: text::owned(now),
        };
        let ghost id = row.id@;
        assert(row@ =~= new_auto(id, *d, now@));
        rows.push(row);
        assert(agent_models(rows@) =~= ms.push(new_auto(id, *d, now@)));
        assert(ids::is_uuid(id));
    }
}

/// Row `i` was detected, and none that was is later.
pub open spec fn is_latest_auto(rows: Seq<AgentModel>, i: int) -> bool {
    &&& 0 <= i < rows.len()
    &&& is_auto(rows[i])
    &&& forall|j: int|
        0 <= j < rows.len() && is_auto(#[trigger] rows[j]) ==> !chars::less(
            rows[i].detected_at,
            rows[j].detected_at,
        )
}

pub open spec fn any_active(rows: Seq<AgentModel>) -> bool {
    exists|i: int| 0 <= i < rows.len() && (#[trigger] rows[i]).is_active
}

pub open spec fn any_auto(rows: Seq<AgentModel>) -> bool {
    exists|i: int| 0 <= i < rows.len() && is_auto(#[trigger] rows[i])
}

/// Which row to make active so that one is, wherever one was detected: the latest
/// detected, unless a row is active already.
fn to_promote(rows: &Vec<AgentRow>) -> (r: Option<usize>)
    ensures
        r is Some == (!any_active(agent_models(rows@)) && any_auto(agent_models(rows@))),
        r is Some ==> is_latest_auto(agent_models(rows@), r->0 as int),
{
    let ghost ms = agent_models(rows@);
    let mut best: Option<usize> = None;
    let mut i: usize = 0;
    while i < rows.len()
        invariant
            i <= rows@.len(),
            ms == agent_models(rows@),
            forall|k: int| 0 <= k < i ==> !(#[trigger] ms[k]).is_active,
            match best {
                None => forall|k: int| 0 <= k < i ==> !is_auto(#[trigger] ms[k]),
                Some(b) => b < i && is_auto(ms[b as int]) && forall|k: int|
                    0 <= k < i && is_auto(#[trigger] ms[k]) ==> !chars::less(
                        ms[b as int].detected_at,
                        ms[k].detected_at,
                    ),
            },
        decreases rows@.len() - i,
    {
        assert(ms[i as int] == rows@[i as int]@);
        if rows[i].is_active {
            return None;
        }
        if text::same(rows[i].source.as_str(), "auto") {
            match best {
                None => {
                    proof {
                        chars::lemma_less_total(ms[i as int].detected_at, ms[i as int].detected_at);
                    }
                    best = Some(i);
                },
                Some(b) => {
                    assert(ms[b as int] == rows@[b as int]@);
                    if text::less(rows[b].detected_at.as_str(), rows[i].detected_at.as_str()) {
                        proof {
                            let top = ms[i as int].detected_at;
                            assert forall|k: int| 0 <= k < i + 1 && is_auto(
                                #[trigger] ms[k],
                            ) implies !chars::less(top, ms[k].detected_at) by {
                                chars::lemma_less_total(top, top);
                                if chars::less(top, ms[k].detected_at) && k < i {
                                    chars::lemma_less_transitive(
                                        ms[b as int].detected_at,
                                        top,
                                        ms[k].detected_at,
                                    );
                                }
                            }
                        }
                        best = Some(i);
                    }
                },
            }
        }
        i = i + 1;
    }
    best
}

/// The table with row `i` made active.
pub open spec fn activated(rows: Seq<AgentModel>, i: int) -> Seq<AgentModel> {
    rows.update(i, AgentModel { is_active: true, ..rows[i] })
}

/// What the table is once an agent is active wherever one was detected: the latest
/// detected, unless a row was active already.
pub open spec fn promoted(before: Seq<AgentModel>, after: Seq<AgentModel>) -> bool {
    if !any_active(before) && any_auto(before) {
        exists|i: int| #[trigger] is_latest_auto(before, i) && after == activated(before, i)
    } else {
        after == before
    }
}

/// Makes the latest detected agent active, unless one is.
pub fn ensure_active(rows: &mut Vec<AgentRow>)
    ensures
        promoted(agent_models(old(rows)@), agent_models(final(rows)@)),
{
    let ghost ms = agent_models(rows@);
    match to_promote(rows) {
        Some(i) => {
            assert(ms[i as int] == rows@[i as int]@);
            rows[i].is_active = true;
            assert(rows@[i as int]@ =~= activated(ms, i as int)[i as int]);
            assert(agent_models(rows@) =~= activated(ms, i as int));
        },
        None => {},
    }
}

/// The tables through which the detected agents come in, one after the other.
pub open spec fn is_detection(
    tables: Seq<Seq<AgentModel>>,
    before: Seq<AgentModel>,
    detected: Seq<DetectedAgent>,
    times: Seq<Seq<char>>,
) -> bool {
    &&& tables.len() == detected.len() + 1
    &&& tables[0] == before
    &&& forall|k: int|
        0 <= k < detected.len() ==> upserted(
            tables[k],
            #[trigger] detected[k],
            times[k],
            tables[k + 1],
        )
}

/// Records the agents that were detected, each with its time, and sees to it that one is
/// active.
pub fn detect_and_persist(
    rows: &mut Vec<AgentRow>,
    detected: &Vec<DetectedAgent>,
    times: &Vec<String>,
)
    requires
        times@.len() == detected@.len(),
    ensures
        exists|tables: Seq<Seq<AgentModel>>| #[trigger]
            is_detection(
                tables,
                agent_models(old(rows)@),
                detected@,
                times.deep_view(),
            ) && promoted(tables.last(), agent_models(final(rows)@)),
{
    let ghost mut tables: Seq<Seq<AgentModel>> = seq![agent_models(rows@)];
    let mut i: usize = 0;
    while i < detected.len()
        invariant
            i <= detected@.len() == times@.len(),
            is_detection(
                tables,
                agent_models(old(rows)@),
                detected@.take(i as int),
                times.deep_view().take(i as int),
            ),
            tables.last() == agent_models(rows@),
        decreases detected@.len() - i,
    {
        upsert_auto_agent(rows, &detected[i], times[i].as_str());
        proof {
            let was = tables;
            tables = tables.push(agent_models(rows@));
            let ds = detected@.take(i + 1);
            let ts = times.deep_view().take(i + 1);
            assert(times.deep_view()[i as int] == times@[i as int]@);
            assert forall|k: int| 0 <= k < ds.len() implies upserted(
                tables[k],
                #[trigger] ds[k],
                ts[k],
                tables[k + 1],
            ) by {
                if k < i {
                    assert(detected@.take(i as int)[k] == ds[k]);
                    assert(times.deep_view().take(i as int)[k] == ts[k]);
                    assert(was[k] == tables[k] && was[k + 1] == tables[k + 1]);
                }
            }
        }
        i = i + 1;
    }
    proof {
        assert(detected@.take(i as int) =~= detected@);
        assert(times.deep_view().take(i as int) =~= times.deep_view());
    }
    ensure_active(rows);
}

/// The table with the row of this id, and no other, active.
pub open spec fn only_active(rows: Seq<AgentModel>, id: Seq<char>) -> Seq<AgentModel> {
    rows.map_values(|a: AgentModel| AgentModel { is_active: a.id == id, ..a })
}

pub open spec fn has_agent(rows: Seq<AgentModel>, id: Seq<char>) -> bool {
    exists|i: int| 0 <= i < rows.len() && (#[trigger] rows[i]).id == id
}

fn find_agent(rows: &Vec<AgentRow>, id: &str) -> (r: Option<usize>)
    ensures
        r is Some == has_agent(agent_models(rows@), id@),
        r is Some ==> r->0 < rows@.len() && rows@[r->0 as int].id@ == id@,
{
    let ghost ms = agent_models(rows@);
    let mut i: usize = 0;
    while i < rows.len()
        invariant
            i <= rows@.len(),
            ms == agent_models(rows@),
            forall|k: int| 0 <= k < i ==> (#[trigger] ms[k]).id != id@,
        decreases rows@.len() - i,
    {
        assert(ms[i as int] == rows@[i as int]@);
        if text::same(rows[i].id.as_str(), id) {
            return Some(i);
        }
        i = i + 1;
    }
    None
}

/// Makes the row of this id, and no other, active; leaves the table as it is where there
/// is no such row, and says so.
pub fn set_active(rows: &mut Vec<AgentRow>, id: &str) -> (r: bool)
    ensures
        r == has_agent(agent_models(old(rows)@), id@),
        agent_models(final(rows)@) == (if r {
            only_active(agent_models(old(rows)@), id@)
        } else {
            agent_models(old(rows)@)
        }),
{
    let ghost ms = agent_models(rows@);
    if find_agent(rows, id).is_none() {
        return false;
    }
    let ghost goal = only_active(ms, id@);
    let n: usize = rows.len();
    let mut i: usize = 0;
    while i < n
        invariant
            i <= n == rows@.len() == ms.len() == goal.len(),
            goal == only_active(ms, id@),
            forall|k: int| 0 <= k < i ==> (#[trigger] rows@[k])@ == goal[k],
            forall|k: int| i <= k < n ==> (#[trigger] rows@[k])@ == ms[k],
        decreases n - i,
    {
        let active = text::same(rows[i].id.as_str(), id);
        let ghost was = rows@;
        rows[i].is_active = active;
        assert(rows@ =~= was.update(i as int, rows@[i as int]));
        assert(rows@[i as int]@ =~= goal[i as int]);
        i = i + 1;
    }
    assert(agent_models(rows@) =~= goal);
    true
}

/// What the table is after the row of this id was removed. Where it was the active one
/// another takes its place.
pub open spec fn removed(before: Seq<AgentModel>, id: Seq<char>, after: Seq<AgentModel>) -> bool {
    if has_agent(before, id) {
        exists|i: int|
            0 <= i < before.len() && (#[trigger] before[i]).id == id && if before[i].is_active {
                promoted(before.remove(i), after)
            } else {
                after == before.remove(i)
            }
    } else {
        after == before
    }
}

/// Removes the row of this id. Where it was the active one, the latest detected of those
/// that are left takes its place.
pub fn remove_agent(rows: &mut Vec<AgentRow>, id: &str)
    ensures
        removed(agent_models(old(rows)@), id@, agent_models(final(rows)@)),
{
    let ghost was = agent_models(rows@);
    match find_agent(rows, id) {
        None => {},
        Some(i) => {
            assert(was[i as int] == rows@[i as int]@);
            let active = rows[i].is_active;
            let _removed = rows.remove(i);
            assert(agent_models(rows@) =~= was.remove(i as int));
            if active {
                ensure_active(rows);
            }
        },
    }
}

/// By what the list of agents is ordered: the active one first, then those detected.
pub open spec fn agent_key(a: AgentModel) -> OrderKeyModel {
    OrderKeyModel {
        rank: ((if a.is_active { 0int } else { 2int }) + (if is_auto(a) { 0int } else { 1int })) as u64,
        text: a.detected_at,
    }
}

/// The rows of the list of agents, by their numbers: the active one first, then those
/// detected, the latest first among equals.
pub fn list_agents(rows: &Vec<AgentRow>) -> (r: Vec<usize>)
    ensures
        order::is_order(
            agent_models(rows@).map_values(|a: AgentModel| agent_key(a)),
            true,
            r@,
        ),
{
    let ghost ms = agent_models(rows@);
    let ghost f = |a: AgentModel| agent_key(a);
    let mut keys: Vec<OrderKey> = Vec::new();
    let mut i: usize = 0;
    while i < rows.len()
        invariant
            i <= rows@.len(),
            ms == agent_models(rows@),
            f == |a: AgentModel| agent_key(a),
            keys@.len() == i,
            forall|k: int| 0 <= k < i ==> (#[trigger] keys@[k])@ == agent_key(ms[k]),
        decreases rows@.len() - i,
    {
        assert(ms[i as int] == rows@[i as int]@);
        let base: u64 = if rows[i].is_active { 0 } else { 2 };
        let extra: u64 = if text::same(rows[i].source.as_str(), "auto") { 0 } else { 1 };
        let key = OrderKey { rank: base + extra, text: rows[i].detected_at.clone() };
        assert(key@ =~= agent_key(ms[i as int]));
        keys.push(key);
        i = i + 1;
    }
    assert(order::key_models(keys@) =~= ms.map_values(f));
    order::order(&keys, true)
}

/// The name under which a provider is shown; `None` for one that is not known.
pub open spec fn known_name(provider: Seq<char>) -> Option<Seq<char>> {
    if provider == "opencode"@ {
        Some("OpenCode"@)
    } else if provider == "codeagentcli"@ {
        Some("CodeAgentCLI"@)
    } else {
        None
    }
}

fn copy_row(a: &AgentRow) -> (r: AgentRow)
    ensures
        r@ == a@,
{
    AgentRow {
        id: a.id.clone(),
        provider: a.provider.clone(),
        display_name: a.display_name.clone(),
        path: a.path.clone(),
        version: text::clone_opt(&a.version),
        source: a.source.clone(),
        is_active: a.is_active,
        detected_at: a.detected_at.clone(),
    }
}

/// Adds an agent by hand: not active, under a fresh id.
pub fn add_agent_cmd(
    rows: &mut Vec<AgentRow>,
    provider: &str,
    path: &str,
    version: Option<&str>,
    now: &str,
) -> (r: Result<AgentRow, String>)
    ensures
        match known_name(provider@) {
            None => r is Err && r->Err_0@ == "Unknown provider: "@ + provider@ && final(rows)@
                == old(rows)@,
            Some(name) => r is Ok && ids::is_uuid(r->Ok_0@.id) && r->Ok_0@ == (AgentModel {
                id: r->Ok_0@.id,
                provider: provider@,
                display_name: name,
                path: path@,
                version: version.deep_view(),
                source: "manual"@,
                is_active: false,
                detected_at: now@,
            }) && agent_models(final(rows)@) == agent_models(old(rows)@).push(r->Ok_0@),
        },
{
    let known = registry::registry();
    let mut name: Option<&'static str> = None;
    if text::same(provider, known[0].provider) {
        name = Some(known[0].display_name);
    } else if text::same(provider, known[1].provider) {
        name = Some(known[1].display_name);
    }
    match name {
        None => {
            let mut m = text::owned("Unknown provider: ");
            m.append(provider);
            Err(m)
        },
        Some(display_name) => {
            let row = AgentRow {
                id: ids::new_uuid(),
                provider: text::owned(provider),
                display_name: text::owned(display_name),
                path: text::owned(path),
                version: text::to_owned_opt(version),
                source: text::owned("manual"),
                is_active: false,
                detected_at: text::owned(now),
            };
            rows.push(copy_row(&row));
            assert(agent_models(rows@) =~= agent_models(old(rows)@).push(row@));
            Ok(row)
        },
    }
}

/// No two rows have the same id.
pub open spec fn distinct_agents(rows: Seq<AgentModel>) -> bool {
    forall|i: int, j: int|
        0 <= i < j < rows.len() ==> (#[trigger] rows[i]).id != (#[trigger] rows[j]).id
}

/// At most one row is active.
pub open spec fn one_active_at_most(rows: Seq<AgentModel>) -> bool {
    forall|i: int, j: int|
        0 <= i < j < rows.len() ==> !((#[trigger] rows[i]).is_active && (
        #[trigger] rows[j]).is_active)
}

/// Switching leaves exactly one agent active: the one that was asked for.
pub proof fn law_switch_leaves_one_active(rows: Seq<AgentModel>, id: Seq<char>)
    requires
        distinct_agents(rows),
        has_agent(rows, id),
    ensures
        one_active_at_most(only_active(rows, id)),
        any_active(only_active(rows, id)),
        distinct_agents(only_active(rows, id)),
        forall|i: int|
            0 <= i < rows.len() ==> (#[trigger] only_active(rows, id)[i]).is_active == (rows[i].id
                == id),
{
    let t = only_active(rows, id);
    let k = choose|k: int| 0 <= k < rows.len() && (#[trigger] rows[k]).id == id;
    assert(t[k].is_active);
    assert forall|i: int, j: int| 0 <= i < j < t.len() implies !((#[trigger] t[i]).is_active && (
    #[trigger] t[j]).is_active) by {
        assert(rows[i].id != rows[j].id);
    }
    assert forall|i: int, j: int| 0 <= i < j < t.len() implies (#[trigger] t[i]).id != (
    #[trigger] t[j]).id by {
        assert(rows[i].id != rows[j].id);
    }
}

/// Where no agent was active, making one active leaves exactly that one.
pub proof fn law_promotion_leaves_one_active(rows: Seq<AgentModel>, i: int)
    requires
        !any_active(rows),
        0 <= i < rows.len(),
    ensures
        one_active_at_most(activated(rows, i)),
        any_active(activated(rows, i)),
{
    let t = activated(rows, i);
    assert(t[i].is_active);
    assert forall|a: int, b: int| 0 <= a < b < t.len() implies !((#[trigger] t[a]).is_active && (
    #[trigger] t[b]).is_active) by {
        assert(!rows[a].is_active);
        assert(!rows[b].is_active);
    }
}

/// No provider was detected into two rows.
pub open spec fn one_auto_each(rows: Seq<AgentModel>) -> bool {
    forall|i: int, j: int|
        0 <= i < j < rows.len() && is_auto(#[trigger] rows[i]) && is_auto(#[trigger] rows[j])
            ==> rows[i].provider != rows[j].provider
}

proof fn lemma_upserted(
    before: Seq<AgentModel>,
    d: DetectedAgent,
    now: Seq<char>,
    after: Seq<AgentModel>,
)
    requires
        upserted(before, d, now, after),
        one_active_at_most(before),
        one_auto_each(before),
    ensures
        one_active_at_most(after),
        one_auto_each(after),
        any_active(after) == any_active(before),
        has_auto(after, d.provider@),
{
    if has_auto(before, d.provider@) {
        assert forall|i: int| 0 <= i < after.len() implies (#[trigger] after[i]).is_active
            == before[i].is_active && is_auto(after[i]) == is_auto(before[i]) && after[i].provider
            == before[i].provider by {}
        let k = choose|k: int|
            0 <= k < before.len() && is_auto(#[trigger] before[k]) && before[k].provider
                == d.provider@;
        assert(is_auto(after[k]));
        if any_active(before) {
            let a = choose|a: int| 0 <= a < before.len() && (#[trigger] before[a]).is_active;
            assert(after[a].is_active);
        }
    } else {
        let n = before.len() as int;
        assert forall|i: int| 0 <= i < n implies (#[trigger] after[i]) == before[i] by {}
        assert(is_auto(after[n]) && after[n].provider == d.provider@);
        if any_active(before) {
            let a = choose|a: int| 0 <= a < before.len() && (#[trigger] before[a]).is_active;
            assert(after[a].is_active);
        }
        if any_active(after) {
            let a = choose|a: int| 0 <= a < after.len() && (#[trigger] after[a]).is_active;
            assert(before[a].is_active);
        }
    }
}

/// After a detection no provider was detected into two rows and at most one agent is
/// active. One is, if any was found.
pub proof fn law_detection_leaves_one_active(
    tables: Seq<Seq<AgentModel>>,
    before: Seq<AgentModel>,
    detected: Seq<DetectedAgent>,
    times: Seq<Seq<char>>,
    after: Seq<AgentModel>,
)
    requires
        one_active_at_most(before),
        one_auto_each(before),
        is_detection(tables, before, detected, times),
        promoted(tables.last(), after),
    ensures
        one_active_at_most(after),
        one_auto_each(after),
        detected.len() > 0 ==> any_active(after),
{
    let n = detected.len() as int;
    lemma_detection(tables, before, detected, times, n);
    let last = tables.last();
    assert(last == tables[n]);
    if n > 0 {
        assert(upserted(tables[n - 1], detected[n - 1], times[n - 1], tables[n]));
        lemma_detection(tables, before, detected, times, n - 1);
        lemma_upserted(tables[n - 1], detected[n - 1], times[n - 1], last);
        let k = choose|k: int|
            0 <= k < last.len() && is_auto(#[trigger] last[k]) && last[k].provider == detected[n
                - 1].provider@;
        assert(is_auto(last[k]));
        assert(any_auto(last));
    }
    if !any_active(last) && any_auto(last) {
        let i = choose|i: int| #[trigger] is_latest_auto(last, i) && after == activated(last, i);
        law_promotion_leaves_one_active(last, i);
        assert forall|a: int| 0 <= a < after.len() implies is_auto(#[trigger] after[a]) == is_auto(
            last[a],
        ) && after[a].provider == last[a].provider by {}
    }
}

proof fn lemma_detection(
    tables: Seq<Seq<AgentModel>>,
    before: Seq<AgentModel>,
    detected: Seq<DetectedAgent>,
    times: Seq<Seq<char>>,
    n: int,
)
    requires
        one_active_at_most(before),
        one_auto_each(before),
        is_detection(tables, before, detected, times),
        0 <= n <= detected.len(),
    ensures
        one_active_at_most(tables[n]),
        one_auto_each(tables[n]),
    decreases n,
{
    if n > 0 {
        lemma_detection(tables, before, detected, times, n - 1);
        assert(upserted(tables[n - 1], detected[n - 1], times[n - 1], tables[n]));
        lemma_upserted(tables[n - 1], detected[n - 1], times[n - 1], tables[n]);
    }
}

/// A removal leaves at most one agent active; where the active one went and a detected
/// one is left, one is active.
pub proof fn law_removal_leaves_one_active(
    before: Seq<AgentModel>,
    id: Seq<char>,
    after: Seq<AgentModel>,
)
    requires
        one_active_at_most(before),
        removed(before, id, after),
    ensures
        one_active_at_most(after),
        any_active(before) && any_auto(after) ==> any_active(after),
{
    if has_agent(before, id) {
        let i = choose|i: int|
            0 <= i < before.len() && (#[trigger] before[i]).id == id && if before[i].is_active {
                promoted(before.remove(i), after)
            } else {
                after == before.remove(i)
            };
        let left = before.remove(i);
        assert forall|a: int, b: int| 0 <= a < b < left.len() implies !((
        #[trigger] left[a]).is_active && (#[trigger] left[b]).is_active) by {
            let x = if a < i { a } else { a + 1 };
            let y = if b < i { b } else { b + 1 };
            assert(left[a] == before[x] && left[b] == before[y]);
        }
        if before[i].is_active {
            if !any_active(left) && any_auto(left) {
                let k = choose|k: int| #[trigger]
                    is_latest_auto(left, k) && after == activated(left, k);
                law_promotion_leaves_one_active(left, k);
            }
        } else if any_active(before) {
            let a = choose|a: int| 0 <= a < before.len() && (#[trigger] before[a]).is_active;
            let x = if a < i { a } else { a - 1 };
            assert(left[x] == before[a]);
        }
    }
}

} // verus!
