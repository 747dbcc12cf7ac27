//! Laws of saving an environment.

use crate::app::env_credentials::{credential_key, CredentialModel};
use crate::app::env_save::{
    count_defaults, default_index, entry_error, first_entry_error, first_unknown,
    has_row, list_error, mentioned, refusal, removed, rollback_steps, rows_before, save_plan,
    username_repeats, write_of,
    CredentialWriteModel, InputModel, RollbackStepModel, SavePlanModel,
    SaveRequestModel, SaveSnapshot,
};
use crate::chars;
use crate::order::{is_order, lemma_order_is_complete, precedes};
use vstd::prelude::*;

verus! {

/// The table of an environment's credentials after one write.
pub open spec fn apply_write(
    t: Seq<CredentialModel>,
    w: CredentialWriteModel,
    env_id: Seq<char>,
    now: Seq<char>,
) -> Seq<CredentialModel> {
    if w.is_new {
        t.push(
            CredentialModel {
                id: w.id,
                environment_id: env_id,
                username: w.username,
                auth_type: w.auth_type,
                private_key_path: w.private_key_path,
                is_default: w.is_default,
                created_at: now,
            },
        )
    } else {
        t.map_values(
            |r: CredentialModel|
                if r.id == w.id {
                    CredentialModel {
                        username: w.username,
                        auth_type: w.auth_type,
                        private_key_path: w.private_key_path,
                        is_default: w.is_default,
                        ..r
                    }
                } else {
                    r
                },
        )
    }
}

/// The table after the first `n` writes.
pub open spec fn apply_writes(
    t: Seq<CredentialModel>,
    ws: Seq<CredentialWriteModel>,
    n: int,
    env_id: Seq<char>,
    now: Seq<char>,
) -> Seq<CredentialModel>
    decreases n,
{
    if n <= 0 {
        t
    } else {
        apply_write(apply_writes(t, ws, n - 1, env_id, now), ws[n - 1], env_id, now)
    }
}

/// The table of an environment's credentials after a save.
pub open spec fn table_after(
    before: Seq<CredentialModel>,
    plan: SavePlanModel,
    now: Seq<char>,
) -> Seq<CredentialModel> {
    apply_writes(
        rows_kept(before, plan),
        plan.writes,
        plan.writes.len() as int,
        plan.environment.id,
        now,
    )
}

/// The table after the first `n` steps of taking a save back.
pub open spec fn table_rolled_back(
    t: Seq<CredentialModel>,
    steps: Seq<RollbackStepModel>,
    n: int,
) -> Seq<CredentialModel>
    decreases n,
{
    if n <= 0 {
        t
    } else {
        let before = table_rolled_back(t, steps, n - 1);
        match steps[n - 1] {
            RollbackStepModel::DeleteEnvironment => before,
            RollbackStepModel::DeleteCredentials => Seq::empty(),
            RollbackStepModel::InsertCredential(c) => before.push(c),
        }
    }
}

/// No two rows have the same id.
pub open spec fn distinct_ids(t: Seq<CredentialModel>) -> bool {
    forall|i: int, j: int|
        0 <= i < j < t.len() ==> (#[trigger] t[i]).id != (#[trigger] t[j]).id
}

/// The row holds what the write put there.
pub open spec fn holds(r: CredentialModel, w: CredentialWriteModel) -> bool {
    &&& r.username == w.username
    &&& r.auth_type == w.auth_type
    &&& r.private_key_path == w.private_key_path
    &&& r.is_default == w.is_default
}

/// No two credentials of the list stand for the same row.
pub open spec fn given_ids_apart(creds: Seq<InputModel>) -> bool {
    forall|i: int, j: int|
        #![trigger creds[i], creds[j]]
        0 <= i < j < creds.len() && creds[i].id is Some && creds[j].id is Some ==> creds[i].id
            != creds[j].id
}

/// The table takes the rows that are new: none of them comes under an id that a row has.
/// Otherwise nothing is saved.
pub open spec fn rows_fit(
    t: Seq<CredentialModel>,
    ws: Seq<CredentialWriteModel>,
    env_id: Seq<char>,
    now: Seq<char>,
) -> bool {
    forall|k: int|
        0 <= k < ws.len() && (#[trigger] ws[k]).is_new ==> !has_row(
            apply_writes(t, ws, k, env_id, now),
            ws[k].id,
        )
}

/// The rows that stay while a save is carried out.
pub open spec fn rows_kept(before: Seq<CredentialModel>, plan: SavePlanModel) -> Seq<
    CredentialModel,
> {
    before.filter(|r: CredentialModel| !plan.deletes.contains(r.id))
}

/// Writes take no row away, and leave a row for each that is new.
proof fn lemma_rows_stay(
    t: Seq<CredentialModel>,
    ws: Seq<CredentialWriteModel>,
    k: int,
    env_id: Seq<char>,
    now: Seq<char>,
    id: Seq<char>,
)
    requires
        0 <= k <= ws.len(),
    ensures
        has_row(t, id) ==> has_row(apply_writes(t, ws, k, env_id, now), id),
        forall|i: int|
            0 <= i < k && (#[trigger] ws[i]).is_new ==> has_row(
                apply_writes(t, ws, k, env_id, now),
                ws[i].id,
            ),
    decreases k,
{
    if k > 0 {
        lemma_rows_stay(t, ws, k - 1, env_id, now, id);
        let p = apply_writes(t, ws, k - 1, env_id, now);
        let n = apply_writes(t, ws, k, env_id, now);
        assert forall|x: Seq<char>| has_row(p, x) implies #[trigger] has_row(n, x) by {
            let y = choose|y: int| 0 <= y < p.len() && (#[trigger] p[y]).id == x;
            assert(n[y].id == x);
        }
        if ws[k - 1].is_new {
            assert(n[p.len() as int].id == ws[k - 1].id);
        }
    }
}

proof fn lemma_removed_contains(
    existing: Seq<CredentialModel>,
    creds: Seq<InputModel>,
    n: int,
    id: Seq<char>,
)
    requires
        0 <= n <= existing.len(),
    ensures
        removed(existing, creds, n).contains(id) <==> (!mentioned(creds, id) && exists|i: int|
            0 <= i < n && (#[trigger] existing[i]).id == id),
    decreases n,
{
    if n > 0 {
        lemma_removed_contains(existing, creds, n - 1, id);
        let front = removed(existing, creds, n - 1);
        let all = removed(existing, creds, n);
        if !mentioned(creds, existing[n - 1].id) {
            assert(all == front.push(existing[n - 1].id));
            assert(all[front.len() as int] == existing[n - 1].id);
            assert forall|x: Seq<char>| front.contains(x) implies all.contains(x) by {
                let k = choose|k: int| 0 <= k < front.len() && front[k] == x;
                assert(all[k] == x);
            }
            if all.contains(id) {
                let k = choose|k: int| 0 <= k < all.len() && all[k] == id;
                if k < front.len() {
                    assert(front[k] == id);
                }
            }
        }
    }
}

/// One of the first `k` writes is to the row with this id.
pub open spec fn is_written(ws: Seq<CredentialWriteModel>, k: int, id: Seq<char>) -> bool {
    exists|i: int| 0 <= i < k && (#[trigger] ws[i]).id == id
}

/// Some row of the table holds what the write put there.
pub open spec fn has_saved(t: Seq<CredentialModel>, w: CredentialWriteModel) -> bool {
    exists|x: int| 0 <= x < t.len() && (#[trigger] t[x]).id == w.id && holds(t[x], w)
}

/// The table has each of the first `k` writes in one row.
pub open spec fn holds_all(t: Seq<CredentialModel>, ws: Seq<CredentialWriteModel>, k: int) -> bool {
    &&& distinct_ids(t)
    &&& forall|i: int| 0 <= i < k ==> has_saved(t, #[trigger] ws[i])
}

/// What holds of the table after the first `k` writes.
spec fn reached(
    t0: Seq<CredentialModel>,
    t: Seq<CredentialModel>,
    ws: Seq<CredentialWriteModel>,
    k: int,
) -> bool {
    &&& holds_all(t, ws, k)
    &&& forall|id: Seq<char>| #[trigger]
        has_row(t, id) == (has_row(t0, id) || is_written(ws, k, id))
}

proof fn lemma_writes_reach(
    t0: Seq<CredentialModel>,
    ws: Seq<CredentialWriteModel>,
    k: int,
    env_id: Seq<char>,
    now: Seq<char>,
)
    requires
        0 <= k <= ws.len(),
        distinct_ids(t0),
        forall|i: int, j: int|
            0 <= i < j < ws.len() ==> (#[trigger] ws[i]).id != (#[trigger] ws[j]).id,
        forall|i: int| 0 <= i < ws.len() && (#[trigger] ws[i]).is_new ==> !has_row(t0, ws[i].id),
        forall|i: int| 0 <= i < ws.len() && !(#[trigger] ws[i]).is_new ==> has_row(t0, ws[i].id),
    ensures
        reached(t0, apply_writes(t0, ws, k, env_id, now), ws, k),
    decreases k,
{
    let t = apply_writes(t0, ws, k, env_id, now);
    if k > 0 {
        lemma_writes_reach(t0, ws, k - 1, env_id, now);
        let p = apply_writes(t0, ws, k - 1, env_id, now);
        let w = ws[k - 1];
        let at = if w.is_new {
            p.len() as int
        } else {
            assert(has_row(t0, w.id));
            assert(has_row(p, w.id));
            choose|x: int| 0 <= x < p.len() && (#[trigger] p[x]).id == w.id
        };
        if w.is_new {
            assert(!has_row(t0, w.id));
            if is_written(ws, k - 1, w.id) {
                let i = choose|i: int| 0 <= i < k - 1 && (#[trigger] ws[i]).id == w.id;
                assert(ws[i].id != ws[k - 1].id);
            }
            assert(!has_row(p, w.id));
        }
        assert(t.len() >= p.len());
        assert(forall|x: int| 0 <= x < p.len() ==> (#[trigger] t[x]).id == p[x].id);
        assert(forall|x: int| 0 <= x < p.len() && (#[trigger] p[x]).id != w.id ==> t[x] == p[x]);
        assert(0 <= at < t.len() && t[at].id == w.id && holds(t[at], w));
        assert(distinct_ids(t)) by {
            assert forall|i: int, j: int| 0 <= i < j < t.len() implies (#[trigger] t[i]).id != (
            #[trigger] t[j]).id by {
                if j < p.len() {
                    assert(p[i].id != p[j].id);
                } else {
                    assert(p[i].id != w.id);
                }
            }
        }
        assert forall|i: int| 0 <= i < k implies has_saved(t, #[trigger] ws[i]) by {
            if i < k - 1 {
                assert(has_saved(p, ws[i]));
                let x = choose|x: int|
                    0 <= x < p.len() && (#[trigger] p[x]).id == ws[i].id && holds(p[x], ws[i]);
                assert(ws[i].id != ws[k - 1].id);
                assert(t[x] == p[x]);
            }
        }
        assert forall|id: Seq<char>| #[trigger]
            has_row(t, id) == (has_row(t0, id) || is_written(ws, k, id)) by {
            if has_row(t, id) {
                let x = choose|x: int| 0 <= x < t.len() && (#[trigger] t[x]).id == id;
                if x < p.len() {
                    assert(p[x].id == id);
                    assert(has_row(p, id));
                    if !has_row(t0, id) {
                        let i = choose|i: int| 0 <= i < k - 1 && (#[trigger] ws[i]).id == id;
                        assert(ws[i].id == id);
                    }
                } else {
                    assert(ws[k - 1].id == id);
                }
            }
            if has_row(t0, id) || is_written(ws, k - 1, id) {
                assert(has_row(p, id));
                let x = choose|x: int| 0 <= x < p.len() && (#[trigger] p[x]).id == id;
                assert(t[x].id == id);
            }
            if is_written(ws, k, id) && !is_written(ws, k - 1, id) {
                let i = choose|i: int| 0 <= i < k && (#[trigger] ws[i]).id == id;
                assert(i == k - 1);
                assert(t[at].id == id);
            }
        }
    }
}

proof fn lemma_all_known(creds: Seq<InputModel>, existing: Seq<CredentialModel>, i: int, k: int)
    requires
        0 <= i <= k < creds.len(),
        first_unknown(creds, existing, i) is None,
        creds[k].id is Some,
    ensures
        has_row(existing, creds[k].id->0),
    decreases k - i,
{
    if i < k {
        lemma_all_known(creds, existing, i + 1, k);
    }
}

proof fn lemma_entry_in_order(creds: Seq<InputModel>, i: int, k: int)
    requires
        0 <= i <= k < creds.len(),
        first_entry_error(creds, i) is None,
    ensures
        entry_error(creds, k) is None,
    decreases k - i,
{
    if i < k {
        lemma_entry_in_order(creds, i + 1, k);
    }
}

proof fn lemma_defaults_counted(creds: Seq<InputModel>, n: int, a: int)
    requires
        0 <= a < n <= creds.len(),
        creds[a].is_default,
    ensures
        count_defaults(creds, n) >= 1,
        forall|b: int|
            0 <= b < n && b != a && (#[trigger] creds[b]).is_default ==> count_defaults(creds, n)
                >= 2,
    decreases n,
{
    if a < n - 1 {
        lemma_defaults_counted(creds, n - 1, a);
    } else {
        assert forall|b: int| 0 <= b < n && b != a && (#[trigger] creds[b]).is_default implies
            count_defaults(creds, n) >= 2 by {
            lemma_defaults_counted(creds, n - 1, b);
        }
    }
}

proof fn lemma_default_index(creds: Seq<InputModel>, i: int, n: int)
    requires
        0 <= i <= n <= creds.len(),
        count_defaults(creds, n) > count_defaults(creds, i),
    ensures
        i <= default_index(creds, i) < n,
        creds[default_index(creds, i)].is_default,
    decreases n - i,
{
    if i < n && !creds[i].is_default {
        assert(count_defaults(creds, i + 1) == count_defaults(creds, i));
        lemma_default_index(creds, i + 1, n);
    }
}

/// The rows that stay are those that the list mentions.
proof fn lemma_kept_rows(
    before: Seq<CredentialModel>,
    creds: Seq<InputModel>,
    kept: spec_fn(CredentialModel) -> bool,
)
    requires
        forall|r: CredentialModel|
            #[trigger]
            kept(r) == !removed(before, creds, before.len() as int).contains(r.id),
    ensures
        forall|id: Seq<char>| #[trigger]
            has_row(before.filter(kept), id) == (has_row(before, id) && mentioned(creds, id)),
{
    let t0 = before.filter(kept);
    assert forall|id: Seq<char>| #[trigger]
        has_row(before.filter(kept), id) == (has_row(before, id) && mentioned(creds, id)) by {
        lemma_removed_contains(before, creds, before.len() as int, id);
        if has_row(t0, id) {
            let y = choose|y: int| 0 <= y < t0.len() && (#[trigger] t0[y]).id == id;
            before.lemma_filter_pred(kept, y);
            before.lemma_filter_contains_rev(kept, t0[y]);
            let z = choose|z: int| 0 <= z < before.len() && before[z] == t0[y];
            assert(before[z].id == id);
        }
        if has_row(before, id) && mentioned(creds, id) {
            let z = choose|z: int| 0 <= z < before.len() && (#[trigger] before[z]).id == id;
            assert(kept(before[z]));
            before.lemma_filter_contains(kept, z);
            let y = choose|y: int| 0 <= y < t0.len() && t0[y] == before[z];
            assert(t0[y].id == id);
        }
    }
}

/// The writes of a save go to different rows: to rows that stay, or to new ones.
proof fn lemma_rows_of_writes(
    creds: Seq<InputModel>,
    before: Seq<CredentialModel>,
    fresh: Seq<Seq<char>>,
    ws: Seq<CredentialWriteModel>,
    t0: Seq<CredentialModel>,
    env_id: Seq<char>,
    now: Seq<char>,
)
    requires
        ws == Seq::new(creds.len(), |i: int| write_of(creds[i], fresh[i])),
        first_unknown(creds, before, 0) is None,
        given_ids_apart(creds),
        rows_fit(t0, ws, env_id, now),
        forall|id: Seq<char>| #[trigger]
            has_row(t0, id) == (has_row(before, id) && mentioned(creds, id)),
    ensures
        forall|i: int, j: int|
            0 <= i < j < ws.len() ==> (#[trigger] ws[i]).id != (#[trigger] ws[j]).id,
        forall|i: int| 0 <= i < ws.len() && (#[trigger] ws[i]).is_new ==> !has_row(t0, ws[i].id),
        forall|i: int| 0 <= i < ws.len() && !(#[trigger] ws[i]).is_new ==> has_row(t0, ws[i].id),
        forall|id: Seq<char>| #[trigger] has_row(t0, id) ==> is_written(ws, ws.len() as int, id),
{
    assert forall|i: int| 0 <= i < ws.len() && (#[trigger] ws[i]).is_new implies !has_row(
        t0,
        ws[i].id,
    ) by {
        lemma_rows_stay(t0, ws, i, env_id, now, ws[i].id);
    }
    assert forall|i: int| 0 <= i < ws.len() && !(#[trigger] ws[i]).is_new implies has_row(
        t0,
        ws[i].id,
    ) by {
        lemma_all_known(creds, before, 0, i);
        assert(creds[i].id == Some(ws[i].id));
        assert(mentioned(creds, ws[i].id));
    }
    assert forall|i: int, j: int| 0 <= i < j < ws.len() implies (#[trigger] ws[i]).id != (
    #[trigger] ws[j]).id by {
        if ws[j].is_new {
            lemma_rows_stay(t0, ws, j, env_id, now, ws[i].id);
        } else if !ws[i].is_new {
            assert(creds[i].id is Some && creds[j].id is Some);
        }
    }
    assert forall|id: Seq<char>| #[trigger] has_row(t0, id) implies is_written(
        ws,
        ws.len() as int,
        id,
    ) by {
        let i = choose|i: int| 0 <= i < creds.len() && (#[trigger] creds[i]).id == Some(id);
        assert(ws[i].id == id);
    }
}

/// One write, and only one, is to the default credential; no two have the same user name.
proof fn lemma_writes_in_order(
    creds: Seq<InputModel>,
    fresh: Seq<Seq<char>>,
    ws: Seq<CredentialWriteModel>,
)
    requires
        ws == Seq::new(creds.len(), |i: int| write_of(creds[i], fresh[i])),
        list_error(creds) is None,
    ensures
        0 <= default_index(creds, 0) < ws.len(),
        ws[default_index(creds, 0)].is_default,
        forall|i: int, j: int|
            0 <= i < j < ws.len() ==> !((#[trigger] ws[i]).is_default && (
            #[trigger] ws[j]).is_default) && ws[i].username != ws[j].username,
{
    let n = creds.len() as int;
    lemma_default_index(creds, 0, n);
    assert forall|i: int, j: int| 0 <= i < j < ws.len() implies !((#[trigger] ws[i]).is_default && (
    #[trigger] ws[j]).is_default) && ws[i].username != ws[j].username by {
        if ws[i].is_default && ws[j].is_default {
            assert(creds[j].is_default);
            lemma_defaults_counted(creds, n, i);
        }
        lemma_entry_in_order(creds, 0, j);
        assert(!username_repeats(creds, j));
        assert(creds[i].username == creds[i].username);
    }
}

/// A save that goes through leaves exactly the credentials of the list in the table: each
/// of them in one row, under its trimmed user name, and no row besides. One row, and only
/// one, is the default; the environment carries its user name, way to authenticate and key
/// path, and the list of credentials has it first. No two rows have the same user name,
/// and one with a password has no key path. The name and the host are trimmed.
pub proof fn law_table_holds_the_list(
    req: SaveRequestModel,
    snap: SaveSnapshot,
    fresh_env: Seq<char>,
    fresh: Seq<Seq<char>>,
    now: Seq<char>,
    order: Seq<usize>,
)
    requires
        refusal(req, snap) is None,
        fresh.len() == req.credentials.len(),
        distinct_ids(rows_before(req, snap)),
        given_ids_apart(req.credentials),
        ({
            let plan = save_plan(req, snap, fresh_env, fresh);
            let t = table_after(rows_before(req, snap), plan, now);
            &&& rows_fit(
                rows_kept(rows_before(req, snap), plan),
                plan.writes,
                plan.environment.id,
                now,
            )
            &&& is_order(t.map_values(|c: CredentialModel| credential_key(c)), false, order)
        }),
    ensures
        ({
            let plan = save_plan(req, snap, fresh_env, fresh);
            let t = table_after(rows_before(req, snap), plan, now);
            let n = plan.writes.len() as int;
            &&& holds_all(t, plan.writes, n)
            &&& forall|x: int| 0 <= x < t.len() ==> is_written(plan.writes, n, (#[trigger] t[x]).id)
            &&& forall|i: int|
                0 <= i < n ==> has_username(
                    t,
                    chars::trim((#[trigger] req.credentials[i]).username),
                )
            &&& forall|x: int|
                0 <= x < t.len() ==> is_listed(req.credentials, (#[trigger] t[x]).username)
            &&& order.len() > 0
            &&& t[order[0] as int].is_default
            &&& t[order[0] as int].username == plan.environment.user
            &&& t[order[0] as int].auth_type == plan.environment.auth_type
            &&& t[order[0] as int].private_key_path == plan.environment.private_key_path
            &&& forall|x: int, y: int|
                0 <= x < y < t.len() ==> !((#[trigger] t[x]).is_default && (
                #[trigger] t[y]).is_default) && t[x].username != t[y].username
            &&& forall|x: int|
                0 <= x < t.len() && (#[trigger] t[x]).auth_type == "password"@
                    ==> t[x].private_key_path is None
            &&& plan.environment.name == chars::trim(req.name)
            &&& plan.environment.host == chars::trim(req.host)
        }),
{
    let creds = req.credentials;
    let before = rows_before(req, snap);
    let plan = save_plan(req, snap, fresh_env, fresh);
    let ws = plan.writes;
    let kept = |r: CredentialModel| !plan.deletes.contains(r.id);
    let t0 = rows_kept(before, plan);
    let n = creds.len() as int;
    let t = table_after(before, plan, now);
    lemma_kept_rows(before, creds, kept);
    lemma_filter_distinct(before, kept);
    lemma_rows_of_writes(creds, before, fresh, ws, t0, plan.environment.id, now);
    lemma_writes_reach(t0, ws, n, plan.environment.id, now);
    lemma_writes_in_order(creds, fresh, ws);
    assert(reached(t0, t, ws, n));
    assert forall|x: int| 0 <= x < t.len() implies is_written(ws, n, (#[trigger] t[x]).id) by {
        assert(has_row(t, t[x].id));
    }
    let d = default_index(creds, 0);
    assert(has_saved(t, ws[d]));
    let x0 = choose|x: int|
        0 <= x < t.len() && (#[trigger] t[x]).id == ws[d].id && holds(t[x], ws[d]);
    lemma_rows_are_apart(t, ws);
    lemma_rows_are_listed(creds, fresh, ws, t);
    lemma_default_is_first(t, order, x0);
}

/// What holds of any two writes holds of any two rows.
proof fn lemma_rows_are_apart(t: Seq<CredentialModel>, ws: Seq<CredentialWriteModel>)
    requires
        holds_all(t, ws, ws.len() as int),
        forall|x: int|
            0 <= x < t.len() ==> is_written(ws, ws.len() as int, (#[trigger] t[x]).id),
        forall|i: int, j: int|
            0 <= i < j < ws.len() ==> !((#[trigger] ws[i]).is_default && (
            #[trigger] ws[j]).is_default) && ws[i].username != ws[j].username,
    ensures
        forall|x: int, y: int|
            0 <= x < y < t.len() ==> !((#[trigger] t[x]).is_default && (
            #[trigger] t[y]).is_default) && t[x].username != t[y].username,
{
    let n = ws.len() as int;
    assert forall|x: int, y: int| 0 <= x < y < t.len() implies !((#[trigger] t[x]).is_default && (
    #[trigger] t[y]).is_default) && t[x].username != t[y].username by {
        assert(is_written(ws, n, t[x].id) && is_written(ws, n, t[y].id));
        let i = choose|i: int| 0 <= i < n && (#[trigger] ws[i]).id == t[x].id;
        let j = choose|j: int| 0 <= j < n && (#[trigger] ws[j]).id == t[y].id;
        lemma_row_of_write(t, ws[i], x);
        lemma_row_of_write(t, ws[j], y);
        assert(t[x].id != t[y].id);
        if i < j {
            assert(ws[i].username != ws[j].username);
        } else {
            assert(ws[j].username != ws[i].username);
        }
    }
}

/// The rows and the list have the same user names; a row with a password has no key path.
proof fn lemma_rows_are_listed(
    creds: Seq<InputModel>,
    fresh: Seq<Seq<char>>,
    ws: Seq<CredentialWriteModel>,
    t: Seq<CredentialModel>,
)
    requires
        ws == Seq::new(creds.len(), |i: int| write_of(creds[i], fresh[i])),
        holds_all(t, ws, ws.len() as int),
        forall|x: int|
            0 <= x < t.len() ==> is_written(ws, ws.len() as int, (#[trigger] t[x]).id),
    ensures
        forall|i: int|
            0 <= i < ws.len() ==> has_username(t, chars::trim((#[trigger] creds[i]).username)),
        forall|x: int| 0 <= x < t.len() ==> is_listed(creds, (#[trigger] t[x]).username),
        forall|x: int|
            0 <= x < t.len() && (#[trigger] t[x]).auth_type == "password"@
                ==> t[x].private_key_path is None,
{
    let n = ws.len() as int;
    assert forall|i: int| 0 <= i < n implies has_username(
        t,
        chars::trim((#[trigger] creds[i]).username),
    ) by {
        assert(has_saved(t, ws[i]));
        let x = choose|x: int|
            0 <= x < t.len() && (#[trigger] t[x]).id == ws[i].id && holds(t[x], ws[i]);
        assert(t[x].username == chars::trim(creds[i].username));
    }
    reveal_strlit("password");
    reveal_strlit("private_key");
    assert("password"@.len() == 8 && "private_key"@.len() == 11);
    assert forall|x: int| 0 <= x < t.len() implies is_listed(creds, (#[trigger] t[x]).username) && (
    t[x].auth_type == "password"@ ==> t[x].private_key_path is None) by {
        let i = choose|i: int| 0 <= i < n && (#[trigger] ws[i]).id == t[x].id;
        lemma_row_of_write(t, ws[i], x);
        assert(chars::trim(creds[i].username) == t[x].username);
    }
}

/// The one default credential is the first of the list.
proof fn lemma_default_is_first(t: Seq<CredentialModel>, order: Seq<usize>, x0: int)
    requires
        is_order(t.map_values(|c: CredentialModel| credential_key(c)), false, order),
        0 <= x0 < t.len(),
        t[x0].is_default,
        forall|x: int, y: int|
            0 <= x < y < t.len() ==> !((#[trigger] t[x]).is_default && (
            #[trigger] t[y]).is_default),
    ensures
        order.len() > 0,
        order[0] == x0,
{
    let keys = t.map_values(|c: CredentialModel| credential_key(c));
    let at = lemma_order_is_complete(keys, false, order, x0);
    let first = order[0] as int;
    if at > 0 {
        assert(precedes(keys, false, order[0] as int, order[at] as int));
        assert(keys[first] == credential_key(t[first]) && keys[x0] == credential_key(t[x0]));
        assert(t[first].is_default);
        if first < x0 {
            assert(!(t[first].is_default && t[x0].is_default));
        } else if x0 < first {
            assert(!(t[x0].is_default && t[first].is_default));
        }
    }
}

/// Some row has this user name.
pub open spec fn has_username(t: Seq<CredentialModel>, username: Seq<char>) -> bool {
    exists|x: int| 0 <= x < t.len() && (#[trigger] t[x]).username == username
}

/// Some credential of the list has this user name, once it is trimmed.
pub open spec fn is_listed(creds: Seq<InputModel>, username: Seq<char>) -> bool {
    exists|i: int| 0 <= i < creds.len() && chars::trim((#[trigger] creds[i]).username) == username
}

proof fn lemma_row_of_write(t: Seq<CredentialModel>, w: CredentialWriteModel, x: int)
    requires
        distinct_ids(t),
        has_saved(t, w),
        0 <= x < t.len(),
        t[x].id == w.id,
    ensures
        holds(t[x], w),
{
    let y = choose|y: int| 0 <= y < t.len() && (#[trigger] t[y]).id == w.id && holds(t[y], w);
    if x < y {
        assert(t[x].id != t[y].id);
    } else if y < x {
        assert(t[y].id != t[x].id);
    }
}

proof fn lemma_filter_distinct(t: Seq<CredentialModel>, p: spec_fn(CredentialModel) -> bool)
    requires
        distinct_ids(t),
    ensures
        distinct_ids(t.filter(p)),
    decreases t.len(),
{
    reveal(Seq::filter);
    if t.len() > 0 {
        let front = t.drop_last();
        lemma_filter_distinct(front, p);
        let f = front.filter(p);
        assert forall|i: int| 0 <= i < f.len() implies (#[trigger] f[i]).id != t.last().id by {
            front.lemma_filter_contains_rev(p, f[i]);
            let k = choose|k: int| 0 <= k < front.len() && front[k] == f[i];
            assert(t[k].id != t[t.len() - 1].id);
        }
    }
}

/// Taking back the save of an edited environment gives its table the former
/// credentials again; taking back that of a new one leaves no credential.
pub proof fn law_rollback_restores_the_table(
    is_new: bool,
    before: Seq<CredentialModel>,
    t: Seq<CredentialModel>,
)
    ensures
        ({
            let steps = rollback_steps(is_new, before);
            table_rolled_back(t, steps, steps.len() as int) == (if is_new {
                Seq::<CredentialModel>::empty()
            } else {
                before
            })
        }),
{
    let steps = rollback_steps(is_new, before);
    if is_new {
        reveal_with_fuel(table_rolled_back, 3);
    } else {
        lemma_rolled_back(before, t, before.len() as int);
        assert(before.take(before.len() as int) =~= before);
    }
}

proof fn lemma_rolled_back(before: Seq<CredentialModel>, t: Seq<CredentialModel>, k: int)
    requires
        0 <= k <= before.len(),
    ensures
        table_rolled_back(t, rollback_steps(false, before), k + 1) == before.take(k),
    decreases k,
{
    let steps = rollback_steps(false, before);
    if k > 0 {
        lemma_rolled_back(before, t, k - 1);
        assert(before.take(k) =~= before.take(k - 1).push(before[k - 1]));
    } else {
        assert(before.take(0) =~= Seq::<CredentialModel>::empty());
    }
}

} // verus!
