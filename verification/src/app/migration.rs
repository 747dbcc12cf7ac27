//! Which environments get the credential that they had before there was a table for them.

use crate::app::env_credentials::{
    migrated, rows, CredentialModel, EnvCredentialRow, MigrationEvent,
};
use crate::app::environments::{environments, EnvironmentModel, EnvironmentRow};
use crate::text;
use vstd::prelude::*;

verus! {

/// The environment has a credential.
pub open spec fn has_credential(t: Seq<CredentialModel>, environment_id: Seq<char>) -> bool {
    exists|i: int| 0 <= i < t.len() && (#[trigger] t[i]).environment_id == environment_id
}

/// Which of the first `n` environments have no credential.
pub open spec fn without_credential(
    envs: Seq<EnvironmentModel>,
    t: Seq<CredentialModel>,
    n: int,
) -> Seq<usize>
    decreases n,
{
    if n <= 0 {
        Seq::empty()
    } else if has_credential(t, envs[n - 1].id) {
        without_credential(envs, t, n - 1)
    } else {
        without_credential(envs, t, n - 1).push((n - 1) as usize)
    }
}

fn owns_credential(credentials: &Vec<EnvCredentialRow>, environment_id: &str) -> (r: bool)
    ensures
        r == has_credential(rows(credentials@), environment_id@),
{
    let ghost t = rows(credentials@);
    let mut i: usize = 0;
    while i < credentials.len()
        invariant
            i <= credentials@.len(),
            t == rows(credentials@),
            forall|k: int| 0 <= k < i ==> (#[trigger] t[k]).environment_id != environment_id@,
        decreases credentials@.len() - i,
    {
        assert(t[i as int] == credentials@[i as int]@);
        if text::same(credentials[i].environment_id.as_str(), environment_id) {
            return true;
        }
        i = i + 1;
    }
    false
}

/// The environments that are to be migrated, by their numbers: those without a credential.
pub fn environments_to_migrate(
    envs: &Vec<EnvironmentRow>,
    credentials: &Vec<EnvCredentialRow>,
) -> (r: Vec<usize>)
    ensures
        r@ == without_credential(environments(envs@), rows(credentials@), envs@.len() as int),
{
    let ghost all = environments(envs@);
    let mut out: Vec<usize> = Vec::new();
    let mut i: usize = 0;
    while i < envs.len()
        invariant
            i <= envs@.len(),
            all == environments(envs@),
            out@ == without_credential(all, rows(credentials@), i as int),
        decreases envs@.len() - i,
    {
        assert(all[i as int] == envs@[i as int]@);
        if !owns_credential(credentials, envs[i].id.as_str()) {
            out.push(i);
        }
        i = i + 1;
    }
    out
}

/// What reading the former secret of an environment came to.
pub enum FormerSecret {
    Unreadable,
    Nothing,
    Secret(String),
}

/// What a run meets at an environment: its former secret, whether that can be stored under
/// its new name, the id for the row and the time.
pub struct Encounter {
    pub former: FormerSecret,
    pub can_store: bool,
    pub cred_id: Seq<char>,
    pub now: Seq<char>,
}

/// What happens on the way of an environment, where the table takes its row.
pub open spec fn events_of(e: Encounter) -> Seq<MigrationEvent> {
    match e.former {
        FormerSecret::Unreadable => seq![MigrationEvent::Failed],
        FormerSecret::Nothing => seq![MigrationEvent::Secret(None), MigrationEvent::Succeeded],
        FormerSecret::Secret(s) => if e.can_store {
            seq![
                MigrationEvent::Secret(Some(s)),
                MigrationEvent::Succeeded,
                MigrationEvent::Succeeded,
            ]
        } else {
            seq![MigrationEvent::Secret(Some(s)), MigrationEvent::Failed]
        },
    }
}

/// The environment comes to where its row is made.
pub open spec fn gets_row(e: Encounter) -> bool {
    match e.former {
        FormerSecret::Unreadable => false,
        FormerSecret::Nothing => true,
        FormerSecret::Secret(_) => e.can_store,
    }
}

/// The row is made exactly for an environment whose former secret could be read and, if
/// there is one, stored under its new name. For any other no row is made and the former
/// secret is left where it is.
pub proof fn law_row_is_made_once_the_secret_is_safe(e: Encounter)
    ensures
        gets_row(e) == exists|n: int|
            0 <= n <= events_of(e).len() && #[trigger] migrated(events_of(e), n) is InsertRow,
        !gets_row(e) ==> forall|n: int|
            0 <= n <= events_of(e).len() ==> !(#[trigger] migrated(events_of(e), n) is DeleteFormer),
        gets_row(e) && e.former is Secret ==> migrated(events_of(e), 1) is MoveSecret && migrated(
            events_of(e),
            2,
        ) is InsertRow && migrated(events_of(e), 3) is DeleteFormer,
{
    let ev = events_of(e);
    reveal_with_fuel(migrated, 4);
    assert(migrated(ev, 0) is ReadSecret);
    match e.former {
        FormerSecret::Unreadable => {
            assert(migrated(ev, 1) is Skipped);
        },
        FormerSecret::Nothing => {
            assert(migrated(ev, 1) is InsertRow);
        },
        FormerSecret::Secret(s) => {
            assert(migrated(ev, 1) is MoveSecret);
            if e.can_store {
                assert(migrated(ev, 2) is InsertRow);
            } else {
                assert(migrated(ev, 2) is Skipped);
            }
        },
    }
}

/// The row that an environment gets.
pub open spec fn row_for(env: EnvironmentModel, e: Encounter) -> CredentialModel {
    CredentialModel {
        id: e.cred_id,
        environment_id: env.id,
        username: env.user,
        auth_type: env.auth_type,
        private_key_path: env.private_key_path,
        is_default: true,
        created_at: e.now,
    }
}

/// The rows that a run adds for the first `n` environments.
pub open spec fn rows_added(
    t: Seq<CredentialModel>,
    envs: Seq<EnvironmentModel>,
    met: Seq<Encounter>,
    n: int,
) -> Seq<CredentialModel>
    decreases n,
{
    if n <= 0 {
        Seq::empty()
    } else if !has_credential(t, envs[n - 1].id) && gets_row(met[n - 1]) {
        rows_added(t, envs, met, n - 1).push(row_for(envs[n - 1], met[n - 1]))
    } else {
        rows_added(t, envs, met, n - 1)
    }
}

/// The table after a run.
pub open spec fn after_run(
    t: Seq<CredentialModel>,
    envs: Seq<EnvironmentModel>,
    met: Seq<Encounter>,
) -> Seq<CredentialModel> {
    t + rows_added(t, envs, met, envs.len() as int)
}

/// No two environments have the same id.
pub open spec fn ids_apart(envs: Seq<EnvironmentModel>) -> bool {
    forall|i: int, j: int|
        0 <= i < j < envs.len() ==> (#[trigger] envs[i]).id != (#[trigger] envs[j]).id
}

/// How many rows are of an environment.
pub open spec fn count_of(t: Seq<CredentialModel>, environment_id: Seq<char>) -> nat
    decreases t.len(),
{
    if t.len() == 0 {
        0
    } else if t.last().environment_id == environment_id {
        count_of(t.drop_last(), environment_id) + 1
    } else {
        count_of(t.drop_last(), environment_id)
    }
}

proof fn lemma_count(t: Seq<CredentialModel>, id: Seq<char>)
    ensures
        (count_of(t, id) > 0) == has_credential(t, id),
    decreases t.len(),
{
    if t.len() > 0 {
        let front = t.drop_last();
        lemma_count(front, id);
        if has_credential(front, id) {
            let k = choose|k: int| 0 <= k < front.len() && (#[trigger] front[k]).environment_id == id;
            assert(t[k].environment_id == id);
        }
        if t.last().environment_id == id {
            assert(t[t.len() - 1].environment_id == id);
        }
        if has_credential(t, id) && t.last().environment_id != id {
            let k = choose|k: int| 0 <= k < t.len() && (#[trigger] t[k]).environment_id == id;
            assert(front[k].environment_id == id);
        }
    }
}

proof fn lemma_count_together(a: Seq<CredentialModel>, b: Seq<CredentialModel>, id: Seq<char>)
    ensures
        count_of(a + b, id) == count_of(a, id) + count_of(b, id),
    decreases b.len(),
{
    if b.len() == 0 {
        assert(a + b =~= a);
    } else {
        lemma_count_together(a, b.drop_last(), id);
        assert((a + b).drop_last() =~= a + b.drop_last());
        assert((a + b).last() == b.last());
    }
}

proof fn lemma_rows_added(
    t: Seq<CredentialModel>,
    envs: Seq<EnvironmentModel>,
    met: Seq<Encounter>,
    n: int,
    i: int,
)
    requires
        0 <= n <= envs.len(),
        0 <= i < envs.len(),
        ids_apart(envs),
    ensures
        ({
            let added = rows_added(t, envs, met, n);
            let due = i < n && !has_credential(t, envs[i].id) && gets_row(met[i]);
            &&& count_of(added, envs[i].id) == (if due {
                1nat
            } else {
                0nat
            })
            &&& due ==> added.contains(row_for(envs[i], met[i]))
        }),
    decreases n,
{
    if n > 0 {
        lemma_rows_added(t, envs, met, n - 1, i);
        let front = rows_added(t, envs, met, n - 1);
        let added = rows_added(t, envs, met, n);
        if !has_credential(t, envs[n - 1].id) && gets_row(met[n - 1]) {
            assert(added.drop_last() =~= front);
            assert(added.last() == row_for(envs[n - 1], met[n - 1]));
            if i == n - 1 {
                assert(added[front.len() as int] == row_for(envs[i], met[i]));
            } else {
                if i < n - 1 {
                    assert(envs[i].id != envs[n - 1].id);
                } else {
                    assert(envs[n - 1].id != envs[i].id);
                }
                if i < n - 1 && !has_credential(t, envs[i].id) && gets_row(met[i]) {
                    let k = choose|k: int|
                        0 <= k < front.len() && front[k] == row_for(envs[i], met[i]);
                    assert(added[k] == front[k]);
                }
            }
        }
    }
}

/// A run leaves every row as it is. An environment that has a credential gets none; one
/// whose former secret could not be read or stored gets none; any other gets exactly one,
/// the default, with what the environment itself said.
pub proof fn law_migration_gives_one_row(
    t: Seq<CredentialModel>,
    envs: Seq<EnvironmentModel>,
    met: Seq<Encounter>,
    i: int,
)
    requires
        met.len() == envs.len(),
        ids_apart(envs),
        0 <= i < envs.len(),
    ensures
        after_run(t, envs, met).take(t.len() as int) == t,
        count_of(after_run(t, envs, met), envs[i].id) == count_of(t, envs[i].id) + (if
        !has_credential(t, envs[i].id) && gets_row(met[i]) {
            1nat
        } else {
            0nat
        }),
        !has_credential(t, envs[i].id) && gets_row(met[i]) ==> after_run(t, envs, met).contains(
            row_for(envs[i], met[i]),
        ),
{
    let n = envs.len() as int;
    let added = rows_added(t, envs, met, n);
    lemma_rows_added(t, envs, met, n, i);
    lemma_count_together(t, added, envs[i].id);
    assert(after_run(t, envs, met).take(t.len() as int) =~= t);
    if !has_credential(t, envs[i].id) && gets_row(met[i]) {
        let k = choose|k: int| 0 <= k < added.len() && added[k] == row_for(envs[i], met[i]);
        assert(after_run(t, envs, met)[t.len() + k] == added[k]);
    }
}

/// A second run, whatever it meets, adds no row to an environment that had a credential or
/// got one.
pub proof fn law_second_run_adds_nothing(
    t: Seq<CredentialModel>,
    envs: Seq<EnvironmentModel>,
    met: Seq<Encounter>,
    again: Seq<Encounter>,
    i: int,
)
    requires
        met.len() == envs.len(),
        again.len() == envs.len(),
        ids_apart(envs),
        0 <= i < envs.len(),
        has_credential(t, envs[i].id) || gets_row(met[i]),
    ensures
        count_of(after_run(after_run(t, envs, met), envs, again), envs[i].id) == count_of(
            after_run(t, envs, met),
            envs[i].id,
        ),
{
    let once = after_run(t, envs, met);
    law_migration_gives_one_row(t, envs, met, i);
    lemma_count(t, envs[i].id);
    lemma_count(once, envs[i].id);
    law_migration_gives_one_row(once, envs, again, i);
}

} // verus!
