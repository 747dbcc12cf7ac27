//! The row of an environment says what its default credential says.

use crate::app::env_credentials;
use crate::app::env_credentials::{
    default_from, rows, without_default, CredentialAdded, CredentialModel, EnvCredentialError,
    EnvCredentialRow,
};
use crate::app::environments;
use crate::app::environments::{EnvironmentModel, EnvironmentRow};
use crate::text;
use vstd::prelude::*;

verus! {

/// An environment with the user name, the way to authenticate and the key path of a
/// credential.
pub open spec fn with_credential(e: EnvironmentModel, c: CredentialModel) -> EnvironmentModel {
    EnvironmentModel {
        user: c.username,
        auth_type: c.auth_type,
        private_key_path: c.private_key_path,
        ..e
    }
}

/// The environments once one of them has taken over what a credential holds.
pub open spec fn mirrored(
    envs: Seq<EnvironmentModel>,
    env_id: Seq<char>,
    c: CredentialModel,
) -> Seq<EnvironmentModel> {
    envs.map_values(
        |e: EnvironmentModel|
            if e.id == env_id {
                with_credential(e, c)
            } else {
                e
            },
    )
}

/// The environment takes over what its default credential holds.
pub fn mirror_credential(envs: &mut Vec<EnvironmentRow>, env_id: &str, cred: &EnvCredentialRow)
    ensures
        environments::environments(final(envs)@) == mirrored(
            environments::environments(old(envs)@),
            env_id@,
            cred@,
        ),
{
    let ghost before = environments::environments(envs@);
    let ghost goal = mirrored(before, env_id@, cred@);
    let n: usize = envs.len();
    let mut i: usize = 0;
    while i < n
        invariant
            i <= n == envs@.len() == before.len() == goal.len(),
            goal == mirrored(before, env_id@, cred@),
            forall|k: int| 0 <= k < i ==> (#[trigger] envs@[k])@ == goal[k],
            forall|k: int| i <= k < n ==> (#[trigger] envs@[k])@ == before[k],
        decreases n - i,
    {
        let ghost was = envs@;
        assert(envs@[i as int]@ == before[i as int]);
        if text::same(envs[i].id.as_str(), env_id) {
            envs[i].user = cred.username.clone();
            envs[i].auth_type = cred.auth_type.clone();
            envs[i].private_key_path = text::clone_opt(&cred.private_key_path);
            assert(envs@ =~= was.update(i as int, envs@[i as int]));
        }
        assert(envs@[i as int]@ =~= goal[i as int]);
        i = i + 1;
    }
    assert(environments::environments(envs@) =~= goal);
}

/// The table without the row that has this id.
pub open spec fn taken_back(t: Seq<CredentialModel>, id: Seq<char>) -> Seq<CredentialModel> {
    match env_credentials::with_id(t, id, 0) {
        Some(i) => t.remove(i),
        None => t,
    }
}

/// Ends the adding of a credential once its secret was stored, or was not: then the new row
/// goes again. A new default is taken over by the environment.
pub fn credential_stored(
    table: &mut Vec<EnvCredentialRow>,
    envs: &mut Vec<EnvironmentRow>,
    added: &CredentialAdded,
    stored: &Result<(), String>,
) -> (r: Result<EnvCredentialRow, EnvCredentialError>)
    ensures
        ({
            let e = environments::environments(old(envs)@);
            let t = rows(old(table)@);
            match stored {
                Ok(_) => {
                    &&& r is Ok
                    &&& r->Ok_0@ == added.row@
                    &&& rows(final(table)@) == t
                    &&& environments::environments(final(envs)@) == (if added.mirror {
                        mirrored(e, added.row@.environment_id, added.row@)
                    } else {
                        e
                    })
                },
                Err(why) => {
                    &&& r matches Err(EnvCredentialError::Keychain(m)) && m@ == why@
                    &&& rows(final(table)@) == taken_back(t, added.row@.id)
                    &&& environments::environments(final(envs)@) == e
                },
            }
        }),
{
    match stored {
        Ok(()) => {
            if added.mirror {
                mirror_credential(envs, added.row.environment_id.as_str(), &added.row);
            }
            Ok(added.row.clone())
        },
        Err(why) => {
            let ghost t = rows(table@);
            match env_credentials::index_of_id(table, added.row.id.as_str()) {
                Some(i) => {
                    let _gone = table.remove(i);
                    assert(rows(table@) =~= t.remove(i as int));
                },
                None => {},
            }
            Err(EnvCredentialError::Keychain(text::owned(why.as_str())))
        },
    }
}

/// The table once another credential was made the default.
pub open spec fn with_default(t: Seq<CredentialModel>, i: int) -> Seq<CredentialModel> {
    without_default(t).update(i, CredentialModel { is_default: true, ..t[i] })
}

proof fn lemma_only_default(t: Seq<CredentialModel>, d: int, i: int)
    requires
        0 <= i <= d < t.len(),
        t[d].is_default,
        forall|k: int| 0 <= k < d ==> !(#[trigger] t[k]).is_default,
    ensures
        default_from(t, i) == Some(d),
    decreases d - i,
{
    if i < d {
        lemma_only_default(t, d, i + 1);
    }
}

proof fn lemma_mirrored_is_found(
    envs: Seq<EnvironmentModel>,
    env_id: Seq<char>,
    c: CredentialModel,
    i: int,
)
    requires
        0 <= i,
    ensures
        environments::with_id(mirrored(envs, env_id, c), env_id, i) == match environments::with_id(
            envs,
            env_id,
            i,
        ) {
            Some(e) => Some(with_credential(e, c)),
            None => None,
        },
    decreases envs.len() - i,
{
    if i < envs.len() && envs[i].id != env_id {
        lemma_mirrored_is_found(envs, env_id, c, i + 1);
    }
}

/// Once a credential was made the default and taken over, the environment that is read says
/// what its default credential says, and all else of it is as it was.
pub proof fn law_environment_mirrors_its_default(
    envs: Seq<EnvironmentModel>,
    t: Seq<CredentialModel>,
    env_id: Seq<char>,
    cred_id: Seq<char>,
)
    requires
        env_credentials::with_id(t, cred_id, 0) is Some,
        environments::with_id(envs, env_id, 0) is Some,
    ensures
        ({
            let i = env_credentials::with_id(t, cred_id, 0)->0;
            let u = with_default(t, i);
            &&& default_from(u, 0) == Some(i)
            &&& u[i].username == t[i].username
            &&& environments::with_id(mirrored(envs, env_id, u[i]), env_id, 0) == Some(
                with_credential(environments::with_id(envs, env_id, 0)->0, u[i]),
            )
        }),
{
    env_credentials::lemma_with_id(t, cred_id, 0);
    let i = env_credentials::with_id(t, cred_id, 0)->0;
    let u = with_default(t, i);
    lemma_only_default(u, i, 0);
    lemma_mirrored_is_found(envs, env_id, u[i], 0);
}

/// The other environments stay as they are.
pub proof fn law_mirroring_leaves_the_others(
    envs: Seq<EnvironmentModel>,
    env_id: Seq<char>,
    c: CredentialModel,
    other: Seq<char>,
)
    requires
        other != env_id,
    ensures
        environments::with_id(mirrored(envs, env_id, c), other, 0) == environments::with_id(
            envs,
            other,
            0,
        ),
{
    lemma_others_are_found(envs, env_id, c, other, 0);
}

proof fn lemma_others_are_found(
    envs: Seq<EnvironmentModel>,
    env_id: Seq<char>,
    c: CredentialModel,
    other: Seq<char>,
    i: int,
)
    requires
        0 <= i,
        other != env_id,
    ensures
        environments::with_id(mirrored(envs, env_id, c), other, i) == environments::with_id(
            envs,
            other,
            i,
        ),
    decreases envs.len() - i,
{
    if i < envs.len() && envs[i].id != other {
        lemma_others_are_found(envs, env_id, c, other, i + 1);
    }
}

/// A credential whose secret could not be stored leaves no row behind, and all other rows
/// are those of the adding.
pub proof fn law_refused_secret_leaves_no_credential(
    t: Seq<CredentialModel>,
    row: CredentialModel,
)
    requires
        env_credentials::with_id(t, row.id, 0) is None,
    ensures
        ({
            let u = if row.is_default {
                without_default(t)
            } else {
                t
            };
            taken_back(u.push(row), row.id) == u
        }),
{
    let u = if row.is_default {
        without_default(t)
    } else {
        t
    };
    lemma_last_is_found(t, u, row, 0);
    assert(u.push(row).remove(u.len() as int) =~= u);
}

proof fn lemma_last_is_found(
    t: Seq<CredentialModel>,
    u: Seq<CredentialModel>,
    row: CredentialModel,
    i: int,
)
    requires
        0 <= i <= t.len(),
        u.len() == t.len(),
        forall|k: int| 0 <= k < t.len() ==> (#[trigger] u[k]).id == t[k].id,
        env_credentials::with_id(t, row.id, i) is None,
    ensures
        env_credentials::with_id(u.push(row), row.id, i) == Some(u.len() as int),
    decreases t.len() - i,
{
    if i < t.len() {
        assert(u.push(row)[i] == u[i]);
        lemma_last_is_found(t, u, row, i + 1);
    }
}

} // verus!
