//! What a save makes of the list of credentials that it was handed.

use crate::app::env_credentials::{credential_error_text, CredentialModel, EnvCredentialError};
use crate::app::env_save::{
    count_defaults, default_index, deletes_of, entry_error, first_entry_error, first_unknown,
    has_row, is_refusal, list_error, mentioned, refusal, removed, rollback_steps, row_with_id,
    rows_before, save_error_text, save_plan, secret_writes, stale_deletes, InputModel,
    KeychainOpModel, Refusal, RollbackStepModel, SaveError, SaveRequestModel, SaveSnapshot,
};
use crate::app::environments::{environment_error_text, EnvironmentError};
use crate::chars;
use vstd::prelude::*;

verus! {

/// A secret came with the credential that is not blank.
pub open spec fn brings_secret(c: InputModel) -> bool {
    c.secret is Some && chars::trim(c.secret->0).len() > 0
}

proof fn lemma_secret_writes(creds: Seq<InputModel>, fresh: Seq<Seq<char>>, n: int)
    requires
        0 <= n <= creds.len(),
        fresh.len() == creds.len(),
    ensures
        ({
            let w = secret_writes(creds, fresh, n);
            &&& forall|i: int|
                #![trigger creds[i]]
                0 <= i < n && brings_secret(creds[i]) ==> w.contains(
                    KeychainOpModel::Write {
                        cred_id: if creds[i].id is Some {
                            creds[i].id->0
                        } else {
                            fresh[i]
                        },
                        secret: chars::trim(creds[i].secret->0),
                    },
                )
            &&& forall|k: int|
                0 <= k < w.len() ==> (#[trigger] w[k]) is Write && exists|i: int|
                    0 <= i < n && brings_secret(#[trigger] creds[i]) && w[k]->secret == chars::trim(
                        creds[i].secret->0,
                    ) && w[k]->Write_cred_id == (if creds[i].id is Some {
                        creds[i].id->0
                    } else {
                        fresh[i]
                    })
        }),
    decreases n,
{
    if n > 0 {
        lemma_secret_writes(creds, fresh, n - 1);
        let before = secret_writes(creds, fresh, n - 1);
        let w = secret_writes(creds, fresh, n);
        assert forall|i: int| #![trigger creds[i]] 0 <= i < n && brings_secret(
            creds[i],
        ) implies w.contains(
            KeychainOpModel::Write {
                cred_id: if creds[i].id is Some {
                    creds[i].id->0
                } else {
                    fresh[i]
                },
                secret: chars::trim(creds[i].secret->0),
            },
        ) by {
            let op = KeychainOpModel::Write {
                cred_id: if creds[i].id is Some {
                    creds[i].id->0
                } else {
                    fresh[i]
                },
                secret: chars::trim(creds[i].secret->0),
            };
            if i < n - 1 {
                let k = choose|k: int| 0 <= k < before.len() && before[k] == op;
                assert(w[k] == op);
            } else {
                assert(w[w.len() - 1] == op);
            }
        }
        assert forall|k: int| 0 <= k < w.len() implies (#[trigger] w[k]) is Write && exists|i: int|
            0 <= i < n && brings_secret(#[trigger] creds[i]) && w[k]->secret == chars::trim(
                creds[i].secret->0,
            ) && w[k]->Write_cred_id == (if creds[i].id is Some {
                creds[i].id->0
            } else {
                fresh[i]
            }) by {
            if k < before.len() {
                assert(w[k] == before[k]);
                let i = choose|i: int|
                    0 <= i < n - 1 && brings_secret(#[trigger] creds[i]) && before[k]->secret
                        == chars::trim(creds[i].secret->0) && before[k]->Write_cred_id == (
                    if creds[i].id is Some {
                        creds[i].id->0
                    } else {
                        fresh[i]
                    });
                assert(0 <= i < n && brings_secret(creds[i]));
            } else {
                assert(brings_secret(creds[n - 1]));
            }
        }
    }
}

proof fn lemma_stale_deletes(creds: Seq<InputModel>, existing: Seq<CredentialModel>, n: int)
    requires
        0 <= n <= creds.len(),
    ensures
        ({
            let w = stale_deletes(creds, existing, n);
            &&& forall|i: int|
                #![trigger creds[i]]
                0 <= i < n && changed_without_secret(creds[i], existing) ==> w.contains(
                    KeychainOpModel::Delete { cred_id: creds[i].id->0 },
                )
            &&& forall|k: int|
                0 <= k < w.len() ==> (#[trigger] w[k]) is Delete && exists|i: int|
                    0 <= i < n && changed_without_secret(#[trigger] creds[i], existing)
                        && w[k]->Delete_cred_id == creds[i].id->0
        }),
    decreases n,
{
    if n > 0 {
        lemma_stale_deletes(creds, existing, n - 1);
        let before = stale_deletes(creds, existing, n - 1);
        let w = stale_deletes(creds, existing, n);
        assert forall|i: int| #![trigger creds[i]] 0 <= i < n && changed_without_secret(
            creds[i],
            existing,
        ) implies w.contains(KeychainOpModel::Delete { cred_id: creds[i].id->0 }) by {
            let op = KeychainOpModel::Delete { cred_id: creds[i].id->0 };
            if i < n - 1 {
                let k = choose|k: int| 0 <= k < before.len() && before[k] == op;
                assert(w[k] == op);
            } else {
                assert(w[w.len() - 1] == op);
            }
        }
        assert forall|k: int| 0 <= k < w.len() implies (#[trigger] w[k]) is Delete && exists|i: int|
            0 <= i < n && changed_without_secret(#[trigger] creds[i], existing)
                && w[k]->Delete_cred_id == creds[i].id->0 by {
            if k < before.len() {
                assert(w[k] == before[k]);
                let i = choose|i: int|
                    0 <= i < n - 1 && changed_without_secret(#[trigger] creds[i], existing)
                        && before[k]->Delete_cred_id == creds[i].id->0;
                assert(0 <= i < n && changed_without_secret(creds[i], existing));
            } else {
                assert(changed_without_secret(creds[n - 1], existing));
            }
        }
    }
}

/// The credential authenticates another way than the first row with its id did, and brings
/// no secret for it.
pub open spec fn changed_without_secret(c: InputModel, existing: Seq<CredentialModel>) -> bool {
    &&& c.id is Some
    &&& !brings_secret(c)
    &&& row_with_id(existing, c.id->0, 0) is Some
    &&& row_with_id(existing, c.id->0, 0)->0.auth_type != c.auth_type
}

/// Every secret that is not blank is stored, without the blanks around it, under the id of
/// the row that its credential is written to.
pub proof fn law_secret_goes_with_its_row(
    req: SaveRequestModel,
    snap: SaveSnapshot,
    fresh_env: Seq<char>,
    fresh: Seq<Seq<char>>,
    i: int,
)
    requires
        fresh.len() == req.credentials.len(),
        0 <= i < req.credentials.len(),
    ensures
        ({
            let plan = save_plan(req, snap, fresh_env, fresh);
            let c = req.credentials[i];
            &&& plan.writes.len() == req.credentials.len()
            &&& plan.writes[i].id == (if c.id is Some {
                c.id->0
            } else {
                fresh[i]
            })
            &&& brings_secret(c) ==> plan.keychain.contains(
                KeychainOpModel::Write {
                    cred_id: plan.writes[i].id,
                    secret: chars::trim(c.secret->0),
                },
            )
        }),
{
    let creds = req.credentials;
    let plan = save_plan(req, snap, fresh_env, fresh);
    let n = creds.len() as int;
    lemma_secret_writes(creds, fresh, n);
    let w = secret_writes(creds, fresh, n);
    if brings_secret(creds[i]) {
        let op = KeychainOpModel::Write {
            cred_id: plan.writes[i].id,
            secret: chars::trim(creds[i].secret->0),
        };
        assert(w.contains(op));
        let k = choose|k: int| 0 <= k < w.len() && w[k] == op;
        assert(plan.keychain[k] == op);
    }
}

/// No secret is stored but for a row that is written, and none is that did not come with
/// that row's credential.
pub proof fn law_stored_secret_has_its_row(
    req: SaveRequestModel,
    snap: SaveSnapshot,
    fresh_env: Seq<char>,
    fresh: Seq<Seq<char>>,
    k: int,
)
    requires
        fresh.len() == req.credentials.len(),
        0 <= k < save_plan(req, snap, fresh_env, fresh).keychain.len(),
        save_plan(req, snap, fresh_env, fresh).keychain[k] is Write,
    ensures
        ({
            let plan = save_plan(req, snap, fresh_env, fresh);
            exists|i: int|
                0 <= i < plan.writes.len() && (#[trigger] plan.writes[i]).id
                    == plan.keychain[k]->Write_cred_id && brings_secret(req.credentials[i])
                    && plan.keychain[k]->secret == chars::trim(req.credentials[i].secret->0)
        }),
{
    let creds = req.credentials;
    let plan = save_plan(req, snap, fresh_env, fresh);
    let n = creds.len() as int;
    lemma_secret_writes(creds, fresh, n);
    lemma_stale_deletes(creds, rows_before(req, snap), n);
    let w = secret_writes(creds, fresh, n);
    let existing = rows_before(req, snap);
    let d = deletes_of(removed(existing, creds, existing.len() as int));
    let s = stale_deletes(creds, existing, n);
    if k >= w.len() + d.len() {
        assert(plan.keychain[k] == s[k - w.len() - d.len()]);
    } else if k >= w.len() {
        assert(plan.keychain[k] == d[k - w.len()]);
    } else {
        assert(plan.keychain[k] == w[k]);
        let i = choose|i: int|
            0 <= i < n && brings_secret(#[trigger] creds[i]) && w[k]->secret == chars::trim(
                creds[i].secret->0,
            ) && w[k]->Write_cred_id == (if creds[i].id is Some {
                creds[i].id->0
            } else {
                fresh[i]
            });
        assert(plan.writes[i].id == plan.keychain[k]->Write_cred_id);
    }
}

proof fn lemma_removed(existing: Seq<CredentialModel>, creds: Seq<InputModel>, n: int)
    requires
        0 <= n <= existing.len(),
    ensures
        forall|j: int|
            #![trigger existing[j]]
            0 <= j < n && !mentioned(creds, existing[j].id) ==> removed(
                existing,
                creds,
                n,
            ).contains(existing[j].id),
        forall|id: Seq<char>| #[trigger]
            removed(existing, creds, n).contains(id) ==> !mentioned(creds, id) && has_row(
                existing,
                id,
            ),
    decreases n,
{
    if n > 0 {
        lemma_removed(existing, creds, n - 1);
        let before = removed(existing, creds, n - 1);
        let r = removed(existing, creds, n);
        assert forall|j: int| #![trigger existing[j]] 0 <= j < n && !mentioned(
            creds,
            existing[j].id,
        ) implies r.contains(existing[j].id) by {
            if j < n - 1 {
                let k = choose|k: int| 0 <= k < before.len() && before[k] == existing[j].id;
                assert(r[k] == existing[j].id);
            } else {
                assert(r[r.len() - 1] == existing[j].id);
            }
        }
        assert forall|id: Seq<char>| #[trigger] r.contains(id) implies !mentioned(creds, id)
            && has_row(existing, id) by {
            let k = choose|k: int| 0 <= k < r.len() && r[k] == id;
            if k < before.len() {
                assert(before[k] == id);
                assert(before.contains(id));
            } else {
                assert(existing[n - 1].id == id);
            }
        }
    }
}

/// A row goes just where no credential of the list names it.
pub proof fn law_row_goes_unless_it_is_named(
    req: SaveRequestModel,
    snap: SaveSnapshot,
    fresh_env: Seq<char>,
    fresh: Seq<Seq<char>>,
    id: Seq<char>,
)
    ensures
        ({
            let existing = rows_before(req, snap);
            save_plan(req, snap, fresh_env, fresh).deletes.contains(id) <==> (exists|j: int|
                0 <= j < existing.len() && (#[trigger] existing[j]).id == id) && !(exists|i: int|
                0 <= i < req.credentials.len() && (#[trigger] req.credentials[i]).id == Some(id))
        }),
        req.environment_id is None ==> !save_plan(req, snap, fresh_env, fresh).deletes.contains(id),
{
    let existing = rows_before(req, snap);
    lemma_removed(existing, req.credentials, existing.len() as int);
}

/// A stored secret goes just where its row goes, or where the credential authenticates
/// another way from now on and brings no secret for that.
pub proof fn law_secret_goes_with_what_it_was_for(
    req: SaveRequestModel,
    snap: SaveSnapshot,
    fresh_env: Seq<char>,
    fresh: Seq<Seq<char>>,
    id: Seq<char>,
)
    requires
        fresh.len() == req.credentials.len(),
    ensures
        ({
            let plan = save_plan(req, snap, fresh_env, fresh);
            plan.keychain.contains(KeychainOpModel::Delete { cred_id: id }) <==> (
            plan.deletes.contains(id) || exists|i: int|
                0 <= i < req.credentials.len() && (#[trigger] req.credentials[i]).id == Some(id)
                    && changed_without_secret(req.credentials[i], rows_before(req, snap)))
        }),
{
    let creds = req.credentials;
    let existing = rows_before(req, snap);
    let plan = save_plan(req, snap, fresh_env, fresh);
    let n = creds.len() as int;
    let op = KeychainOpModel::Delete { cred_id: id };
    lemma_secret_writes(creds, fresh, n);
    lemma_stale_deletes(creds, existing, n);
    let w = secret_writes(creds, fresh, n);
    let d = deletes_of(plan.deletes);
    let s = stale_deletes(creds, existing, n);
    if plan.keychain.contains(op) {
        let k = choose|k: int| 0 <= k < plan.keychain.len() && plan.keychain[k] == op;
        if k < w.len() {
            assert(plan.keychain[k] == w[k]);
        } else if k < w.len() + d.len() {
            assert(plan.keychain[k] == d[k - w.len()]);
            assert(plan.deletes[k - w.len()] == id);
        } else {
            assert(plan.keychain[k] == s[k - w.len() - d.len()]);
            let i = choose|i: int|
                0 <= i < n && changed_without_secret(#[trigger] creds[i], existing) && s[k - w.len()
                    - d.len()]->Delete_cred_id == creds[i].id->0;
            assert(creds[i].id == Some(id));
        }
    }
    if plan.deletes.contains(id) {
        let k = choose|k: int| 0 <= k < plan.deletes.len() && plan.deletes[k] == id;
        assert(d[k] == op);
        assert(plan.keychain[w.len() + k] == op);
    }
    if exists|i: int|
        0 <= i < creds.len() && (#[trigger] creds[i]).id == Some(id) && changed_without_secret(
            creds[i],
            existing,
        ) {
        let i = choose|i: int|
            0 <= i < creds.len() && (#[trigger] creds[i]).id == Some(id) && changed_without_secret(
                creds[i],
                existing,
            );
        assert(s.contains(op));
        let k = choose|k: int| 0 <= k < s.len() && s[k] == op;
        assert(plan.keychain[w.len() + d.len() + k] == op);
    }
}

/// The row of a credential holds what was asked for: the name without blanks around it, and
/// the path of a key where one is authenticated by.
pub proof fn law_row_holds_what_was_asked_for(
    req: SaveRequestModel,
    snap: SaveSnapshot,
    fresh_env: Seq<char>,
    fresh: Seq<Seq<char>>,
    i: int,
)
    requires
        0 <= i < req.credentials.len(),
    ensures
        ({
            let w = save_plan(req, snap, fresh_env, fresh).writes[i];
            let c = req.credentials[i];
            &&& w.is_new == (c.id is None)
            &&& w.username == chars::trim(c.username)
            &&& w.auth_type == c.auth_type
            &&& w.is_default == c.is_default
            &&& c.auth_type != "private_key"@ ==> w.private_key_path is None
            &&& c.private_key_path is None ==> w.private_key_path is None
            &&& c.auth_type == "private_key"@ && c.private_key_path is Some && chars::trim(
                c.private_key_path->0,
            ).len() > 0 ==> w.private_key_path == Some(chars::trim(c.private_key_path->0))
        }),
{
}

/// Among the first `n` credentials this one is the default, and no other is.
pub open spec fn only_default(creds: Seq<InputModel>, d: int, n: int) -> bool {
    0 <= d < n && creds[d].is_default && forall|i: int|
        0 <= i < n && i != d ==> !(#[trigger] creds[i]).is_default
}

proof fn lemma_no_default(creds: Seq<InputModel>, n: int)
    requires
        0 <= n <= creds.len(),
    ensures
        count_defaults(creds, n) == 0 <==> forall|i: int|
            0 <= i < n ==> !(#[trigger] creds[i]).is_default,
    decreases n,
{
    if n > 0 {
        lemma_no_default(creds, n - 1);
        if forall|i: int| 0 <= i < n ==> !(#[trigger] creds[i]).is_default {
            assert(!creds[n - 1].is_default);
        }
    }
}

proof fn lemma_counted_once(creds: Seq<InputModel>, n: int) -> (d: int)
    requires
        0 <= n <= creds.len(),
        count_defaults(creds, n) == 1,
    ensures
        only_default(creds, d, n),
    decreases n,
{
    lemma_no_default(creds, n - 1);
    if creds[n - 1].is_default {
        n - 1
    } else {
        lemma_counted_once(creds, n - 1)
    }
}

proof fn lemma_counts_once(creds: Seq<InputModel>, n: int, d: int)
    requires
        0 <= n <= creds.len(),
        only_default(creds, d, n),
    ensures
        count_defaults(creds, n) == 1,
    decreases n,
{
    lemma_no_default(creds, n - 1);
    if d < n - 1 {
        assert(!creds[n - 1].is_default);
        lemma_counts_once(creds, n - 1, d);
    }
}

proof fn lemma_default_index(creds: Seq<InputModel>, i: int)
    requires
        0 <= i <= creds.len(),
    ensures
        i <= default_index(creds, i) <= creds.len(),
        forall|k: int| i <= k < default_index(creds, i) ==> !(#[trigger] creds[k]).is_default,
        default_index(creds, i) < creds.len() ==> creds[default_index(creds, i)].is_default,
    decreases creds.len() - i,
{
    if i < creds.len() && !creds[i].is_default {
        lemma_default_index(creds, i + 1);
    }
}

/// The environment is saved with its name and host, without blanks around them, and as a copy
/// of the credential that is marked as the default, under its own id, or a fresh one where it
/// is new.
pub proof fn law_environment_is_a_copy_of_the_default(
    req: SaveRequestModel,
    snap: SaveSnapshot,
    fresh_env: Seq<char>,
    fresh: Seq<Seq<char>>,
    d: int,
)
    requires
        refusal(req, snap) is None,
        0 <= d < req.credentials.len(),
        req.credentials[d].is_default,
    ensures
        ({
            let plan = save_plan(req, snap, fresh_env, fresh);
            let e = plan.environment;
            &&& e.user == plan.writes[d].username
            &&& e.auth_type == plan.writes[d].auth_type
            &&& e.private_key_path == plan.writes[d].private_key_path
            &&& e.name == chars::trim(req.name)
            &&& e.host == chars::trim(req.host)
            &&& e.port == req.port
            &&& plan.is_new == (req.environment_id is None)
            &&& req.environment_id is Some ==> e.id == req.environment_id->0
            &&& req.environment_id is None ==> e.id == fresh_env
        }),
{
    let creds = req.credentials;
    let u = lemma_counted_once(creds, creds.len() as int);
    lemma_default_index(creds, 0);
    let k = default_index(creds, 0);
    assert(creds[d].is_default);
    assert(u == d);
    assert(k == d);
}

proof fn lemma_entries(creds: Seq<InputModel>, i: int)
    requires
        0 <= i <= creds.len(),
    ensures
        first_entry_error(creds, i) is None <==> forall|k: int|
            i <= k < creds.len() ==> #[trigger] entry_error(creds, k) is None,
    decreases creds.len() - i,
{
    if i < creds.len() {
        lemma_entries(creds, i + 1);
    }
}

proof fn lemma_unknown(creds: Seq<InputModel>, existing: Seq<CredentialModel>, i: int)
    requires
        0 <= i <= creds.len(),
    ensures
        first_unknown(creds, existing, i) is None <==> forall|k: int|
            i <= k < creds.len() && (#[trigger] creds[k]).id is Some ==> has_row(
                existing,
                creds[k].id->0,
            ),
    decreases creds.len() - i,
{
    if i < creds.len() {
        lemma_unknown(creds, existing, i + 1);
    }
}

/// The credential can be saved, seen by itself: it has a user name, a known way to
/// authenticate, and the path of a key where that needs one.
pub open spec fn in_order(c: InputModel) -> bool {
    &&& chars::trim(c.username).len() > 0
    &&& c.auth_type == "password"@ || c.auth_type == "private_key"@
    &&& c.auth_type == "private_key"@ ==> c.private_key_path is Some && chars::trim(
        c.private_key_path->0,
    ).len() > 0
}

/// A list of credentials can be saved just where it is not empty, exactly one of it is the
/// default, each is in order, and no two have the same user name.
pub proof fn law_lists_that_can_be_saved(creds: Seq<InputModel>)
    ensures
        list_error(creds) is None <==> {
            &&& creds.len() > 0
            &&& exists|d: int| #[trigger] only_default(creds, d, creds.len() as int)
            &&& forall|i: int| 0 <= i < creds.len() ==> in_order(#[trigger] creds[i])
            &&& forall|i: int, j: int|
                0 <= i < j < creds.len() ==> chars::trim((#[trigger] creds[i]).username)
                    != chars::trim((#[trigger] creds[j]).username)
        },
{
    let n = creds.len() as int;
    if exists|d: int| #[trigger] only_default(creds, d, n) {
        lemma_counts_once(creds, n, choose|d: int| #[trigger] only_default(creds, d, n));
    }
    lemma_entries(creds, 0);
    if list_error(creds) is None {
        let d = lemma_counted_once(creds, n);
        assert(only_default(creds, d, n));
        assert forall|i: int| 0 <= i < creds.len() implies in_order(#[trigger] creds[i]) by {
            assert(entry_error(creds, i) is None);
        }
        assert forall|i: int, j: int| 0 <= i < j < creds.len() implies chars::trim(
            (#[trigger] creds[i]).username,
        ) != chars::trim((#[trigger] creds[j]).username) by {
            assert(entry_error(creds, j) is None);
        }
    }
    if forall|i: int| 0 <= i < creds.len() ==> in_order(#[trigger] creds[i]) {
        if forall|i: int, j: int|
            0 <= i < j < creds.len() ==> chars::trim((#[trigger] creds[i]).username) != chars::trim(
                (#[trigger] creds[j]).username,
            ) {
            assert forall|k: int| 0 <= k < creds.len() implies #[trigger] entry_error(
                creds,
                k,
            ) is None by {
                assert(in_order(creds[k]));
            }
        }
    }
}

/// A save is carried out just where it has a name and a host, its list can be saved, the name
/// is free, and all that it edits is there.
pub proof fn law_saves_that_are_carried_out(req: SaveRequestModel, snap: SaveSnapshot)
    ensures
        refusal(req, snap) is None <==> {
            &&& chars::trim(req.name).len() > 0
            &&& chars::trim(req.host).len() > 0
            &&& list_error(req.credentials) is None
            &&& !snap.name_taken
            &&& req.environment_id is Some ==> snap.environment_exists
            &&& forall|k: int|
                0 <= k < req.credentials.len() && (#[trigger] req.credentials[k]).id is Some
                    ==> req.environment_id is Some && exists|j: int|
                    0 <= j < snap.existing@.len() && (#[trigger] snap.existing@[j])@.id
                        == req.credentials[k].id->0
        },
{
    let creds = req.credentials;
    let existing = rows_before(req, snap);
    lemma_unknown(creds, existing, 0);
    if forall|k: int|
        0 <= k < creds.len() && (#[trigger] creds[k]).id is Some ==> has_row(
            existing,
            creds[k].id->0,
        ) {
        assert forall|k: int| 0 <= k < creds.len() && (#[trigger] creds[k]).id is Some implies
            req.environment_id is Some && exists|j: int|
            0 <= j < snap.existing@.len() && (#[trigger] snap.existing@[j])@.id
                == creds[k].id->0 by {
            let j = choose|j: int|
                0 <= j < existing.len() && (#[trigger] existing[j]).id == creds[k].id->0;
            assert(snap.existing@[j]@.id == creds[k].id->0);
        }
    }
    if forall|k: int|
        0 <= k < creds.len() && (#[trigger] creds[k]).id is Some ==> req.environment_id is Some
            && exists|j: int|
            0 <= j < snap.existing@.len() && (#[trigger] snap.existing@[j])@.id
                == creds[k].id->0 {
        assert forall|k: int| 0 <= k < creds.len() && (#[trigger] creds[k]).id is Some implies has_row(
            existing,
            creds[k].id->0,
        ) by {
            let j = choose|j: int|
                0 <= j < snap.existing@.len() && (#[trigger] snap.existing@[j])@.id
                    == creds[k].id->0;
            assert(existing[j].id == creds[k].id->0);
        }
    }
}

/// What was new is taken back altogether; of what was edited the environment stays, and its
/// former credentials come back in their order once those that were saved are gone.
pub proof fn law_rollback_deletes_first(is_new: bool, old_creds: Seq<CredentialModel>)
    ensures
        ({
            let steps = rollback_steps(is_new, old_creds);
            &&& steps.contains(RollbackStepModel::DeleteEnvironment) <==> is_new
            &&& steps.contains(RollbackStepModel::DeleteCredentials)
            &&& !is_new ==> steps.len() == old_creds.len() + 1 && steps[0] is DeleteCredentials
            &&& forall|i: int|
                #![trigger old_creds[i]]
                !is_new && 0 <= i < old_creds.len() ==> steps[i + 1]
                    == RollbackStepModel::InsertCredential(old_creds[i])
            &&& is_new ==> steps.len() == 2
        }),
{
    let steps = rollback_steps(is_new, old_creds);
    if is_new {
        assert(steps[0] is DeleteEnvironment);
        assert(steps[1] is DeleteCredentials);
    } else {
        assert(steps[0] is DeleteCredentials);
        assert forall|k: int| 0 <= k < steps.len() implies !(#[trigger] steps[k] is DeleteEnvironment) by {
            if k > 0 {
                assert(steps[k] == RollbackStepModel::InsertCredential(old_creds[k - 1]));
            }
        }
    }
}

/// A save is refused with what is wrong first: the name or the host, then the list, then that
/// the name is taken, then that the environment is gone.
pub proof fn law_first_reason_is_told(req: SaveRequestModel, snap: SaveSnapshot)
    ensures
        ({
            let named = chars::trim(req.name).len() > 0 && chars::trim(req.host).len() > 0;
            let fine = list_error(req.credentials) is None;
            &&& !named ==> refusal(req, snap) == Some(Refusal::Validation("名称 / 主机不能为空"@))
            &&& named && !fine ==> refusal(req, snap) == Some(
                Refusal::Validation(list_error(req.credentials)->0),
            )
            &&& named && fine && snap.name_taken ==> refusal(req, snap) == Some(
                Refusal::Validation("同名环境已存在"@),
            )
            &&& named && fine && !snap.name_taken && req.environment_id is Some
                && !snap.environment_exists ==> refusal(req, snap) == Some(
                Refusal::NotFound(req.environment_id->0),
            )
            &&& refusal(req, snap) matches Some(Refusal::NotFound(id)) ==> req.environment_id
                == Some(id)
        }),
{
}

/// What is wrong with a list is told of the first credential that is not in order.
pub proof fn law_first_complaint_is_told(creds: Seq<InputModel>, i: int)
    requires
        0 <= i < creds.len(),
        exists|d: int| #[trigger] only_default(creds, d, creds.len() as int),
        forall|j: int| 0 <= j < i ==> in_order(#[trigger] creds[j]),
        forall|j: int, k: int|
            0 <= j < k < i ==> chars::trim((#[trigger] creds[j]).username) != chars::trim(
                (#[trigger] creds[k]).username,
            ),
    ensures
        chars::trim(creds[i].username).len() == 0 ==> list_error(creds) == Some("凭证用户名不能为空"@),
        chars::trim(creds[i].username).len() > 0 && (exists|j: int|
            0 <= j < i && chars::trim((#[trigger] creds[j]).username) == chars::trim(
                creds[i].username,
            )) ==> list_error(creds) == Some("凭证用户名重复："@ + chars::trim(creds[i].username)),
{
    let n = creds.len() as int;
    let d = choose|d: int| #[trigger] only_default(creds, d, n);
    lemma_counts_once(creds, n, d);
    lemma_first_complaint(creds, 0, i);
}

proof fn lemma_first_complaint(creds: Seq<InputModel>, from: int, i: int)
    requires
        0 <= from <= i < creds.len(),
        forall|j: int| 0 <= j < i ==> in_order(#[trigger] creds[j]),
        forall|j: int, k: int|
            0 <= j < k < i ==> chars::trim((#[trigger] creds[j]).username) != chars::trim(
                (#[trigger] creds[k]).username,
            ),
    ensures
        entry_error(creds, i) is Some ==> first_entry_error(creds, from) == entry_error(creds, i),
    decreases i - from,
{
    if from < i {
        assert(in_order(creds[from]));
        assert(entry_error(creds, from) is None);
        lemma_first_complaint(creds, from + 1, i);
    }
}

/// A refusal comes out as an error of its kind, with its words.
pub proof fn law_refusal_is_an_error_of_its_kind(e: SaveError, why: Refusal)
    requires
        is_refusal(e, why),
    ensures
        why matches Refusal::Validation(m) ==> (e matches SaveError::Validation(t) && t@ == m),
        why matches Refusal::NotFound(m) ==> (e matches SaveError::NotFound(t) && t@ == m),
        e is Validation || e is NotFound,
{
}

proof fn lemma_ends(a: Seq<char>, m: Seq<char>)
    ensures
        chars::ends_with(a + m, m),
        chars::starts_with(a + m, a),
{
    assert((a + m).subrange(a.len() as int, (a + m).len() as int) =~= m);
    assert((a + m).subrange(0, a.len() as int) =~= a);
}

/// An error names its kind, and ends with the words that came with it.
pub proof fn law_error_ends_with_its_words(m: String)
    ensures
        save_error_text(SaveError::Db(m)) == "database error: "@ + m@,
        chars::ends_with(save_error_text(SaveError::Validation(m)), m@),
        chars::starts_with(save_error_text(SaveError::Validation(m)), "validation error: "@),
        chars::ends_with(save_error_text(SaveError::Keychain(m)), m@),
        chars::starts_with(save_error_text(SaveError::Keychain(m)), "keychain error: "@),
        chars::ends_with(save_error_text(SaveError::NotFound(m)), m@),
        chars::starts_with(save_error_text(SaveError::NotFound(m)), "environment not found: "@),
        credential_error_text(EnvCredentialError::Db(m)) == save_error_text(SaveError::Db(m)),
        credential_error_text(EnvCredentialError::Validation(m)) == save_error_text(
            SaveError::Validation(m),
        ),
        credential_error_text(EnvCredentialError::Keychain(m)) == save_error_text(
            SaveError::Keychain(m),
        ),
        chars::ends_with(credential_error_text(EnvCredentialError::NotFound(m)), m@),
        environment_error_text(EnvironmentError::Db(m)) == save_error_text(SaveError::Db(m)),
        environment_error_text(EnvironmentError::Keychain(m)) == save_error_text(
            SaveError::Keychain(m),
        ),
        environment_error_text(EnvironmentError::NotFound(m)) == save_error_text(
            SaveError::NotFound(m),
        ),
{
    lemma_ends("validation error: "@, m@);
    lemma_ends("keychain error: "@, m@);
    lemma_ends("environment not found: "@, m@);
    lemma_ends("credential not found: "@, m@);
}

proof fn lemma_row_found(rows: Seq<CredentialModel>, id: Seq<char>, i: int)
    requires
        0 <= i <= rows.len(),
    ensures
        match row_with_id(rows, id, i) {
            Some(r) => r.id == id && exists|k: int|
                i <= k < rows.len() && #[trigger] rows[k] == r && forall|j: int|
                    i <= j < k ==> (#[trigger] rows[j]).id != id,
            None => forall|j: int| i <= j < rows.len() ==> (#[trigger] rows[j]).id != id,
        },
    decreases rows.len() - i,
{
    if i < rows.len() {
        lemma_row_found(rows, id, i + 1);
        if rows[i].id == id {
            assert(row_with_id(rows, id, i) == Some(rows[i]));
        } else if row_with_id(rows, id, i + 1) is Some {
            let r = row_with_id(rows, id, i + 1)->0;
            let k = choose|k: int|
                i + 1 <= k < rows.len() && #[trigger] rows[k] == r && forall|j: int|
                    i + 1 <= j < k ==> (#[trigger] rows[j]).id != id;
            assert(rows[k] == r);
        }
    }
}

/// The row that is found by an id is the first that has it; none is found only where none
/// has it.
pub proof fn law_row_is_found_by_its_id(rows: Seq<CredentialModel>, id: Seq<char>)
    ensures
        match row_with_id(rows, id, 0) {
            Some(r) => r.id == id && exists|k: int|
                0 <= k < rows.len() && #[trigger] rows[k] == r && forall|j: int|
                    0 <= j < k ==> (#[trigger] rows[j]).id != id,
            None => forall|j: int| 0 <= j < rows.len() ==> (#[trigger] rows[j]).id != id,
        },
{
    lemma_row_found(rows, id, 0);
}

/// What is wrong with the way in which a credential authenticates is told in words: a way
/// that is not known, or a key without its path.
pub proof fn law_complaint_about_the_way_in(creds: Seq<InputModel>, i: int)
    requires
        0 <= i < creds.len(),
        chars::trim(creds[i].username).len() > 0,
        forall|j: int|
            0 <= j < i ==> chars::trim((#[trigger] creds[j]).username) != chars::trim(
                creds[i].username,
            ),
    ensures
        ({
            let c = creds[i];
            let e = entry_error(creds, i);
            if c.auth_type == "password"@ {
                e is None
            } else if c.auth_type == "private_key"@ {
                e == (if c.private_key_path is Some && chars::trim(c.private_key_path->0).len() > 0 {
                    None
                } else {
                    Some("私钥认证需要填写私钥路径"@)
                })
            } else {
                e == Some("auth_type 必须是 private_key 或 password"@)
            }
        }),
{
    reveal_strlit("password");
    reveal_strlit("private_key");
    assert("password"@.len() != "private_key"@.len());
}

/// A list that is empty, or that does not name one default, is refused in words, with how many
/// it names.
pub proof fn law_complaint_about_the_default(creds: Seq<InputModel>)
    ensures
        creds.len() == 0 ==> list_error(creds) == Some("至少需要一条凭证"@),
        creds.len() > 0 && (forall|i: int| 0 <= i < creds.len() ==> !(#[trigger] creds[i]).is_default)
            ==> list_error(creds) == Some(
            "必须恰好指定一个默认凭证（当前 "@ + chars::dec(0) + " 个）"@,
        ),
        creds.len() > 0 && (forall|i: int| 0 <= i < creds.len() ==> (#[trigger] creds[i]).is_default)
            && creds.len() != 1 ==> list_error(creds) == Some(
            "必须恰好指定一个默认凭证（当前 "@ + chars::dec(creds.len()) + " 个）"@,
        ),
{
    lemma_all_or_none(creds, creds.len() as int);
}

proof fn lemma_all_or_none(creds: Seq<InputModel>, n: int)
    requires
        0 <= n <= creds.len(),
    ensures
        (forall|i: int| 0 <= i < n ==> !(#[trigger] creds[i]).is_default) ==> count_defaults(
            creds,
            n,
        ) == 0,
        (forall|i: int| 0 <= i < n ==> (#[trigger] creds[i]).is_default) ==> count_defaults(
            creds,
            n,
        ) == n,
    decreases n,
{
    if n > 0 {
        lemma_all_or_none(creds, n - 1);
    }
}

proof fn lemma_first_unknown(creds: Seq<InputModel>, rows: Seq<CredentialModel>, from: int, i: int)
    requires
        0 <= from <= i < creds.len(),
        creds[i].id is Some,
        !has_row(rows, creds[i].id->0),
        forall|j: int|
            0 <= j < i && (#[trigger] creds[j]).id is Some ==> has_row(rows, creds[j].id->0),
    ensures
        first_unknown(creds, rows, from) == creds[i].id,
    decreases i - from,
{
    if from < i {
        assert(creds[from].id is Some ==> has_row(rows, creds[from].id->0));
        lemma_first_unknown(creds, rows, from + 1, i);
    }
}

/// A credential that names a row which is gone is told by that name, the first such one.
pub proof fn law_complaint_names_what_is_gone(req: SaveRequestModel, snap: SaveSnapshot, i: int)
    requires
        chars::trim(req.name).len() > 0,
        chars::trim(req.host).len() > 0,
        list_error(req.credentials) is None,
        !snap.name_taken,
        req.environment_id is Some ==> snap.environment_exists,
        0 <= i < req.credentials.len(),
        req.credentials[i].id is Some,
        !has_row(rows_before(req, snap), req.credentials[i].id->0),
        forall|j: int|
            0 <= j < i && (#[trigger] req.credentials[j]).id is Some ==> has_row(
                rows_before(req, snap),
                req.credentials[j].id->0,
            ),
    ensures
        refusal(req, snap) == Some(
            Refusal::Validation(
                "凭证 "@ + req.credentials[i].id->0 + " 不存在或已失效，请刷新后重试"@,
            ),
        ),
{
    lemma_first_unknown(req.credentials, rows_before(req, snap), 0, i);
}

/// The words of the errors, before what went wrong.
pub proof fn law_errors_in_words(m: String)
    ensures
        credential_error_text(EnvCredentialError::Db(m)) == "database error: "@ + m@,
        credential_error_text(EnvCredentialError::Validation(m)) == "validation error: "@ + m@,
        credential_error_text(EnvCredentialError::NotFound(m)) == "credential not found: "@ + m@,
        credential_error_text(EnvCredentialError::Keychain(m)) == "keychain error: "@ + m@,
        environment_error_text(EnvironmentError::NotFound(m)) == "environment not found: "@ + m@,
        environment_error_text(EnvironmentError::Db(m)) == "database error: "@ + m@,
        environment_error_text(EnvironmentError::Keychain(m)) == "keychain error: "@ + m@,
{
}

} // verus!
