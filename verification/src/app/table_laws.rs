//! What the tables of agents, environments, credentials, settings and repositories tell.

use crate::agent::detect::DetectedAgent;
use crate::app::agents::{
    activated, agent_key, any_auto, has_agent, is_auto, is_latest_auto, known_name, only_active,
    promoted, removed, upserted, AgentModel,
};
use crate::app::credentials::{cred_account, env_account};
use crate::app::env_credentials::{
    credential_key, default_from, new_credential_error, next_migration, with_username,
    without_default, CredentialModel, Migration, MigrationEvent,
};
use crate::app::environments::{
    connection_error, environment_keys, is_listing, kept_secret, new_environment_error, updated,
    with_name, EnvironmentModel, UpdateModel,
};
use crate::app::migration::{has_credential, without_credential};
use crate::app::service_repos::{
    repo_key, service_repo_error_text, ServiceRepoError, ServiceRepoModel,
};
use crate::app::settings::{normal_url, row_of, switch_value, url_char, value_of, SettingModel};
use crate::app::{env_credentials, environments, service_repos};
use crate::chars;
use crate::chars_laws::law_copies_at_the_end_go;
use crate::order;
use vstd::prelude::*;

verus! {

/// What a detection brings in changes no row that was added by hand or is of another
/// provider, and loses none. The row of the provider says where it was found now, which
/// version, and when; that it is active, and its id, stay.
pub proof fn law_detection_leaves_other_rows(
    before: Seq<AgentModel>,
    d: DetectedAgent,
    now: Seq<char>,
    after: Seq<AgentModel>,
    i: int,
)
    requires
        upserted(before, d, now, after),
        0 <= i < before.len(),
    ensures
        after.len() >= before.len(),
        before[i].source != "auto"@ || before[i].provider != d.provider@ ==> after[i] == before[i],
        before[i].source == "auto"@ && before[i].provider == d.provider@ ==> after[i] == (
        AgentModel {
            path: d.path@,
            version: d.version.deep_view(),
            detected_at: now,
            ..before[i]
        }) && after.len() == before.len(),
{
    if before[i].source == "auto"@ && before[i].provider == d.provider@ {
        assert(is_auto(before[i]));
    }
}

/// A provider that is detected for the first time gets one row at the end, which is not
/// active.
pub proof fn law_first_detection_adds_a_row(
    before: Seq<AgentModel>,
    d: DetectedAgent,
    now: Seq<char>,
    after: Seq<AgentModel>,
)
    requires
        upserted(before, d, now, after),
        forall|i: int|
            0 <= i < before.len() ==> (#[trigger] before[i]).source != "auto"@ || before[i].provider
                != d.provider@,
    ensures
        after.len() == before.len() + 1,
        after.last().provider == d.provider@,
        after.last().display_name == d.display_name@,
        after.last().path == d.path@,
        after.last().version == d.version.deep_view(),
        after.last().source == "auto"@,
        !after.last().is_active,
        after.last().detected_at == now,
{
}

/// Making an agent active changes nothing but which one is.
pub proof fn law_promotion_changes_nothing_else(
    before: Seq<AgentModel>,
    after: Seq<AgentModel>,
    i: int,
)
    requires
        promoted(before, after),
        0 <= i < before.len(),
    ensures
        after.len() == before.len(),
        after[i] == (AgentModel { is_active: after[i].is_active, ..before[i] }),
        before[i].is_active ==> after == before,
        after[i].is_active && !before[i].is_active ==> before[i].source == "auto"@ && forall|j: int|
            0 <= j < before.len() && (#[trigger] before[j]).source == "auto"@ ==> !chars::less(
                before[i].detected_at,
                before[j].detected_at,
            ),
{
    if before[i].is_active {
        assert(crate::app::agents::any_active(before));
    }
    if after != before {
        let k = choose|k: int| #[trigger] is_latest_auto(before, k) && after == activated(before, k);
        assert forall|j: int| 0 <= j < before.len() && (
        #[trigger] before[j]).source == "auto"@ implies !chars::less(
            before[k].detected_at,
            before[j].detected_at,
        ) by {
            assert(is_auto(before[j]));
        }
    }
}

/// Switching changes nothing but which agent is active.
pub proof fn law_switch_changes_nothing_else(rows: Seq<AgentModel>, id: Seq<char>, i: int)
    requires
        0 <= i < rows.len(),
    ensures
        only_active(rows, id).len() == rows.len(),
        only_active(rows, id)[i] == (AgentModel { is_active: rows[i].id == id, ..rows[i] }),
{
}

/// A removal takes one row away, of the id asked for, and none where there is no such row.
pub proof fn law_removal_takes_one_row(
    before: Seq<AgentModel>,
    id: Seq<char>,
    after: Seq<AgentModel>,
)
    requires
        removed(before, id, after),
    ensures
        has_agent(before, id) ==> after.len() == before.len() - 1,
        !has_agent(before, id) ==> after == before,
        crate::app::agents::distinct_agents(before) ==> !has_agent(after, id),
{
    if has_agent(before, id) {
        let i = choose|i: int|
            0 <= i < before.len() && (#[trigger] before[i]).id == id && if before[i].is_active {
                promoted(before.remove(i), after)
            } else {
                after == before.remove(i)
            };
        let rest = before.remove(i);
        assert(after.len() == rest.len());
        if crate::app::agents::distinct_agents(before) {
            assert forall|k: int| 0 <= k < after.len() implies (#[trigger] after[k]).id != id by {
                let j = if k < i {
                    k
                } else {
                    k + 1
                };
                assert(rest[k] == before[j]);
                assert(before[j].id != id);
                if before[i].is_active {
                    law_promotion_changes_nothing_else(rest, after, k);
                }
            }
        }
    }
}

/// The active agent is listed first, then those that were detected before those that were
/// added by hand; among equals the latest comes first.
pub proof fn law_agents_are_listed(rows: Seq<AgentModel>, o: Seq<usize>, i: int, j: int)
    requires
        order::is_order(rows.map_values(|a: AgentModel| agent_key(a)), true, o),
        0 <= i < j < o.len(),
    ensures
        o.len() == rows.len(),
        ({
            let a = rows[o[i] as int];
            let b = rows[o[j] as int];
            &&& b.is_active ==> a.is_active
            &&& a.is_active == b.is_active && b.source == "auto"@ ==> a.source == "auto"@
            &&& a.is_active == b.is_active && (a.source == "auto"@) == (b.source == "auto"@)
                ==> !chars::less(a.detected_at, b.detected_at)
        }),
{
    let keys = rows.map_values(|a: AgentModel| agent_key(a));
    assert(order::precedes(keys, true, o[i] as int, o[j] as int));
    chars::lemma_less_total(keys[o[i] as int].text, keys[o[j] as int].text);
}

/// Two providers are known.
pub proof fn law_two_providers_are_known(provider: Seq<char>)
    ensures
        known_name(provider) is Some <==> provider == "opencode"@ || provider == "codeagentcli"@,
        known_name("opencode"@) == Some("OpenCode"@),
        known_name("codeagentcli"@) == Some("CodeAgentCLI"@),
{
    reveal_strlit("opencode");
    reveal_strlit("codeagentcli");
    assert("opencode"@.len() != "codeagentcli"@.len());
}

/// The secret of an environment is kept under another name than that of any of its
/// credentials, and environments keep theirs apart.
pub proof fn law_names_of_secrets(env: Seq<char>, other: Seq<char>, cred: Seq<char>)
    requires
        !env.contains('/'),
        !other.contains('/'),
    ensures
        env_account(env) != cred_account(env, cred),
        env != other ==> env_account(env) != env_account(other),
        env != other ==> cred_account(env, cred) != cred_account(other, cred),
        chars::starts_with(env_account(env), "env/"@ + env + "/"@),
        chars::starts_with(cred_account(env, cred), "env/"@ + env + "/"@),
        chars::ends_with(cred_account(env, cred), "/"@ + cred),
        chars::ends_with(env_account(env), "/secret"@),
{
    reveal_strlit("env/");
    reveal_strlit("/secret");
    reveal_strlit("/cred/");
    reveal_strlit("/");
    let a = env_account(env);
    let c = cred_account(env, cred);
    let n = 4 + env.len() as int;
    assert(a[n + 1] == 's');
    assert(c[n + 1] == 'c');
    let head = "env/"@ + env + "/"@;
    assert(a.subrange(0, head.len() as int) =~= head);
    assert(c.subrange(0, head.len() as int) =~= head);
    assert(c.subrange(c.len() - cred.len() - 1, c.len() as int) =~= "/"@ + cred);
    assert(a.subrange(a.len() - 7, a.len() as int) =~= "/secret"@);
    if env != other {
        lemma_cut(env, other, "/secret"@, "/secret"@);
        lemma_cut(env, other, "/cred/"@ + cred, "/cred/"@ + cred);
        assert(c =~= "env/"@ + env + ("/cred/"@ + cred));
        assert(cred_account(other, cred) =~= "env/"@ + other + ("/cred/"@ + cred));
    }
}

proof fn lemma_cut(a: Seq<char>, b: Seq<char>, x: Seq<char>, y: Seq<char>)
    requires
        a != b,
        !a.contains('/'),
        !b.contains('/'),
        x.len() > 0 && x[0] == '/',
        y.len() > 0 && y[0] == '/',
    ensures
        "env/"@ + a + x != "env/"@ + b + y,
{
    reveal_strlit("env/");
    let s = "env/"@ + a + x;
    let t = "env/"@ + b + y;
    if s == t {
        if a.len() < b.len() {
            assert(s[4 + a.len() as int] == '/');
            assert(t[4 + a.len() as int] == b[a.len() as int]);
            assert(b.contains('/'));
        } else if b.len() < a.len() {
            assert(t[4 + b.len() as int] == '/');
            assert(s[4 + b.len() as int] == a[b.len() as int]);
            assert(a.contains('/'));
        } else {
            assert forall|i: int| 0 <= i < a.len() implies a[i] == b[i] by {
                assert(s[4 + i] == a[i]);
                assert(t[4 + i] == b[i]);
            }
            assert(a =~= b);
        }
    }
}

proof fn lemma_with_username(t: Seq<CredentialModel>, name: Seq<char>, i: int)
    requires
        0 <= i,
    ensures
        match with_username(t, name, i) {
            Some(k) => i <= k < t.len() && t[k].username == name && forall|j: int|
                i <= j < k ==> (#[trigger] t[j]).username != name,
            None => forall|j: int| i <= j < t.len() ==> (#[trigger] t[j]).username != name,
        },
    decreases t.len() - i,
{
    if i < t.len() && t[i].username != name {
        lemma_with_username(t, name, i + 1);
    }
}

/// A credential is found by its user name where there is one, the first of them.
pub proof fn law_credential_is_found_by_name(t: Seq<CredentialModel>, name: Seq<char>)
    ensures
        match with_username(t, name, 0) {
            Some(k) => 0 <= k < t.len() && t[k].username == name && forall|j: int|
                0 <= j < k ==> (#[trigger] t[j]).username != name,
            None => forall|j: int| 0 <= j < t.len() ==> (#[trigger] t[j]).username != name,
        },
{
    lemma_with_username(t, name, 0);
}

proof fn lemma_default_from(t: Seq<CredentialModel>, i: int)
    requires
        0 <= i,
    ensures
        match default_from(t, i) {
            Some(k) => i <= k < t.len() && t[k].is_default && forall|j: int|
                i <= j < k ==> !(#[trigger] t[j]).is_default,
            None => forall|j: int| i <= j < t.len() ==> !(#[trigger] t[j]).is_default,
        },
    decreases t.len() - i,
{
    if i < t.len() && !t[i].is_default {
        lemma_default_from(t, i + 1);
    }
}

/// The default credential is one that is marked so; there is none just where none is.
pub proof fn law_default_is_marked_so(t: Seq<CredentialModel>)
    ensures
        match default_from(t, 0) {
            Some(k) => 0 <= k < t.len() && t[k].is_default,
            None => forall|j: int| 0 <= j < t.len() ==> !(#[trigger] t[j]).is_default,
        },
{
    lemma_default_from(t, 0);
}

/// A new credential is taken just where it has a user name that no other has, a known way to
/// authenticate, and the path of a key where that needs one.
pub proof fn law_credentials_that_are_taken(
    t: Seq<CredentialModel>,
    username: Seq<char>,
    auth_type: Seq<char>,
    path: Option<Seq<char>>,
)
    ensures
        new_credential_error(t, username, auth_type, path) is None <==> {
            &&& chars::trim(username).len() > 0
            &&& auth_type == "password"@ || (auth_type == "private_key"@ && path is Some
                && chars::trim(path->0).len() > 0)
            &&& forall|j: int|
                0 <= j < t.len() ==> (#[trigger] t[j]).username != chars::trim(username)
        },
{
    reveal_strlit("password");
    reveal_strlit("private_key");
    assert("password"@.len() != "private_key"@.len());
    lemma_with_username(t, chars::trim(username), 0);
}

/// Taking the default away changes nothing else.
pub proof fn law_default_is_taken_away(t: Seq<CredentialModel>, i: int)
    requires
        0 <= i < t.len(),
    ensures
        without_default(t).len() == t.len(),
        without_default(t)[i] == (CredentialModel { is_default: false, ..t[i] }),
{
}

/// The default credential is listed first, then the others as they were made.
pub proof fn law_credentials_are_listed(t: Seq<CredentialModel>, o: Seq<usize>, i: int, j: int)
    requires
        order::is_order(t.map_values(|c: CredentialModel| credential_key(c)), false, o),
        0 <= i < j < o.len(),
    ensures
        o.len() == t.len(),
        t[o[j] as int].is_default ==> t[o[i] as int].is_default,
        t[o[i] as int].is_default == t[o[j] as int].is_default ==> !chars::less(
            t[o[j] as int].created_at,
            t[o[i] as int].created_at,
        ),
{
    let keys = t.map_values(|c: CredentialModel| credential_key(c));
    assert(order::precedes(keys, false, o[i] as int, o[j] as int));
    chars::lemma_less_total(keys[o[i] as int].text, keys[o[j] as int].text);
}

/// A secret that was read is the one that is stored anew. Whatever fails before the row is
/// made leaves the environment for the next start.
pub proof fn law_failed_move_is_tried_again(state: Migration, secret: String, had_secret: bool)
    ensures
        next_migration(Migration::ReadSecret, MigrationEvent::Secret(Some(secret))) == (
        Migration::MoveSecret { secret }),
        next_migration(Migration::ReadSecret, MigrationEvent::Secret(None)) == (
        Migration::InsertRow { had_secret: false }),
        next_migration(Migration::ReadSecret, MigrationEvent::Failed) is Skipped,
        next_migration(Migration::MoveSecret { secret }, MigrationEvent::Succeeded) == (
        Migration::InsertRow { had_secret: true }),
        next_migration(Migration::MoveSecret { secret }, MigrationEvent::Failed) is Skipped,
        next_migration(Migration::InsertRow { had_secret }, MigrationEvent::Failed) is Skipped,
        next_migration(Migration::InsertRow { had_secret: true }, MigrationEvent::Succeeded)
            is DeleteFormer,
        next_migration(Migration::InsertRow { had_secret: false }, MigrationEvent::Succeeded) is Done,
        next_migration(Migration::DeleteFormer, MigrationEvent::Failed) is Done,
        state is Done || state is Skipped ==> next_migration(state, MigrationEvent::Succeeded)
            == state,
{
}

/// Those environments are migrated, in their order, that have no credential.
pub proof fn law_bare_environments_are_migrated(
    envs: Seq<EnvironmentModel>,
    t: Seq<CredentialModel>,
    n: int,
)
    requires
        0 <= n <= envs.len() <= usize::MAX,
    ensures
        ({
            let r = without_credential(envs, t, n);
            &&& forall|k: int|
                0 <= k < r.len() ==> (#[trigger] r[k]) < n && forall|j: int|
                    0 <= j < t.len() ==> (#[trigger] t[j]).environment_id != envs[r[k] as int].id
            &&& forall|i: int|
                0 <= i < n && (forall|j: int|
                    0 <= j < t.len() ==> (#[trigger] t[j]).environment_id != (
                    #[trigger] envs[i]).id) ==> r.contains(i as usize)
            &&& forall|a: int, b: int|
                0 <= a < b < r.len() ==> #[trigger] r[a] < #[trigger] r[b]
        }),
    decreases n,
{
    if n > 0 {
        law_bare_environments_are_migrated(envs, t, n - 1);
        let f = without_credential(envs, t, n - 1);
        let r = without_credential(envs, t, n);
        assert forall|i: int| 0 <= i < n && (forall|j: int|
            0 <= j < t.len() ==> (#[trigger] t[j]).environment_id != (
            #[trigger] envs[i]).id) implies r.contains(i as usize) by {
            assert(!has_credential(t, envs[i].id));
            if i < n - 1 {
                let k = choose|k: int| 0 <= k < f.len() && f[k] == i as usize;
                assert(r[k] == i as usize);
            } else {
                assert(r[r.len() - 1] == i as usize);
            }
        }
        assert forall|k: int| 0 <= k < r.len() implies (#[trigger] r[k]) < n && forall|j: int|
            0 <= j < t.len() ==> (#[trigger] t[j]).environment_id != envs[r[k] as int].id by {
            if k < f.len() {
                assert(r[k] == f[k]);
            } else {
                assert(!has_credential(t, envs[n - 1].id));
            }
        }
    }
}

proof fn lemma_with_name(rows: Seq<EnvironmentModel>, name: Seq<char>, i: int)
    requires
        0 <= i,
    ensures
        match with_name(rows, name, i) {
            Some(e) => e.name == name && rows.contains(e),
            None => forall|j: int| i <= j < rows.len() ==> (#[trigger] rows[j]).name != name,
        },
    decreases rows.len() - i,
{
    if i < rows.len() {
        if rows[i].name != name {
            lemma_with_name(rows, name, i + 1);
        } else {
            assert(rows.contains(rows[i]));
        }
    }
}

/// An environment is found by its name just where one has it.
pub proof fn law_environment_is_found_by_name(rows: Seq<EnvironmentModel>, name: Seq<char>)
    ensures
        match with_name(rows, name, 0) {
            Some(e) => e.name == name && rows.contains(e),
            None => forall|j: int| 0 <= j < rows.len() ==> (#[trigger] rows[j]).name != name,
        },
{
    lemma_with_name(rows, name, 0);
}

/// A new environment is taken just where it has a name that no other has, a host, a user and
/// a known way to authenticate.
pub proof fn law_environments_that_are_taken(
    rows: Seq<EnvironmentModel>,
    name: Seq<char>,
    host: Seq<char>,
    user: Seq<char>,
    auth_type: Seq<char>,
)
    ensures
        new_environment_error(rows, name, host, user, auth_type) is None <==> {
            &&& chars::trim(name).len() > 0
            &&& chars::trim(host).len() > 0
            &&& chars::trim(user).len() > 0
            &&& auth_type == "password"@ || auth_type == "private_key"@
            &&& forall|j: int| 0 <= j < rows.len() ==> (#[trigger] rows[j]).name != chars::trim(name)
        },
{
    lemma_with_name(rows, chars::trim(name), 0);
    if with_name(rows, chars::trim(name), 0) is Some {
        let e = with_name(rows, chars::trim(name), 0)->0;
        let k = choose|k: int| 0 <= k < rows.len() && rows[k] == e;
        assert(rows[k].name == chars::trim(name));
    }
}

/// An update sets all that can be set; the id and the time of the adding stay.
pub proof fn law_update_sets_all(e: EnvironmentModel, u: UpdateModel)
    ensures
        ({
            let r = updated(e, u);
            &&& r.id == e.id && r.created_at == e.created_at
            &&& r.name == u.name && r.host == u.host && r.port == u.port && r.user == u.user
            &&& r.auth_type == u.auth_type && r.private_key_path == u.private_key_path
        }),
{
}

/// A secret is stored as it came, unless it is empty.
pub proof fn law_empty_secret_is_none(s: Seq<char>)
    ensures
        s.len() > 0 ==> kept_secret(Some(s)) == Some(s),
        s.len() == 0 ==> kept_secret(Some(s)) is None,
        kept_secret(None) is None,
{
}

/// All environments are listed, in the order in which they were added.
pub proof fn law_environments_are_listed(
    rows: Seq<EnvironmentModel>,
    r: Seq<EnvironmentModel>,
    x: int,
)
    requires
        is_listing(rows, r),
        0 <= x < rows.len(),
    ensures
        r.len() == rows.len(),
        r.contains(rows[x]),
        forall|i: int, j: int|
            0 <= i < j < r.len() ==> !chars::less(
                (#[trigger] r[j]).created_at,
                (#[trigger] r[i]).created_at,
            ),
{
    let keys = environment_keys(rows);
    let o = choose|o: Seq<usize>| #[trigger]
        order::is_order(keys, false, o) && r.len() == rows.len() && forall|i: int|
            0 <= i < r.len() ==> #[trigger] r[i] == rows[o[i] as int];
    let at = order::lemma_order_is_complete(keys, false, o, x);
    assert(r[at] == rows[x]);
    assert forall|i: int, j: int| 0 <= i < j < r.len() implies !chars::less(
        (#[trigger] r[j]).created_at,
        (#[trigger] r[i]).created_at,
    ) by {
        assert(order::precedes(keys, false, o[i] as int, o[j] as int));
        chars::lemma_less_total(keys[o[i] as int].text, keys[o[j] as int].text);
    }
}

/// A connection is fine just where it was made and the command answered as it should; else
/// what went wrong first is told.
pub proof fn law_connections_that_are_fine(
    connected: Result<(), String>,
    echo: Result<String, String>,
)
    ensures
        connection_error(connected, echo) is None <==> connected is Ok && echo is Ok && chars::trim(
            echo->Ok_0@,
        ) == "friday-ok"@,
        connected matches Err(e) ==> connection_error(connected, echo) == Some(e@),
        connected is Ok && echo is Err ==> connection_error(connected, echo) == Some(echo->Err_0@),
{
}

/// A base URL is taken just where, without blanks around it and slashes at its end, it starts
/// with a known scheme and has known characters only; it is kept in that form.
pub proof fn law_urls_that_are_taken(input: Seq<char>)
    ensures
        ({
            let url = chars::trim_end_char(chars::trim(input), '/');
            normal_url(input) is Ok <==> {
                &&& url.len() > 0
                &&& chars::starts_with(url, "http://"@) || chars::starts_with(url, "https://"@)
                &&& forall|i: int| 0 <= i < url.len() ==> url_char(#[trigger] url[i])
            }
        }),
        normal_url(input) matches Ok(url) ==> url.len() > 0 && url.last() != '/'
            && chars::starts_with(chars::trim(input), url),
{
    law_copies_at_the_end_go(chars::trim(input), '/');
}

/// The characters of a base URL are letters and digits of ASCII and seven others.
pub proof fn law_characters_of_a_url(c: char)
    ensures
        url_char(c) <==> ('a' <= c && c <= 'z') || ('A' <= c && c <= 'Z') || ('0' <= c && c <= '9')
            || seq![':', '/', '.', '-', '_', '~', '+'].contains(c),
{
    let s = seq![':', '/', '.', '-', '_', '~', '+'];
    assert(s[0] == ':' && s[1] == '/' && s[2] == '.' && s[3] == '-' && s[4] == '_' && s[5] == '~'
        && s[6] == '+');
    if s.contains(c) {
        let i = choose|i: int| 0 <= i < s.len() && s[i] == c;
        assert(i == 0 || i == 1 || i == 2 || i == 3 || i == 4 || i == 5 || i == 6);
    }
}

/// A repository that was recorded leaves those of other services as they were.
pub proof fn law_other_services_stay(
    rows: Seq<ServiceRepoModel>,
    service: Seq<char>,
    url: Seq<char>,
    last_ref: Option<Seq<char>>,
    now: Seq<char>,
    i: int,
)
    requires
        0 <= i < rows.len(),
        rows[i].service != service,
    ensures
        service_repos::upserted(rows, service, url, last_ref, now)[i] == rows[i],
        service_repos::row_of(rows, service, 0) is Some ==> service_repos::upserted(
            rows,
            service,
            url,
            last_ref,
            now,
        ).len() == rows.len(),
        service_repos::row_of(rows, service, 0) is None ==> service_repos::upserted(
            rows,
            service,
            url,
            last_ref,
            now,
        ).len() == rows.len() + 1,
{
    lemma_repo_row(rows, service, 0);
}

proof fn lemma_repo_row(rows: Seq<ServiceRepoModel>, service: Seq<char>, i: int)
    requires
        0 <= i,
    ensures
        match service_repos::row_of(rows, service, i) {
            Some(k) => i <= k < rows.len() && rows[k].service == service && forall|j: int|
                i <= j < k ==> (#[trigger] rows[j]).service != service,
            None => forall|j: int| i <= j < rows.len() ==> (#[trigger] rows[j]).service != service,
        },
    decreases rows.len() - i,
{
    if i < rows.len() && rows[i].service != service {
        lemma_repo_row(rows, service, i + 1);
    }
}

/// What is recorded is the repository, the ref, and the time, as that of the change and of
/// the use.
pub proof fn law_repository_is_recorded(
    service: Seq<char>,
    url: Seq<char>,
    last_ref: Option<Seq<char>>,
    now: Seq<char>,
)
    ensures
        ({
            let r = service_repos::fresh_row(service, url, last_ref, now);
            r.service == service && r.repo_url == url && r.last_ref == last_ref && r.updated_at
                == now && r.last_used_at == now
        }),
{
}

/// The repository that was used last is listed first.
pub proof fn law_repositories_are_listed(
    rows: Seq<ServiceRepoModel>,
    o: Seq<usize>,
    i: int,
    j: int,
)
    requires
        order::is_order(rows.map_values(|m: ServiceRepoModel| repo_key(m)), true, o),
        0 <= i < j < o.len(),
    ensures
        o.len() == rows.len(),
        !chars::less(rows[o[i] as int].last_used_at, rows[o[j] as int].last_used_at),
{
    let keys = rows.map_values(|m: ServiceRepoModel| repo_key(m));
    assert(order::precedes(keys, true, o[i] as int, o[j] as int));
    chars::lemma_less_total(keys[o[i] as int].text, keys[o[j] as int].text);
}

proof fn lemma_environment_found(rows: Seq<EnvironmentModel>, id: Seq<char>, i: int)
    requires
        0 <= i <= rows.len(),
    ensures
        match environments::with_id(rows, id, i) {
            Some(r) => r.id == id && exists|k: int|
                i <= k < rows.len() && #[trigger] rows[k] == r && forall|j: int|
                    i <= j < k ==> (#[trigger] rows[j]).id != id,
            None => forall|j: int| i <= j < rows.len() ==> (#[trigger] rows[j]).id != id,
        },
        match environments::with_name(rows, id, i) {
            Some(r) => r.name == id && exists|k: int|
                i <= k < rows.len() && #[trigger] rows[k] == r && forall|j: int|
                    i <= j < k ==> (#[trigger] rows[j]).name != id,
            None => forall|j: int| i <= j < rows.len() ==> (#[trigger] rows[j]).name != id,
        },
    decreases rows.len() - i,
{
    if i < rows.len() {
        lemma_environment_found(rows, id, i + 1);
        if rows[i].id == id {
            assert(environments::with_id(rows, id, i) == Some(rows[i]));
        } else if environments::with_id(rows, id, i + 1) is Some {
            let r = environments::with_id(rows, id, i + 1)->0;
            let k = choose|k: int|
                i + 1 <= k < rows.len() && #[trigger] rows[k] == r && forall|j: int|
                    i + 1 <= j < k ==> (#[trigger] rows[j]).id != id;
            assert(rows[k] == r);
        }
        if rows[i].name == id {
            assert(environments::with_name(rows, id, i) == Some(rows[i]));
        } else if environments::with_name(rows, id, i + 1) is Some {
            let r = environments::with_name(rows, id, i + 1)->0;
            let k = choose|k: int|
                i + 1 <= k < rows.len() && #[trigger] rows[k] == r && forall|j: int|
                    i + 1 <= j < k ==> (#[trigger] rows[j]).name != id;
            assert(rows[k] == r);
        }
    }
}

/// The environment that is found by an id, or by a name, is the first that has it; none is
/// found only where none has it.
pub proof fn law_environment_is_found(rows: Seq<EnvironmentModel>, wanted: Seq<char>)
    ensures
        match environments::with_id(rows, wanted, 0) {
            Some(r) => r.id == wanted && exists|k: int|
                0 <= k < rows.len() && #[trigger] rows[k] == r && forall|j: int|
                    0 <= j < k ==> (#[trigger] rows[j]).id != wanted,
            None => forall|j: int| 0 <= j < rows.len() ==> (#[trigger] rows[j]).id != wanted,
        },
        match environments::with_name(rows, wanted, 0) {
            Some(r) => r.name == wanted && exists|k: int|
                0 <= k < rows.len() && #[trigger] rows[k] == r && forall|j: int|
                    0 <= j < k ==> (#[trigger] rows[j]).name != wanted,
            None => forall|j: int| 0 <= j < rows.len() ==> (#[trigger] rows[j]).name != wanted,
        },
{
    lemma_environment_found(rows, wanted, 0);
}

/// A new environment is refused where its name, host or user is blank, where it is to be
/// authenticated some other way than by key or password, or where its name is taken; for the
/// first of these, in words, and for nothing else.
pub proof fn law_environments_that_can_be_added(
    rows: Seq<EnvironmentModel>,
    name: Seq<char>,
    host: Seq<char>,
    user: Seq<char>,
    auth: Seq<char>,
)
    ensures
        ({
            let e = environments::new_environment_error(rows, name, host, user, auth);
            let blank = chars::trim(name).len() == 0 || chars::trim(host).len() == 0 || chars::trim(
                user,
            ).len() == 0;
            let other = auth != "private_key"@ && auth != "password"@;
            let taken = exists|i: int|
                0 <= i < rows.len() && (#[trigger] rows[i]).name == chars::trim(name);
            &&& e is None <==> !blank && !other && !taken
            &&& blank ==> e == Some("name/host/user 不能为空"@)
            &&& !blank && other ==> e == Some("auth_type 必须是 private_key 或 password"@)
            &&& !blank && !other && taken ==> e == Some("同名环境已存在"@)
        }),
{
    lemma_environment_found(rows, chars::trim(name), 0);
}

proof fn lemma_credential_found(t: Seq<CredentialModel>, id: Seq<char>, i: int)
    requires
        0 <= i <= t.len(),
    ensures
        match env_credentials::with_id(t, id, i) {
            Some(k) => i <= k < t.len() && t[k].id == id && forall|j: int|
                i <= j < k ==> (#[trigger] t[j]).id != id,
            None => forall|j: int| i <= j < t.len() ==> (#[trigger] t[j]).id != id,
        },
    decreases t.len() - i,
{
    if i < t.len() {
        lemma_credential_found(t, id, i + 1);
    }
}

/// The credential that is found by an id is the first that has it; none is found only where
/// none has it.
pub proof fn law_credential_is_found(t: Seq<CredentialModel>, id: Seq<char>)
    ensures
        match env_credentials::with_id(t, id, 0) {
            Some(k) => 0 <= k < t.len() && t[k].id == id && forall|j: int|
                0 <= j < k ==> (#[trigger] t[j]).id != id,
            None => forall|j: int| 0 <= j < t.len() ==> (#[trigger] t[j]).id != id,
        },
{
    lemma_credential_found(t, id, 0);
}

/// Some agent was detected once a row of the table says so, wherever it stands.
pub proof fn law_detected_agent_counts(rows: Seq<AgentModel>, a: AgentModel, more: Seq<AgentModel>)
    ensures
        a.source == "auto"@ ==> any_auto(rows + seq![a] + more),
        a.source != "auto"@ ==> any_auto(rows + seq![a] + more) == any_auto(rows + more),
        !any_auto(Seq::empty()),
{
    let all = rows + seq![a] + more;
    let n = rows.len() as int;
    assert(all[n] == a);
    if a.source != "auto"@ {
        if any_auto(all) {
            let i = choose|i: int|
                0 <= i < all.len() && crate::app::agents::is_auto(#[trigger] all[i]);
            let k = if i < n {
                i
            } else {
                i - 1
            };
            assert((rows + more)[k] == all[i]);
        }
        if any_auto(rows + more) {
            let i = choose|i: int|
                0 <= i < (rows + more).len() && crate::app::agents::is_auto(
                    #[trigger] (rows + more)[i],
                );
            let k = if i < n {
                i
            } else {
                i + 1
            };
            assert(all[k] == (rows + more)[i]);
        }
    }
}

/// The switch is stored by the words `true` and `false`.
pub proof fn law_switch_is_stored_in_words(enabled: bool)
    ensures
        switch_value(true) == "true"@,
        switch_value(false) == "false"@,
        switch_value(enabled) == "true"@ <==> enabled,
{
    reveal_strlit("true");
    reveal_strlit("false");
    assert("true"@.len() != "false"@.len());
}

proof fn lemma_setting_found(rows: Seq<SettingModel>, key: Seq<char>, i: int)
    requires
        0 <= i <= rows.len(),
    ensures
        i <= row_of(rows, key, i) <= rows.len(),
        row_of(rows, key, i) < rows.len() ==> rows[row_of(rows, key, i)].key == key,
        forall|j: int| i <= j < row_of(rows, key, i) ==> (#[trigger] rows[j]).key != key,
    decreases rows.len() - i,
{
    if i < rows.len() && rows[i].key != key {
        lemma_setting_found(rows, key, i + 1);
    }
}

/// The value of a setting is that of the first row with its key; it has none only where no row
/// has that key.
pub proof fn law_first_setting_counts(rows: Seq<SettingModel>, key: Seq<char>, i: int)
    requires
        0 <= i < rows.len(),
        forall|j: int| 0 <= j < i ==> (#[trigger] rows[j]).key != key,
    ensures
        rows[i].key == key ==> value_of(rows, key) == Some(rows[i].value),
        rows[i].key != key && i + 1 == rows.len() ==> value_of(rows, key) is None,
        value_of(Seq::empty(), key) is None,
{
    lemma_setting_found(rows, key, 0);
    lemma_setting_found(Seq::empty(), key, 0);
}

/// The error of the repositories keeps its words.
pub proof fn law_repository_error_in_words(m: String)
    ensures
        service_repo_error_text(ServiceRepoError::Db(m)) == "database error: "@ + m@,
{
}

/// What is wrong with a URL is said: that it is empty, how it must start, or what it may hold,
/// the first of these that is so.
pub proof fn law_refused_urls_in_words(input: Seq<char>)
    ensures
        ({
            let url = chars::trim_end_char(chars::trim(input), '/');
            let started = chars::starts_with(url, "http://"@) || chars::starts_with(
                url,
                "https://"@,
            );
            match normal_url(input) {
                Ok(u) => u == url && url.len() > 0 && started,
                Err(why) => why == (if url.len() == 0 {
                    "base url cannot be empty"@
                } else if !started {
                    "base url must start with http:// or https://"@
                } else {
                    "base url contains unsupported characters (allowed: alphanumerics and : / . - _ ~ +)"@
                }),
            }
        }),
{
}

} // verus!
