//! Environments: the machines that a diagnosis reaches.

use crate::chars;
use crate::ids;
use crate::order;
use crate::order::{OrderKey, OrderKeyModel};
use crate::text;
use vstd::prelude::*;

verus! {

#[derive(Debug)]
pub enum EnvironmentError {
    Db(String),
    Keychain(String),
    NotFound(String),
}

/// The error in words.
pub open spec fn environment_error_text(e: EnvironmentError) -> Seq<char> {
    match e {
        EnvironmentError::Db(m) => "database error: "@ + m@,
        EnvironmentError::Keychain(m) => "keychain error: "@ + m@,
        EnvironmentError::NotFound(m) => "environment not found: "@ + m@,
    }
}

impl EnvironmentError {
    pub fn message(&self) -> (r: String)
        ensures
            r@ == environment_error_text(*self),
    {
        let (front, m) = match self {
            EnvironmentError::Db(m) => ("database error: ", m),
            EnvironmentError::Keychain(m) => ("keychain error: ", m),
            EnvironmentError::NotFound(m) => ("environment not found: ", m),
        };
        let mut s = text::owned(front);
        s.append(m.as_str());
        s
    }
}

/// One row of the table of environments.
#[derive(Debug)]
pub struct EnvironmentRow {
    pub id: String,
    pub name: String,
    pub host: String,
    pub port: i64,
    pub user: String,
    pub auth_type: String,
    pub private_key_path: Option<String>,
    pub created_at: String,
}

#[verifier::ext_equal]
pub struct EnvironmentModel {
    pub id: Seq<char>,
    pub name: Seq<char>,
    pub host: Seq<char>,
    pub port: i64,
    pub user: Seq<char>,
    pub auth_type: Seq<char>,
    pub private_key_path: Option<Seq<char>>,
    pub created_at: Seq<char>,
}

impl View for EnvironmentRow {
    type V = EnvironmentModel;

    open spec fn view(&self) -> EnvironmentModel {
        EnvironmentModel {
            id: self.id@,
            name: self.name@,
            host: self.host@,
            port: self.port,
            user: self.user@,
            auth_type: self.auth_type@,
            private_key_path: self.private_key_path.deep_view(),
            created_at: self.created_at@,
        }
    }
}

pub open spec fn environments(s: Seq<EnvironmentRow>) -> Seq<EnvironmentModel> {
    s.map_values(|e: EnvironmentRow| e@)
}

fn copy_row(e: &EnvironmentRow) -> (r: EnvironmentRow)
    ensures
        r@ == e@,
{
    EnvironmentRow {
        id: e.id.clone(),
        name: e.name.clone(),
        host: e.host.clone(),
        port: e.port,
        user: e.user.clone(),
        auth_type: e.auth_type.clone(),
        private_key_path: text::clone_opt(&e.private_key_path),
        created_at: e.created_at.clone(),
    }
}

/// The two ways to authenticate that a row may name.
pub open spec fn known_auth_type(auth_type: Seq<char>) -> bool {
    auth_type == "private_key"@ || auth_type == "password"@
}

pub fn is_known_auth_type(auth_type: &str) -> (r: bool)
    ensures
        r == known_auth_type(auth_type@),
{
    text::same(auth_type, "private_key") || text::same(auth_type, "password")
}

/// Whether an update leaves a secret behind that belongs to the other way to
/// authenticate: the way changed and no new secret came with the update.
pub fn should_clear_secret_on_update(old_auth: &str, new_auth: &str, secret_provided: bool) -> (r: bool)
    ensures
        r == (old_auth@ != new_auth@ && !secret_provided),
{
    !text::same(old_auth, new_auth) && !secret_provided
}

/// The port that is used where none is given.
pub const DEFAULT_SSH_PORT: u16 = 22;

pub fn port_or_default(port: Option<u16>) -> (r: u16)
    ensures
        r == (match port {
            Some(p) => p,
            None => DEFAULT_SSH_PORT,
        }),
{
    match port {
        Some(p) => p,
        None => DEFAULT_SSH_PORT,
    }
}

/// The first environment with this id, from row `i` on.
pub open spec fn with_id(rows: Seq<EnvironmentModel>, id: Seq<char>, i: int) -> Option<
    EnvironmentModel,
>
    decreases rows.len() - i,
{
    if i < 0 || i >= rows.len() {
        None
    } else if rows[i].id == id {
        Some(rows[i])
    } else {
        with_id(rows, id, i + 1)
    }
}

/// The first environment with this name, from row `i` on.
pub open spec fn with_name(rows: Seq<EnvironmentModel>, name: Seq<char>, i: int) -> Option<
    EnvironmentModel,
>
    decreases rows.len() - i,
{
    if i < 0 || i >= rows.len() {
        None
    } else if rows[i].name == name {
        Some(rows[i])
    } else {
        with_name(rows, name, i + 1)
    }
}

pub open spec fn option_view(e: Option<EnvironmentRow>) -> Option<EnvironmentModel> {
    match e {
        Some(e) => Some(e@),
        None => None,
    }
}

/// The environment with this id.
pub fn get_environment(rows: &Vec<EnvironmentRow>, id: &str) -> (r: Option<EnvironmentRow>)
    ensures
        option_view(r) == with_id(environments(rows@), id@, 0),
{
    let ghost all = environments(rows@);
    let mut i: usize = 0;
    while i < rows.len()
        invariant
            i <= rows@.len(),
            all == environments(rows@),
            with_id(all, id@, 0) == with_id(all, id@, i as int),
        decreases rows@.len() - i,
    {
        assert(all[i as int] == rows@[i as int]@);
        if text::same(rows[i].id.as_str(), id) {
            return Some(copy_row(&rows[i]));
        }
        i = i + 1;
    }
    None
}

/// The environment with this name.
pub fn find_by_name(rows: &Vec<EnvironmentRow>, name: &str) -> (r: Option<EnvironmentRow>)
    ensures
        option_view(r) == with_name(environments(rows@), name@, 0),
{
    let ghost all = environments(rows@);
    let mut i: usize = 0;
    while i < rows.len()
        invariant
            i <= rows@.len(),
            all == environments(rows@),
            with_name(all, name@, 0) == with_name(all, name@, i as int),
        decreases rows@.len() - i,
    {
        assert(all[i as int] == rows@[i as int]@);
        if text::same(rows[i].name.as_str(), name) {
            return Some(copy_row(&rows[i]));
        }
        i = i + 1;
    }
    None
}

/// By what the environments are ordered: when they were added.
pub open spec fn environment_keys(rows: Seq<EnvironmentModel>) -> Seq<OrderKeyModel> {
    rows.map_values(|e: EnvironmentModel| OrderKeyModel { rank: 0, text: e.created_at })
}

/// `r` holds the environments in the order in which they were added.
pub open spec fn is_listing(rows: Seq<EnvironmentModel>, r: Seq<EnvironmentModel>) -> bool {
    exists|o: Seq<usize>| #[trigger]
        order::is_order(environment_keys(rows), false, o) && r.len() == rows.len() && forall|i: int|
            0 <= i < r.len() ==> #[trigger] r[i] == rows[o[i] as int]
}

/// The environments in the order in which they were added.
pub fn list_environments(rows: &Vec<EnvironmentRow>) -> (r: Vec<EnvironmentRow>)
    ensures
        is_listing(environments(rows@), environments(r@)),
{
    let ghost all = environments(rows@);
    let mut keys: Vec<OrderKey> = Vec::new();
    let mut i: usize = 0;
    while i < rows.len()
        invariant
            i <= rows@.len(),
            all == environments(rows@),
            keys@.len() == i,
            forall|k: int| 0 <= k < i ==> (#[trigger] keys@[k])@ == environment_keys(all)[k],
        decreases rows@.len() - i,
    {
        assert(all[i as int] == rows@[i as int]@);
        keys.push(OrderKey { rank: 0, text: rows[i].created_at.clone() });
        i = i + 1;
    }
    let o = order::order(&keys, false);
    assert(order::key_models(keys@) =~= environment_keys(all));
    let mut out: Vec<EnvironmentRow> = Vec::new();
    let mut j: usize = 0;
    while j < o.len()
        invariant
            j <= o@.len(),
            all == environments(rows@),
            o@.len() == rows@.len(),
            forall|k: int| 0 <= k < o@.len() ==> (#[trigger] o@[k]) < rows@.len(),
            out@.len() == j,
            forall|k: int| 0 <= k < j ==> (#[trigger] out@[k])@ == all[o@[k] as int],
        decreases o@.len() - j,
    {
        let n = o[j];
        assert(o@[j as int] < rows@.len());
        assert(all[n as int] == rows@[n as int]@);
        out.push(copy_row(&rows[n]));
        j = j + 1;
    }
    proof {
        let listed = environments(out@);
        assert forall|k: int| 0 <= k < listed.len() implies #[trigger] listed[k] == all[o@[k] as int] by {
            assert(listed[k] == out@[k]@);
        }
        assert(order::is_order(environment_keys(all), false, o@));
    }
    out
}

/// The environments but the one with this id.
pub open spec fn without(rows: Seq<EnvironmentModel>, id: Seq<char>) -> Seq<EnvironmentModel>
    decreases rows.len(),
{
    if rows.len() == 0 {
        rows
    } else if rows.last().id == id {
        without(rows.drop_last(), id)
    } else {
        without(rows.drop_last(), id).push(rows.last())
    }
}

/// Deletes an environment.
pub fn delete_environment(rows: &mut Vec<EnvironmentRow>, id: &str)
    ensures
        environments(final(rows)@) == without(environments(old(rows)@), id@),
{
    let ghost all = environments(rows@);
    let mut i: usize = 0;
    let ghost mut seen: int = 0;
    proof {
        assert(all.take(0) =~= Seq::<EnvironmentModel>::empty());
        assert(environments(rows@) =~= without(all.take(0), id@) + all.skip(0));
    }
    while i < rows.len()
        invariant
            0 <= seen <= all.len(),
            i == without(all.take(seen), id@).len(),
            environments(rows@) == without(all.take(seen), id@) + all.skip(seen),
            environments(rows@).len() == rows@.len(),
        decreases rows@.len() - i,
    {
        let ghost cur = environments(rows@);
        proof {
            assert(cur[i as int] == all[seen]);
            assert(cur[i as int] == rows@[i as int]@);
            assert(all.take(seen + 1).drop_last() =~= all.take(seen));
            assert(all.take(seen + 1).last() == all[seen]);
        }
        if text::same(rows[i].id.as_str(), id) {
            let _gone = rows.remove(i);
            assert(environments(rows@) =~= cur.remove(i as int));
        } else {
            i = i + 1;
        }
        proof {
            assert(environments(rows@) =~= without(all.take(seen + 1), id@) + all.skip(seen + 1));
            seen = seen + 1;
        }
    }
    proof {
        assert(seen == all.len());
        assert(all.take(seen) =~= all);
        assert(environments(rows@) =~= without(all, id@));
    }
}

/// Why a new environment is refused.
pub open spec fn new_environment_error(
    rows: Seq<EnvironmentModel>,
    name: Seq<char>,
    host: Seq<char>,
    user: Seq<char>,
    auth_type: Seq<char>,
) -> Option<Seq<char>> {
    if chars::is_blank(name) || chars::is_blank(host) || chars::is_blank(user) {
        Some("name/host/user 不能为空"@)
    } else if !known_auth_type(auth_type) {
        Some("auth_type 必须是 private_key 或 password"@)
    } else if with_name(rows, chars::trim(name), 0) is Some {
        Some("同名环境已存在"@)
    } else {
        None
    }
}

/// A secret that is not empty.
pub open spec fn kept_secret(secret: Option<Seq<char>>) -> Option<Seq<char>> {
    match secret {
        Some(s) => if s.len() > 0 {
            Some(s)
        } else {
            None
        },
        None => None,
    }
}

pub fn secret_to_keep(secret: Option<&str>) -> (r: Option<String>)
    ensures
        r.deep_view() == kept_secret(secret.deep_view()),
{
    match secret {
        Some(s) => {
            if s.is_empty() {
                None
            } else {
                Some(text::owned(s))
            }
        },
        None => None,
    }
}

/// An environment that was added, by its id.
#[derive(Debug)]
pub struct AddedEnvironment {
    pub id: String,
    /// To be put into the key chain before the environment counts as added.
    pub secret: Option<String>,
}

/// Adds an environment under a fresh id. Its secret is to be stored next, and
/// [`secret_stored`] to be told how that went.
pub fn add_environment(
    rows: &mut Vec<EnvironmentRow>,
    name: &str,
    host: &str,
    port: u16,
    user: &str,
    auth_type: &str,
    private_key_path: Option<&str>,
    password: Option<&str>,
    now: &str,
) -> (r: AddedEnvironment)
    ensures
        ids::is_uuid(r.id@),
        r.secret.deep_view() == kept_secret(password.deep_view()),
        environments(final(rows)@) == environments(old(rows)@).push(
            EnvironmentModel {
                id: r.id@,
                name: name@,
                host: host@,
                port: port as i64,
                user: user@,
                auth_type: auth_type@,
                private_key_path: private_key_path.deep_view(),
                created_at: now@,
            },
        ),
{
    let ghost before = environments(rows@);
    let id = ids::new_uuid();
    let row = EnvironmentRow {
        id: id.clone(),
        name: text::owned(name),
        host: text::owned(host),
        port: port as i64,
        user: text::owned(user),
        auth_type: text::owned(auth_type),
        private_key_path: text::to_owned_opt(private_key_path),
        created_at: text::owned(now),
    };
    let ghost model = row@;
    rows.push(row);
    assert(environments(rows@) =~= before.push(model));
    AddedEnvironment { id, secret: secret_to_keep(password) }
}

/// Ends the adding of an environment, its secret stored or not. Where the key chain
/// refused the secret the environment is deleted again.
pub fn secret_stored(
    rows: &mut Vec<EnvironmentRow>,
    id: &str,
    stored: &Result<(), String>,
) -> (r: Result<EnvironmentRow, EnvironmentError>)
    ensures
        match stored {
            Err(why) => {
                &&& environments(final(rows)@) == without(environments(old(rows)@), id@)
                &&& r matches Err(EnvironmentError::Keychain(m)) && m@ == why@
            },
            Ok(_) => {
                &&& final(rows)@ == old(rows)@
                &&& match with_id(environments(old(rows)@), id@, 0) {
                    Some(e) => r is Ok && r->Ok_0@ == e,
                    None => r matches Err(EnvironmentError::NotFound(m)) && m@ == id@,
                }
            },
        },
{
    match stored {
        Err(why) => {
            delete_environment(rows, id);
            Err(EnvironmentError::Keychain(why.clone()))
        },
        Ok(_) => match get_environment(rows, id) {
            Some(e) => Ok(e),
            None => Err(EnvironmentError::NotFound(text::owned(id))),
        },
    }
}

/// Checks what was entered for a new environment and adds it, its name, host and user
/// trimmed.
pub fn add_environment_cmd(
    rows: &mut Vec<EnvironmentRow>,
    name: &str,
    host: &str,
    port: Option<u16>,
    user: &str,
    auth_type: &str,
    private_key_path: Option<&str>,
    password: Option<&str>,
    now: &str,
) -> (r: Result<AddedEnvironment, String>)
    ensures
        match new_environment_error(environments(old(rows)@), name@, host@, user@, auth_type@) {
            Some(why) => r is Err && r->Err_0@ == why && final(rows)@ == old(rows)@,
            None => {
                &&& r is Ok
                &&& ids::is_uuid(r->Ok_0.id@)
                &&& r->Ok_0.secret.deep_view() == kept_secret(password.deep_view())
                &&& environments(final(rows)@) == environments(old(rows)@).push(
                    EnvironmentModel {
                        id: r->Ok_0.id@,
                        name: chars::trim(name@),
                        host: chars::trim(host@),
                        port: match port {
                            Some(p) => p as i64,
                            None => DEFAULT_SSH_PORT as i64,
                        },
                        user: chars::trim(user@),
                        auth_type: auth_type@,
                        private_key_path: private_key_path.deep_view(),
                        created_at: now@,
                    },
                )
            },
        },
{
    if text::is_blank(name) || text::is_blank(host) || text::is_blank(user) {
        return Err(text::owned("name/host/user 不能为空"));
    }
    if !is_known_auth_type(auth_type) {
        return Err(text::owned("auth_type 必须是 private_key 或 password"));
    }
    if find_by_name(rows, text::trim(name)).is_some() {
        return Err(text::owned("同名环境已存在"));
    }
    Ok(
        add_environment(
            rows,
            text::trim(name),
            text::trim(host),
            port_or_default(port),
            text::trim(user),
            auth_type,
            private_key_path,
            password,
            now,
        ),
    )
}

/// What an update writes.
#[verifier::ext_equal]
pub struct UpdateModel {
    pub name: Seq<char>,
    pub host: Seq<char>,
    pub port: i64,
    pub user: Seq<char>,
    pub auth_type: Seq<char>,
    pub private_key_path: Option<Seq<char>>,
}

/// An environment after an update: its id and when it was added stay.
pub open spec fn updated(e: EnvironmentModel, u: UpdateModel) -> EnvironmentModel {
    EnvironmentModel {
        id: e.id,
        name: u.name,
        host: u.host,
        port: u.port,
        user: u.user,
        auth_type: u.auth_type,
        private_key_path: u.private_key_path,
        created_at: e.created_at,
    }
}

/// The environments with the one of this id updated.
pub open spec fn with_update(rows: Seq<EnvironmentModel>, id: Seq<char>, u: UpdateModel) -> Seq<
    EnvironmentModel,
> {
    Seq::new(
        rows.len(),
        |i: int|
            if rows[i].id == id {
                updated(rows[i], u)
            } else {
                rows[i]
            },
    )
}

/// Updates an environment. The secret that comes with the update is to be stored next.
pub fn update_environment(
    rows: &mut Vec<EnvironmentRow>,
    id: &str,
    name: &str,
    host: &str,
    port: u16,
    user: &str,
    auth_type: &str,
    private_key_path: Option<&str>,
    password: Option<&str>,
) -> (r: Result<Option<String>, EnvironmentError>)
    ensures
        environments(final(rows)@) == with_update(
            environments(old(rows)@),
            id@,
            UpdateModel {
                name: name@,
                host: host@,
                port: port as i64,
                user: user@,
                auth_type: auth_type@,
                private_key_path: private_key_path.deep_view(),
            },
        ),
        match with_id(environments(old(rows)@), id@, 0) {
            Some(_) => r is Ok && r->Ok_0.deep_view() == kept_secret(password.deep_view()),
            None => r matches Err(EnvironmentError::NotFound(m)) && m@ == id@,
        },
{
    let ghost before = environments(rows@);
    let ghost u = UpdateModel {
        name: name@,
        host: host@,
        port: port as i64,
        user: user@,
        auth_type: auth_type@,
        private_key_path: private_key_path.deep_view(),
    };
    let ghost goal = with_update(before, id@, u);
    let mut affected = false;
    let mut i: usize = 0;
    while i < rows.len()
        invariant
            i <= rows@.len(),
            rows@.len() == before.len(),
            goal == with_update(before, id@, u),
            u == (UpdateModel {
                name: name@,
                host: host@,
                port: port as i64,
                user: user@,
                auth_type: auth_type@,
                private_key_path: private_key_path.deep_view(),
            }),
            forall|k: int| 0 <= k < i ==> (#[trigger] rows@[k])@ == goal[k],
            forall|k: int| i <= k < rows@.len() ==> (#[trigger] rows@[k])@ == before[k],
            affected ==> with_id(before, id@, 0) is Some,
            !affected ==> with_id(before, id@, 0) == with_id(before, id@, i as int),
        decreases rows@.len() - i,
    {
        assert(rows@[i as int]@ == before[i as int]);
        if text::same(rows[i].id.as_str(), id) {
            rows[i].name = text::owned(name);
            rows[i].host = text::owned(host);
            rows[i].port = port as i64;
            rows[i].user = text::owned(user);
            rows[i].auth_type = text::owned(auth_type);
            rows[i].private_key_path = text::to_owned_opt(private_key_path);
            affected = true;
            assert(rows@[i as int]@ =~= goal[i as int]);
        }
        i = i + 1;
    }
    assert(environments(rows@) =~= goal);
    if affected {
        Ok(secret_to_keep(password))
    } else {
        Err(EnvironmentError::NotFound(text::owned(id)))
    }
}

/// Updates an environment with what was entered, its name, host and user trimmed.
pub fn update_environment_cmd(
    rows: &mut Vec<EnvironmentRow>,
    id: &str,
    name: &str,
    host: &str,
    port: Option<u16>,
    user: &str,
    auth_type: &str,
    private_key_path: Option<&str>,
    password: Option<&str>,
) -> (r: Result<Option<String>, EnvironmentError>)
    ensures
        environments(final(rows)@) == with_update(
            environments(old(rows)@),
            id@,
            UpdateModel {
                name: chars::trim(name@),
                host: chars::trim(host@),
                port: match port {
                    Some(p) => p as i64,
                    None => DEFAULT_SSH_PORT as i64,
                },
                user: chars::trim(user@),
                auth_type: auth_type@,
                private_key_path: private_key_path.deep_view(),
            },
        ),
        match with_id(environments(old(rows)@), id@, 0) {
            Some(_) => r is Ok && r->Ok_0.deep_view() == kept_secret(password.deep_view()),
            None => r matches Err(EnvironmentError::NotFound(m)) && m@ == id@,
        },
{
    update_environment(
        rows,
        id,
        text::trim(name),
        text::trim(host),
        port_or_default(port),
        text::trim(user),
        auth_type,
        private_key_path,
        password,
    )
}

proof fn lemma_pushed(rows: Seq<EnvironmentModel>, e: EnvironmentModel, id: Seq<char>, i: int)
    requires
        0 <= i <= rows.len(),
    ensures
        with_id(rows.push(e), id, i) == match with_id(rows, id, i) {
            Some(x) => Some(x),
            None => if e.id == id {
                Some(e)
            } else {
                None
            },
        },
    decreases rows.len() - i,
{
    reveal_with_fuel(with_id, 2);
    if i < rows.len() {
        lemma_pushed(rows, e, id, i + 1);
    }
}

/// An environment is read back as it was added, under an id that none had; the others
/// are read as before.
pub proof fn law_added_environment_is_read(
    rows: Seq<EnvironmentModel>,
    e: EnvironmentModel,
    other: Seq<char>,
)
    requires
        with_id(rows, e.id, 0) is None,
    ensures
        with_id(rows.push(e), e.id, 0) == Some(e),
        other != e.id ==> with_id(rows.push(e), other, 0) == with_id(rows, other, 0),
{
    lemma_pushed(rows, e, e.id, 0);
    lemma_pushed(rows, e, other, 0);
}

/// An environment whose secret could not be stored leaves nothing behind: the table is
/// what it was before it was added.
pub proof fn law_refused_secret_leaves_nothing(rows: Seq<EnvironmentModel>, e: EnvironmentModel)
    requires
        with_id(rows, e.id, 0) is None,
    ensures
        without(rows.push(e), e.id) == rows,
{
    assert(rows.push(e).drop_last() =~= rows);
    lemma_absent(rows, e.id, 0);
    lemma_without_absent(rows, e.id);
}

proof fn lemma_absent(rows: Seq<EnvironmentModel>, id: Seq<char>, i: int)
    requires
        0 <= i,
        with_id(rows, id, i) is None,
    ensures
        forall|k: int| i <= k < rows.len() ==> (#[trigger] rows[k]).id != id,
    decreases rows.len() - i,
{
    if i < rows.len() {
        lemma_absent(rows, id, i + 1);
    }
}

proof fn lemma_without_absent(rows: Seq<EnvironmentModel>, id: Seq<char>)
    requires
        forall|k: int| 0 <= k < rows.len() ==> (#[trigger] rows[k]).id != id,
    ensures
        without(rows, id) == rows,
    decreases rows.len(),
{
    if rows.len() > 0 {
        let front = rows.drop_last();
        assert forall|k: int| 0 <= k < front.len() implies (#[trigger] front[k]).id != id by {
            assert(front[k] == rows[k]);
        }
        lemma_without_absent(front, id);
        assert(front.push(rows.last()) =~= rows);
    }
}

/// An environment that is deleted is found no more; every other one is found as before.
pub proof fn law_deleted_environment_is_gone(
    rows: Seq<EnvironmentModel>,
    id: Seq<char>,
    other: Seq<char>,
)
    ensures
        with_id(without(rows, id), id, 0) is None,
        other != id ==> with_id(without(rows, id), other, 0) == with_id(rows, other, 0),
    decreases rows.len(),
{
    if rows.len() > 0 {
        let front = rows.drop_last();
        law_deleted_environment_is_gone(front, id, other);
        assert(front.push(rows.last()) =~= rows);
        lemma_pushed(front, rows.last(), other, 0);
        lemma_pushed(without(front, id), rows.last(), id, 0);
        lemma_pushed(without(front, id), rows.last(), other, 0);
    }
}

/// An update is read back, and no other environment changes.
pub proof fn law_update_is_read(
    rows: Seq<EnvironmentModel>,
    id: Seq<char>,
    u: UpdateModel,
    other: Seq<char>,
)
    ensures
        with_id(with_update(rows, id, u), id, 0) == match with_id(rows, id, 0) {
            Some(e) => Some(updated(e, u)),
            None => None,
        },
        other != id ==> with_id(with_update(rows, id, u), other, 0) == with_id(rows, other, 0),
{
    lemma_update_is_read(rows, id, u, other, 0);
}

proof fn lemma_update_is_read(
    rows: Seq<EnvironmentModel>,
    id: Seq<char>,
    u: UpdateModel,
    other: Seq<char>,
    i: int,
)
    requires
        0 <= i,
    ensures
        with_id(with_update(rows, id, u), id, i) == match with_id(rows, id, i) {
            Some(e) => Some(updated(e, u)),
            None => None,
        },
        other != id ==> with_id(with_update(rows, id, u), other, i) == with_id(rows, other, i),
    decreases rows.len() - i,
{
    if i < rows.len() {
        lemma_update_is_read(rows, id, u, other, i + 1);
    }
}

/// No two environments have the same name.
pub open spec fn names_apart(rows: Seq<EnvironmentModel>) -> bool {
    forall|i: int, j: int|
        0 <= i < j < rows.len() ==> (#[trigger] rows[i]).name != (#[trigger] rows[j]).name
}

/// A new environment that is accepted brings no name in a second time.
pub proof fn law_new_names_are_apart(
    rows: Seq<EnvironmentModel>,
    e: EnvironmentModel,
    name: Seq<char>,
    host: Seq<char>,
    user: Seq<char>,
    auth_type: Seq<char>,
)
    requires
        names_apart(rows),
        new_environment_error(rows, name, host, user, auth_type) is None,
        e.name == chars::trim(name),
    ensures
        names_apart(rows.push(e)),
{
    lemma_name_absent(rows, e.name, 0);
}

proof fn lemma_name_absent(rows: Seq<EnvironmentModel>, name: Seq<char>, i: int)
    requires
        0 <= i,
        with_name(rows, name, i) is None,
    ensures
        forall|k: int| i <= k < rows.len() ==> (#[trigger] rows[k]).name != name,
    decreases rows.len() - i,
{
    if i < rows.len() {
        lemma_name_absent(rows, name, i + 1);
    }
}

/// What a test of the connection found.
#[derive(Debug)]
pub struct TestConnectionResult {
    pub ok: bool,
    pub latency_ms: u64,
    pub error: Option<String>,
}

/// The command that a test of the connection runs.
pub const ECHO_COMMAND: &'static str = "echo friday-ok";

/// What is wrong with a connection: it could not be made, or the command on the other
/// side failed or did not answer as it should.
pub open spec fn connection_error(
    connected: Result<(), String>,
    echo: Result<String, String>,
) -> Option<Seq<char>> {
    match connected {
        Err(e) => Some(e@),
        Ok(_) => match echo {
            Err(e) => Some(e@),
            Ok(out) => if chars::trim(out@) == "friday-ok"@ {
                None
            } else {
                Some("unexpected echo output: "@ + chars::trim(out@))
            },
        },
    }
}

/// What a test of the connection found. `echo` is what the command wrote, once connected.
pub fn test_connection(
    connected: &Result<(), String>,
    echo: &Result<String, String>,
    latency_ms: u64,
) -> (r: TestConnectionResult)
    ensures
        r.latency_ms == latency_ms,
        r.error.deep_view() == connection_error(*connected, *echo),
        r.ok == (r.error is None),
{
    let error = match connected {
        Err(e) => Some(e.clone()),
        Ok(_) => match echo {
            Err(e) => Some(e.clone()),
            Ok(out) => {
                let t = text::trim(out.as_str());
                if text::same(t, "friday-ok") {
                    None
                } else {
                    let mut m = text::owned("unexpected echo output: ");
                    m.append(t);
                    Some(m)
                }
            },
        },
    };
    TestConnectionResult { ok: error.is_none(), latency_ms, error }
}

} // verus!
