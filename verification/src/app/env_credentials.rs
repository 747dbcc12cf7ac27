//! The credentials of an environment.

use crate::app::environments::{
    is_known_auth_type, kept_secret, known_auth_type, secret_to_keep,
};
use crate::chars;
use crate::ids;
use crate::order;
use crate::order::{OrderKey, OrderKeyModel};
use crate::text;
use vstd::prelude::*;

verus! {

#[derive(Debug)]
pub enum EnvCredentialError {
    Db(String),
    Validation(String),
    NotFound(String),
    Keychain(String),
}

/// The error in words.
pub open spec fn credential_error_text(e: EnvCredentialError) -> Seq<char> {
    match e {
        EnvCredentialError::Db(m) => "database error: "@ + m@,
        EnvCredentialError::Validation(m) => "validation error: "@ + m@,
        EnvCredentialError::NotFound(m) => "credential not found: "@ + m@,
        EnvCredentialError::Keychain(m) => "keychain error: "@ + m@,
    }
}

impl EnvCredentialError {
    pub fn message(&self) -> (r: String)
        ensures
            r@ == credential_error_text(*self),
    {
        let (front, m) = match self {
            EnvCredentialError::Db(m) => ("database error: ", m),
            EnvCredentialError::Validation(m) => ("validation error: ", m),
            EnvCredentialError::NotFound(m) => ("credential not found: ", m),
            EnvCredentialError::Keychain(m) => ("keychain error: ", m),
        };
        let mut s = text::owned(front);
        s.append(m.as_str());
        s
    }
}

/// One row of the table of credentials.
#[derive(Debug)]
pub struct EnvCredentialRow {
    pub id: String,
    pub environment_id: String,
    pub username: String,
    pub auth_type: String,
    pub private_key_path: Option<String>,
    pub is_default: bool,
    pub created_at: String,
}

/// What a row of the table of credentials holds.
#[verifier::ext_equal]
pub struct CredentialModel {
    pub id: Seq<char>,
    pub environment_id: Seq<char>,
    pub username: Seq<char>,
    pub auth_type: Seq<char>,
    pub private_key_path: Option<Seq<char>>,
    pub is_default: bool,
    pub created_at: Seq<char>,
}

impl View for EnvCredentialRow {
    type V = CredentialModel;

    open spec fn view(&self) -> CredentialModel {
        CredentialModel {
            id: self.id@,
            environment_id: self.environment_id@,
            username: self.username@,
            auth_type: self.auth_type@,
            private_key_path: self.private_key_path.deep_view(),
            is_default: self.is_default,
            created_at: self.created_at@,
        }
    }
}

impl Clone for EnvCredentialRow {
    fn clone(&self) -> (r: Self)
        ensures
            r == *self,
    {
        EnvCredentialRow {
            id: self.id.clone(),
            environment_id: self.environment_id.clone(),
            username: self.username.clone(),
            auth_type: self.auth_type.clone(),
            private_key_path: text::clone_opt(&self.private_key_path),
            is_default: self.is_default,
            created_at: self.created_at.clone(),
        }
    }
}

/// The rows of a table, in order.
pub open spec fn rows(t: Seq<EnvCredentialRow>) -> Seq<CredentialModel> {
    t.map_values(|r: EnvCredentialRow| r@)
}

/// The first row, from `i` on, with this user name.
pub open spec fn with_username(t: Seq<CredentialModel>, username: Seq<char>, i: int) -> Option<int>
    decreases t.len() - i,
{
    if i < 0 || i >= t.len() {
        None
    } else if t[i].username == username {
        Some(i)
    } else {
        with_username(t, username, i + 1)
    }
}

/// The first row, from `i` on, with this id.
pub open spec fn with_id(t: Seq<CredentialModel>, id: Seq<char>, i: int) -> Option<int>
    decreases t.len() - i,
{
    if i < 0 || i >= t.len() {
        None
    } else if t[i].id == id {
        Some(i)
    } else {
        with_id(t, id, i + 1)
    }
}

/// The first row, from `i` on, that is the default.
pub open spec fn default_from(t: Seq<CredentialModel>, i: int) -> Option<int>
    decreases t.len() - i,
{
    if i < 0 || i >= t.len() {
        None
    } else if t[i].is_default {
        Some(i)
    } else {
        default_from(t, i + 1)
    }
}

/// The credential of an environment with this user name.
pub fn find_credential_by_username<'a>(table: &'a Vec<EnvCredentialRow>, username: &str) -> (r: Option<
    &'a EnvCredentialRow,
>)
    ensures
        match with_username(rows(table@), username@, 0) {
            Some(i) => r is Some && r->0@ == rows(table@)[i],
            None => r is None,
        },
{
    let ghost t = rows(table@);
    let mut i: usize = 0;
    while i < table.len()
        invariant
            i <= table@.len(),
            t == rows(table@),
            with_username(t, username@, 0) == with_username(t, username@, i as int),
        decreases table@.len() - i,
    {
        assert(t[i as int] == table@[i as int]@);
        if text::same(table[i].username.as_str(), username) {
            return Some(&table[i]);
        }
        i = i + 1;
    }
    None
}

pub(crate) fn index_of_id(table: &Vec<EnvCredentialRow>, id: &str) -> (r: Option<usize>)
    ensures
        match r {
            Some(i) => i < table@.len() && with_id(rows(table@), id@, 0) == Some(i as int)
                && rows(table@)[i as int].id == id@,
            None => with_id(rows(table@), id@, 0) is None,
        },
{
    let ghost t = rows(table@);
    let mut i: usize = 0;
    while i < table.len()
        invariant
            i <= table@.len(),
            t == rows(table@),
            with_id(t, id@, 0) == with_id(t, id@, i as int),
        decreases table@.len() - i,
    {
        assert(t[i as int] == table@[i as int]@);
        if text::same(table[i].id.as_str(), id) {
            return Some(i);
        }
        i = i + 1;
    }
    None
}

/// The default credential of an environment.
pub fn default_credential<'a>(table: &'a Vec<EnvCredentialRow>) -> (r: Option<&'a EnvCredentialRow>)
    ensures
        match default_from(rows(table@), 0) {
            Some(i) => r is Some && r->0@ == rows(table@)[i],
            None => r is None,
        },
{
    let ghost t = rows(table@);
    let mut i: usize = 0;
    while i < table.len()
        invariant
            i <= table@.len(),
            t == rows(table@),
            default_from(t, 0) == default_from(t, i as int),
        decreases table@.len() - i,
    {
        assert(t[i as int] == table@[i as int]@);
        if table[i].is_default {
            return Some(&table[i]);
        }
        i = i + 1;
    }
    None
}

pub open spec fn credential_key(c: CredentialModel) -> OrderKeyModel {
    OrderKeyModel { rank: if c.is_default { 0 } else { 1 }, text: c.created_at }
}

/// The credentials of an environment, by their numbers: the default first, then in the
/// order in which they were made.
pub fn list_credentials(table: &Vec<EnvCredentialRow>) -> (r: Vec<usize>)
    ensures
        order::is_order(
            rows(table@).map_values(|c: CredentialModel| credential_key(c)),
            false,
            r@,
        ),
{
    let ghost t = rows(table@);
    let ghost f = |c: CredentialModel| credential_key(c);
    let mut keys: Vec<OrderKey> = Vec::new();
    let mut i: usize = 0;
    while i < table.len()
        invariant
            i <= table@.len(),
            t == rows(table@),
            keys@.len() == i,
            forall|k: int| 0 <= k < i ==> (#[trigger] keys@[k])@ == credential_key(t[k]),
        decreases table@.len() - i,
    {
        assert(t[i as int] == table@[i as int]@);
        let rank: u64 = if table[i].is_default { 0 } else { 1 };
        let key = OrderKey { rank, text: table[i].created_at.clone() };
        assert(key@ =~= credential_key(t[i as int]));
        keys.push(key);
        i = i + 1;
    }
    assert(order::key_models(keys@) =~= t.map_values(f));
    order::order(&keys, false)
}

/// Why a new credential is refused.
pub open spec fn new_credential_error(
    t: Seq<CredentialModel>,
    username: Seq<char>,
    auth_type: Seq<char>,
    private_key_path: Option<Seq<char>>,
) -> Option<Seq<char>> {
    if chars::is_blank(username) {
        Some("username 不能为空"@)
    } else if !known_auth_type(auth_type) {
        Some("auth_type 必须是 private_key 或 password"@)
    } else if auth_type == "private_key"@ && (private_key_path is None || chars::is_blank(
        private_key_path->0,
    )) {
        Some("私钥认证需要填写私钥路径"@)
    } else if with_username(t, chars::trim(username), 0) is Some {
        Some("用户 "@ + username + " 的凭证已存在"@)
    } else {
        None
    }
}

/// No row is the default any more.
pub open spec fn without_default(t: Seq<CredentialModel>) -> Seq<CredentialModel> {
    t.map_values(|c: CredentialModel| CredentialModel { is_default: false, ..c })
}

/// What adding a credential asks for besides the new row.
#[derive(Debug)]
pub struct CredentialAdded {
    pub row: EnvCredentialRow,
    /// To be stored; where that fails the row is deleted again.
    pub secret: Option<String>,
    /// The row of the environment takes over user name, way to authenticate and key path.
    pub mirror: bool,
}

fn clear_defaults(table: &mut Vec<EnvCredentialRow>)
    ensures
        rows(final(table)@) == without_default(rows(old(table)@)),
        final(table)@.len() == old(table)@.len(),
{
    let ghost t = rows(table@);
    let ghost goal = without_default(t);
    let n: usize = table.len();
    let mut i: usize = 0;
    while i < n
        invariant
            i <= n == table@.len() == t.len() == goal.len(),
            goal == without_default(t),
            forall|k: int| 0 <= k < i ==> (#[trigger] table@[k])@ == goal[k],
            forall|k: int| i <= k < n ==> (#[trigger] table@[k])@ == t[k],
        decreases n - i,
    {
        let ghost was = table@;
        table[i].is_default = false;
        assert(table@ =~= was.update(i as int, table@[i as int]));
        assert(table@[i as int]@ =~= goal[i as int]);
        i = i + 1;
    }
    assert(rows(table@) =~= goal);
}

/// Adds a credential to those of an environment, under a fresh id. One that becomes the
/// default takes that from the others.
pub fn add_credential(
    table: &mut Vec<EnvCredentialRow>,
    environment_id: &str,
    username: &str,
    auth_type: &str,
    private_key_path: Option<&str>,
    secret: Option<&str>,
    make_default: bool,
    now: &str,
) -> (r: Result<CredentialAdded, EnvCredentialError>)
    ensures
        ({
            let was = rows(old(table)@);
            let t = rows(final(table)@);
            match new_credential_error(
                was,
                username@,
                auth_type@,
                private_key_path.deep_view(),
            ) {
                Some(why) => t == was && (r matches Err(EnvCredentialError::Validation(m)) && m@
                    == why),
                None => {
                    &&& r is Ok
                    &&& ids::is_uuid(r->Ok_0.row@.id)
                    &&& r->Ok_0.row@ == (CredentialModel {
                        id: r->Ok_0.row@.id,
                        environment_id: environment_id@,
                        username: chars::trim(username@),
                        auth_type: auth_type@,
                        private_key_path: private_key_path.deep_view(),
                        is_default: make_default,
                        created_at: now@,
                    })
                    &&& r->Ok_0.secret.deep_view() == kept_secret(secret.deep_view())
                    &&& r->Ok_0.mirror == make_default
                    &&& t == (if make_default {
                        without_default(was)
                    } else {
                        was
                    }).push(r->Ok_0.row@)
                },
            }
        }),
{
    if text::is_blank(username) {
        return Err(EnvCredentialError::Validation(text::owned("username 不能为空")));
    }
    if !is_known_auth_type(auth_type) {
        return Err(
            EnvCredentialError::Validation(text::owned("auth_type 必须是 private_key 或 password")),
        );
    }
    let no_path = match private_key_path {
        Some(p) => text::is_blank(p),
        None => true,
    };
    if text::same(auth_type, "private_key") && no_path {
        return Err(EnvCredentialError::Validation(text::owned("私钥认证需要填写私钥路径")));
    }
    let name = text::trim(username);
    if find_credential_by_username(table, name).is_some() {
        let mut m = text::owned("用户 ");
        m.append(username);
        m.append(" 的凭证已存在");
        return Err(EnvCredentialError::Validation(m));
    }
    let row = EnvCredentialRow {
        id: ids::new_uuid(),
        environment_id: text::owned(environment_id),
        username: text::owned(name),
        auth_type: text::owned(auth_type),
        private_key_path: text::to_owned_opt(private_key_path),
        is_default: make_default,
        created_at: text::owned(now),
    };
    if make_default {
        clear_defaults(table);
    }
    let ghost before = rows(table@);
    table.push(row.clone());
    assert(rows(table@) =~= before.push(row@));
    Ok(CredentialAdded { row, secret: secret_to_keep(secret), mirror: make_default })
}

/// Deletes a credential of an environment; the default one stays.
pub fn delete_credential(table: &mut Vec<EnvCredentialRow>, cred_id: &str) -> (r: Result<
    (),
    EnvCredentialError,
>)
    ensures
        ({
            let was = rows(old(table)@);
            let t = rows(final(table)@);
            match with_id(was, cred_id@, 0) {
                None => t == was && (r matches Err(EnvCredentialError::NotFound(m)) && m@
                    == cred_id@),
                Some(i) => if was[i].is_default {
                    t == was && (r matches Err(EnvCredentialError::Validation(m)) && m@
                        == "不能删除默认凭证；请先把其他凭证设为默认"@)
                } else {
                    r is Ok && t == was.remove(i)
                },
            }
        }),
{
    let ghost was = rows(table@);
    match index_of_id(table, cred_id) {
        None => Err(EnvCredentialError::NotFound(text::owned(cred_id))),
        Some(i) => {
            assert(was[i as int] == table@[i as int]@);
            if table[i].is_default {
                return Err(
                    EnvCredentialError::Validation(
                        text::owned("不能删除默认凭证；请先把其他凭证设为默认"),
                    ),
                );
            }
            let _gone = table.remove(i);
            assert(rows(table@) =~= was.remove(i as int));
            Ok(())
        },
    }
}

/// Makes a credential the default one, instead of the former. The row that is handed out
/// is the fresh one; the row of the environment takes over what it holds.
pub fn set_default_credential(table: &mut Vec<EnvCredentialRow>, cred_id: &str) -> (r: Result<
    EnvCredentialRow,
    EnvCredentialError,
>)
    ensures
        ({
            let was = rows(old(table)@);
            let t = rows(final(table)@);
            match with_id(was, cred_id@, 0) {
                None => t == was && (r matches Err(EnvCredentialError::NotFound(m)) && m@
                    == cred_id@),
                Some(i) => {
                    &&& r is Ok
                    &&& r->Ok_0@ == (CredentialModel { is_default: true, ..was[i] })
                    &&& t == without_default(was).update(
                        i,
                        CredentialModel { is_default: true, ..was[i] },
                    )
                },
            }
        }),
{
    let ghost was = rows(table@);
    match index_of_id(table, cred_id) {
        None => Err(EnvCredentialError::NotFound(text::owned(cred_id))),
        Some(i) => {
            clear_defaults(table);
            let ghost cleared = rows(table@);
            assert(cleared[i as int] == table@[i as int]@);
            let ghost now = table@;
            table[i].is_default = true;
            assert(table@ =~= now.update(i as int, table@[i as int]));
            assert(rows(table@) =~= cleared.update(i as int, table@[i as int]@));
            assert(table@[i as int]@ =~= CredentialModel { is_default: true, ..was[i as int] });
            Ok(table[i].clone())
        },
    }
}

/// Exactly one row is the default.
pub open spec fn one_default(t: Seq<CredentialModel>) -> bool {
    &&& exists|i: int| 0 <= i < t.len() && (#[trigger] t[i]).is_default
    &&& forall|i: int, j: int|
        0 <= i < j < t.len() ==> !((#[trigger] t[i]).is_default && (#[trigger] t[j]).is_default)
}

pub(crate) proof fn lemma_with_id(t: Seq<CredentialModel>, id: Seq<char>, i: int)
    requires
        0 <= i,
        with_id(t, id, i) is Some,
    ensures
        i <= with_id(t, id, i)->0 < t.len(),
    decreases t.len() - i,
{
    if i < t.len() && t[i].id != id {
        lemma_with_id(t, id, i + 1);
    }
}

/// Choosing another default leaves exactly one; so does deleting a credential, as the
/// default cannot be deleted.
pub proof fn law_one_default_is_kept(t: Seq<CredentialModel>, id: Seq<char>)
    requires
        with_id(t, id, 0) is Some,
    ensures
        ({
            let i = with_id(t, id, 0)->0;
            &&& one_default(
                without_default(t).update(i, CredentialModel { is_default: true, ..t[i] }),
            )
            &&& one_default(t) && !t[i].is_default ==> one_default(t.remove(i))
        }),
{
    lemma_with_id(t, id, 0);
    let i = with_id(t, id, 0)->0;
    let u = without_default(t).update(i, CredentialModel { is_default: true, ..t[i] });
    assert(u[i].is_default);
    if one_default(t) && !t[i].is_default {
        let left = t.remove(i);
        let d = choose|d: int| 0 <= d < t.len() && (#[trigger] t[d]).is_default;
        let e = if d < i { d } else { d - 1 };
        assert(left[e] == t[d]);
        assert forall|a: int, b: int| 0 <= a < b < left.len() implies !((
        #[trigger] left[a]).is_default && (#[trigger] left[b]).is_default) by {
            let x = if a < i { a } else { a + 1 };
            let y = if b < i { b } else { b + 1 };
            assert(left[a] == t[x] && left[b] == t[y]);
        }
    }
}

/// Adding a default credential leaves exactly one default; adding another one keeps it.
pub proof fn law_adding_keeps_one_default(
    t: Seq<CredentialModel>,
    row: CredentialModel,
)
    requires
        row.is_default || one_default(t),
    ensures
        one_default((if row.is_default { without_default(t) } else { t }).push(row)),
{
    let u = (if row.is_default { without_default(t) } else { t }).push(row);
    if row.is_default {
        assert(u[t.len() as int].is_default);
    } else {
        let d = choose|d: int| 0 <= d < t.len() && (#[trigger] t[d]).is_default;
        assert(u[d] == t[d]);
        assert forall|a: int, b: int| 0 <= a < b < u.len() implies !((#[trigger] u[a]).is_default
            && (#[trigger] u[b]).is_default) by {
            if b < t.len() {
                assert(u[a] == t[a] && u[b] == t[b]);
            }
        }
    }
}

/// Where the credential of an environment that has none yet stands on its way into the
/// table: its secret moves first, then the row is made, then the former secret goes.
#[derive(Debug)]
pub enum Migration {
    /// Read the former secret of the environment.
    ReadSecret,
    /// Store it under the new name.
    MoveSecret { secret: String },
    /// Make the row.
    InsertRow { had_secret: bool },
    /// Delete the former secret.
    DeleteFormer,
    /// Nothing more to do, now or at the next start.
    Done,
    /// Left as it was, to be tried again at the next start.
    Skipped,
}

/// What the step that was taken came to.
#[derive(Debug)]
pub enum MigrationEvent {
    Secret(Option<String>),
    Succeeded,
    Failed,
}

pub open spec fn next_migration(state: Migration, event: MigrationEvent) -> Migration {
    match state {
        Migration::ReadSecret => match event {
            MigrationEvent::Secret(Some(s)) => Migration::MoveSecret { secret: s },
            MigrationEvent::Secret(None) => Migration::InsertRow { had_secret: false },
            _ => Migration::Skipped,
        },
        Migration::MoveSecret { .. } => match event {
            MigrationEvent::Succeeded => Migration::InsertRow { had_secret: true },
            _ => Migration::Skipped,
        },
        Migration::InsertRow { had_secret } => match event {
            MigrationEvent::Succeeded => if had_secret {
                Migration::DeleteFormer
            } else {
                Migration::Done
            },
            _ => Migration::Skipped,
        },
        Migration::DeleteFormer => Migration::Done,
        Migration::Done => Migration::Done,
        Migration::Skipped => Migration::Skipped,
    }
}

/// The next step of moving the credential of an environment into the table.
pub fn migrate_legacy(state: Migration, event: MigrationEvent) -> (r: Migration)
    ensures
        r == next_migration(state, event),
{
    match state {
        Migration::ReadSecret => match event {
            MigrationEvent::Secret(Some(s)) => Migration::MoveSecret { secret: s },
            MigrationEvent::Secret(None) => Migration::InsertRow { had_secret: false },
            _ => Migration::Skipped,
        },
        Migration::MoveSecret { .. } => match event {
            MigrationEvent::Succeeded => Migration::InsertRow { had_secret: true },
            _ => Migration::Skipped,
        },
        Migration::InsertRow { had_secret } => match event {
            MigrationEvent::Succeeded => {
                if had_secret {
                    Migration::DeleteFormer
                } else {
                    Migration::Done
                }
            },
            _ => Migration::Skipped,
        },
        Migration::DeleteFormer => Migration::Done,
        Migration::Done => Migration::Done,
        Migration::Skipped => Migration::Skipped,
    }
}

/// The state after the first `n` events.
pub open spec fn migrated(events: Seq<MigrationEvent>, n: int) -> Migration
    decreases n,
{
    if n <= 0 {
        Migration::ReadSecret
    } else {
        next_migration(migrated(events, n - 1), events[n - 1])
    }
}

/// The former secret is deleted only after it was read, stored under its new name and
/// the row was made: no failure on the way loses it.
pub proof fn law_former_secret_goes_last(events: Seq<MigrationEvent>, n: int)
    requires
        0 <= n <= events.len(),
        migrated(events, n) is DeleteFormer,
    ensures
        n == 3,
        events[0] matches MigrationEvent::Secret(Some(_)),
        events[1] is Succeeded,
        events[2] is Succeeded,
{
    lemma_migration_depth(events, n);
    reveal_with_fuel(migrated, 4);
}

proof fn lemma_migration_depth(events: Seq<MigrationEvent>, n: int)
    requires
        0 <= n <= events.len(),
    ensures
        migrated(events, n) is ReadSecret ==> n == 0,
        migrated(events, n) is MoveSecret ==> n == 1,
        migrated(events, n) is InsertRow ==> n == (if migrated(events, n)->had_secret { 2int } else { 1int }),
        migrated(events, n) is DeleteFormer ==> n == 3,
    decreases n,
{
    if n > 0 {
        lemma_migration_depth(events, n - 1);
    }
}

/// The row that is made for an environment that had none: its own user name, way to
/// authenticate and key path, as the default.
pub fn migrated_row(
    cred_id: &str,
    environment_id: &str,
    user: &str,
    auth_type: &str,
    private_key_path: Option<&str>,
    now: &str,
) -> (r: EnvCredentialRow)
    ensures
        r@ == (CredentialModel {
            id: cred_id@,
            environment_id: environment_id@,
            username: user@,
            auth_type: auth_type@,
            private_key_path: private_key_path.deep_view(),
            is_default: true,
            created_at: now@,
        }),
{
    EnvCredentialRow {
        id: text::owned(cred_id),
        environment_id: text::owned(environment_id),
        username: text::owned(user),
        auth_type: text::owned(auth_type),
        private_key_path: text::to_owned_opt(private_key_path),
        is_default: true,
        created_at: text::owned(now),
    }
}

} // verus!
