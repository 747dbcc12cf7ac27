//! Saving an environment together with all of its credentials.

use crate::app::env_credentials::{rows, CredentialModel, EnvCredentialError, EnvCredentialRow};
use crate::app::environments::{EnvironmentError, EnvironmentRow};
use crate::chars;
use crate::ids;
use crate::text;
use vstd::prelude::*;

verus! {

/// One credential of the full list that a save hands in.
#[derive(Debug)]
pub struct CredentialInput {
    /// `None` for a credential that is new.
    pub id: Option<String>,
    pub username: String,
    pub auth_type: String,
    pub private_key_path: Option<String>,
    /// `None` or blank leaves the stored secret as it is.
    pub secret: Option<String>,
    /// True for exactly one credential of the list.
    pub is_default: bool,
}

/// What a credential of the list holds.
#[verifier::ext_equal]
pub struct InputModel {
    pub id: Option<Seq<char>>,
    pub username: Seq<char>,
    pub auth_type: Seq<char>,
    pub private_key_path: Option<Seq<char>>,
    pub secret: Option<Seq<char>>,
    pub is_default: bool,
}

impl View for CredentialInput {
    type V = InputModel;

    open spec fn view(&self) -> InputModel {
        InputModel {
            id: self.id.deep_view(),
            username: self.username@,
            auth_type: self.auth_type@,
            private_key_path: self.private_key_path.deep_view(),
            secret: self.secret.deep_view(),
            is_default: self.is_default,
        }
    }
}

pub open spec fn inputs(creds: Seq<CredentialInput>) -> Seq<InputModel> {
    creds.map_values(|c: CredentialInput| c@)
}

#[derive(Debug)]
pub enum SaveError {
    Db(String),
    Validation(String),
    Keychain(String),
    NotFound(String),
}

/// The error in words.
pub open spec fn save_error_text(e: SaveError) -> Seq<char> {
    match e {
        SaveError::Db(m) => "database error: "@ + m@,
        SaveError::Validation(m) => "validation error: "@ + m@,
        SaveError::Keychain(m) => "keychain error: "@ + m@,
        SaveError::NotFound(m) => "environment not found: "@ + m@,
    }
}

impl SaveError {
    pub fn message(&self) -> (r: String)
        ensures
            r@ == save_error_text(*self),
    {
        let (front, m) = match self {
            SaveError::Db(m) => ("database error: ", m),
            SaveError::Validation(m) => ("validation error: ", m),
            SaveError::Keychain(m) => ("keychain error: ", m),
            SaveError::NotFound(m) => ("environment not found: ", m),
        };
        let mut s = text::owned(front);
        s.append(m.as_str());
        s
    }
}

impl From<EnvCredentialError> for SaveError {
    fn from(e: EnvCredentialError) -> (r: Self) {
        match e {
            EnvCredentialError::Db(m) => SaveError::Db(m),
            EnvCredentialError::Validation(m) => SaveError::Validation(m),
            EnvCredentialError::NotFound(m) => SaveError::NotFound(m),
            EnvCredentialError::Keychain(m) => SaveError::Keychain(m),
        }
    }
}

/// An error of one kind, with what it says.
impl vstd::std_specs::convert::FromSpecImpl<EnvCredentialError> for SaveError {
    open spec fn obeys_from_spec() -> bool {
        true
    }

    open spec fn from_spec(e: EnvCredentialError) -> SaveError {
        match e {
            EnvCredentialError::Db(m) => SaveError::Db(m),
            EnvCredentialError::Validation(m) => SaveError::Validation(m),
            EnvCredentialError::NotFound(m) => SaveError::NotFound(m),
            EnvCredentialError::Keychain(m) => SaveError::Keychain(m),
        }
    }
}

impl From<EnvironmentError> for SaveError {
    fn from(e: EnvironmentError) -> (r: Self) {
        match e {
            EnvironmentError::Db(m) => SaveError::Db(m),
            EnvironmentError::NotFound(m) => SaveError::NotFound(m),
            EnvironmentError::Keychain(m) => SaveError::Keychain(m),
        }
    }
}

impl vstd::std_specs::convert::FromSpecImpl<EnvironmentError> for SaveError {
    open spec fn obeys_from_spec() -> bool {
        true
    }

    open spec fn from_spec(e: EnvironmentError) -> SaveError {
        match e {
            EnvironmentError::Db(m) => SaveError::Db(m),
            EnvironmentError::NotFound(m) => SaveError::NotFound(m),
            EnvironmentError::Keychain(m) => SaveError::Keychain(m),
        }
    }
}

/// The path of the private key that a credential is bound to: only where it
/// authenticates by private key, and only a path that is not blank.
pub open spec fn key_path(auth_type: Seq<char>, path: Option<Seq<char>>) -> Option<Seq<char>> {
    if auth_type == "private_key"@ && path is Some && !chars::is_blank(path->0) {
        Some(chars::trim(path->0))
    } else {
        None
    }
}

pub fn bound_key_path<'a>(auth_type: &str, path: Option<&'a str>) -> (r: Option<&'a str>)
    ensures
        r.deep_view() == key_path(auth_type@, path.deep_view()),
{
    if !text::same(auth_type, "private_key") {
        return None;
    }
    match path {
        Some(p) => {
            let t = text::trim(p);
            if t.is_empty() {
                None
            } else {
                Some(t)
            }
        },
        None => None,
    }
}

/// How many of the first `n` credentials are marked as the default.
pub open spec fn count_defaults(creds: Seq<InputModel>, n: int) -> nat
    decreases n,
{
    if n <= 0 {
        0
    } else {
        count_defaults(creds, n - 1) + (if creds[n - 1].is_default { 1nat } else { 0nat })
    }
}

/// Some credential before `i` has the same user name.
pub open spec fn username_repeats(creds: Seq<InputModel>, i: int) -> bool {
    exists|j: int|
        0 <= j < i && chars::trim((#[trigger] creds[j]).username) == chars::trim(
            creds[i].username,
        )
}

/// What is wrong with credential `i`, given that those before it are in order.
pub open spec fn entry_error(creds: Seq<InputModel>, i: int) -> Option<Seq<char>> {
    let c = creds[i];
    if chars::is_blank(c.username) {
        Some("凭证用户名不能为空"@)
    } else if username_repeats(creds, i) {
        Some("凭证用户名重复："@ + chars::trim(c.username))
    } else if !crate::app::environments::known_auth_type(c.auth_type) {
        Some("auth_type 必须是 private_key 或 password"@)
    } else if c.auth_type == "private_key"@ && key_path(c.auth_type, c.private_key_path) is None {
        Some("私钥认证需要填写私钥路径"@)
    } else {
        None
    }
}

/// What is wrong with the first credential, from `i` on, that is not in order.
pub open spec fn first_entry_error(creds: Seq<InputModel>, i: int) -> Option<Seq<char>>
    decreases creds.len() - i,
{
    if i < 0 || i >= creds.len() {
        None
    } else if entry_error(creds, i) is Some {
        entry_error(creds, i)
    } else {
        first_entry_error(creds, i + 1)
    }
}

/// What is wrong with a list of credentials; `None` for one that can be saved.
pub open spec fn list_error(creds: Seq<InputModel>) -> Option<Seq<char>> {
    let defaults = count_defaults(creds, creds.len() as int);
    if creds.len() == 0 {
        Some("至少需要一条凭证"@)
    } else if defaults != 1 {
        Some("必须恰好指定一个默认凭证（当前 "@ + chars::dec(defaults) + " 个）"@)
    } else {
        first_entry_error(creds, 0)
    }
}

/// Checks a list of credentials: at least one, exactly one default, user names
/// present and distinct, a known way to authenticate, a key path where one is needed.
pub fn validate_credentials(creds: &[CredentialInput]) -> (r: Result<(), SaveError>)
    ensures
        match list_error(inputs(creds@)) {
            None => r is Ok,
            Some(m) => r matches Err(SaveError::Validation(e)) && e@ == m,
        },
{
    let ghost model = inputs(creds@);
    if creds.len() == 0 {
        return Err(SaveError::Validation(text::owned("至少需要一条凭证")));
    }
    let mut defaults: u64 = 0;
    let mut i: usize = 0;
    while i < creds.len()
        invariant
            i <= creds@.len(),
            model == inputs(creds@),
            defaults == count_defaults(model, i as int),
            defaults <= i,
        decreases creds@.len() - i,
    {
        if creds[i].is_default {
            defaults = defaults + 1;
        }
        i = i + 1;
    }
    if defaults != 1 {
        let mut m = text::owned("必须恰好指定一个默认凭证（当前 ");
        m.append(text::dec(defaults).as_str());
        m.append(" 个）");
        return Err(SaveError::Validation(m));
    }
    let mut i: usize = 0;
    while i < creds.len()
        invariant
            i <= creds@.len(),
            model == inputs(creds@),
            model.len() > 0,
            count_defaults(model, model.len() as int) == 1,
            list_error(model) == first_entry_error(model, i as int),
        decreases creds@.len() - i,
    {
        let c = &creds[i];
        assert(model[i as int] == c@);
        let name = text::trim(c.username.as_str());
        if name.is_empty() {
            return Err(SaveError::Validation(text::owned("凭证用户名不能为空")));
        }
        let mut j: usize = 0;
        while j < i
            invariant
                j <= i < creds@.len(),
                model == inputs(creds@),
                name@ == chars::trim(model[i as int].username),
                !chars::is_blank(model[i as int].username),
                list_error(model) == first_entry_error(model, i as int),
                forall|k: int| 0 <= k < j ==> chars::trim((#[trigger] model[k]).username) != name@,
            decreases i - j,
        {
            assert(model[j as int] == creds@[j as int]@);
            if text::same(text::trim(creds[j].username.as_str()), name) {
                let mut m = text::owned("凭证用户名重复：");
                m.append(name);
                assert(username_repeats(model, i as int));
                return Err(SaveError::Validation(m));
            }
            j = j + 1;
        }
        if !crate::app::environments::is_known_auth_type(c.auth_type.as_str()) {
            return Err(
                SaveError::Validation(text::owned("auth_type 必须是 private_key 或 password")),
            );
        }
        if text::same(c.auth_type.as_str(), "private_key") && bound_key_path(
            c.auth_type.as_str(),
            text::as_deref(&c.private_key_path),
        ).is_none() {
            return Err(SaveError::Validation(text::owned("私钥认证需要填写私钥路径")));
        }
        i = i + 1;
    }
    Ok(())
}

/// What a save writes into the row of the environment: the trimmed name and
/// host, and a copy of the default credential.
#[derive(Debug)]
pub struct EnvironmentWrite {
    pub id: String,
    pub name: String,
    pub host: String,
    pub port: u16,
    pub user: String,
    pub auth_type: String,
    pub private_key_path: Option<String>,
}

#[verifier::ext_equal]
pub struct EnvironmentWriteModel {
    pub id: Seq<char>,
    pub name: Seq<char>,
    pub host: Seq<char>,
    pub port: u16,
    pub user: Seq<char>,
    pub auth_type: Seq<char>,
    pub private_key_path: Option<Seq<char>>,
}

impl View for EnvironmentWrite {
    type V = EnvironmentWriteModel;

    open spec fn view(&self) -> EnvironmentWriteModel {
        EnvironmentWriteModel {
            id: self.id@,
            name: self.name@,
            host: self.host@,
            port: self.port,
            user: self.user@,
            auth_type: self.auth_type@,
            private_key_path: self.private_key_path.deep_view(),
        }
    }
}

/// What a save writes into the table of credentials: a row is inserted where
/// the credential is new, else the row with that id is updated.
#[derive(Debug)]
pub struct CredentialWrite {
    pub id: String,
    pub is_new: bool,
    pub username: String,
    pub auth_type: String,
    pub private_key_path: Option<String>,
    pub is_default: bool,
}

#[verifier::ext_equal]
pub struct CredentialWriteModel {
    pub id: Seq<char>,
    pub is_new: bool,
    pub username: Seq<char>,
    pub auth_type: Seq<char>,
    pub private_key_path: Option<Seq<char>>,
    pub is_default: bool,
}

impl View for CredentialWrite {
    type V = CredentialWriteModel;

    open spec fn view(&self) -> CredentialWriteModel {
        CredentialWriteModel {
            id: self.id@,
            is_new: self.is_new,
            username: self.username@,
            auth_type: self.auth_type@,
            private_key_path: self.private_key_path.deep_view(),
            is_default: self.is_default,
        }
    }
}

/// A change to the secrets of the key chain, made once the tables are saved.
#[derive(Debug)]
pub enum KeychainOp {
    Write { cred_id: String, secret: String },
    Delete { cred_id: String },
}

pub enum KeychainOpModel {
    Write { cred_id: Seq<char>, secret: Seq<char> },
    Delete { cred_id: Seq<char> },
}

impl View for KeychainOp {
    type V = KeychainOpModel;

    open spec fn view(&self) -> KeychainOpModel {
        match self {
            KeychainOp::Write { cred_id, secret } => KeychainOpModel::Write {
                cred_id: cred_id@,
                secret: secret@,
            },
            KeychainOp::Delete { cred_id } => KeychainOpModel::Delete { cred_id: cred_id@ },
        }
    }
}

/// All that a save changes, in the order in which it is carried out.
#[derive(Debug)]
pub struct SavePlan {
    pub is_new: bool,
    pub environment: EnvironmentWrite,
    pub deletes: Vec<String>,
    pub writes: Vec<CredentialWrite>,
    pub keychain: Vec<KeychainOp>,
}

#[verifier::ext_equal]
pub struct SavePlanModel {
    pub is_new: bool,
    pub environment: EnvironmentWriteModel,
    pub deletes: Seq<Seq<char>>,
    pub writes: Seq<CredentialWriteModel>,
    pub keychain: Seq<KeychainOpModel>,
}

impl View for SavePlan {
    type V = SavePlanModel;

    open spec fn view(&self) -> SavePlanModel {
        SavePlanModel {
            is_new: self.is_new,
            environment: self.environment@,
            deletes: self.deletes.deep_view(),
            writes: self.writes@.map_values(|w: CredentialWrite| w@),
            keychain: self.keychain@.map_values(|o: KeychainOp| o@),
        }
    }
}

/// What the tables hold when a save starts.
#[derive(Debug)]
pub struct SaveSnapshot {
    /// Another environment has the name that is asked for.
    pub name_taken: bool,
    /// The environment that is edited is there.
    pub environment_exists: bool,
    /// The credentials of the environment that is edited.
    pub existing: Vec<EnvCredentialRow>,
}

/// Some credential of the list stands for the row with this id.
pub open spec fn mentioned(creds: Seq<InputModel>, id: Seq<char>) -> bool {
    exists|i: int| 0 <= i < creds.len() && (#[trigger] creds[i]).id == Some(id)
}

/// Some row has this id.
pub open spec fn has_row(existing: Seq<CredentialModel>, id: Seq<char>) -> bool {
    exists|i: int| 0 <= i < existing.len() && (#[trigger] existing[i]).id == id
}

/// The first row, from `i` on, with this id.
pub open spec fn row_with_id(existing: Seq<CredentialModel>, id: Seq<char>, i: int) -> Option<
    CredentialModel,
>
    decreases existing.len() - i,
{
    if i < 0 || i >= existing.len() {
        None
    } else if existing[i].id == id {
        Some(existing[i])
    } else {
        row_with_id(existing, id, i + 1)
    }
}

/// The id of the first credential, from `i` on, that names a row which is not there.
pub open spec fn first_unknown(
    creds: Seq<InputModel>,
    existing: Seq<CredentialModel>,
    i: int,
) -> Option<Seq<char>>
    decreases creds.len() - i,
{
    if i < 0 || i >= creds.len() {
        None
    } else if creds[i].id is Some && !has_row(existing, creds[i].id->0) {
        creds[i].id
    } else {
        first_unknown(creds, existing, i + 1)
    }
}

/// The first credential, from `i` on, that is marked as the default.
pub open spec fn default_index(creds: Seq<InputModel>, i: int) -> int
    decreases creds.len() - i,
{
    if i < 0 || i >= creds.len() || creds[i].is_default {
        i
    } else {
        default_index(creds, i + 1)
    }
}

/// The ids of those among the first `n` rows for which the list has no credential.
pub open spec fn removed(
    existing: Seq<CredentialModel>,
    creds: Seq<InputModel>,
    n: int,
) -> Seq<Seq<char>>
    decreases n,
{
    if n <= 0 {
        Seq::empty()
    } else if mentioned(creds, existing[n - 1].id) {
        removed(existing, creds, n - 1)
    } else {
        removed(existing, creds, n - 1).push(existing[n - 1].id)
    }
}

/// A new secret came with the credential.
pub open spec fn secret_provided(c: InputModel) -> bool {
    c.secret is Some && !chars::is_blank(c.secret->0)
}

/// The id under which a credential is saved: its own, or the fresh one.
pub open spec fn saved_id(c: InputModel, fresh: Seq<char>) -> Seq<char> {
    match c.id {
        Some(id) => id,
        None => fresh,
    }
}

pub open spec fn write_of(c: InputModel, fresh: Seq<char>) -> CredentialWriteModel {
    CredentialWriteModel {
        id: saved_id(c, fresh),
        is_new: c.id is None,
        username: chars::trim(c.username),
        auth_type: c.auth_type,
        private_key_path: key_path(c.auth_type, c.private_key_path),
        is_default: c.is_default,
    }
}

/// The secrets that come with the first `n` credentials.
pub open spec fn secret_writes(
    creds: Seq<InputModel>,
    fresh: Seq<Seq<char>>,
    n: int,
) -> Seq<KeychainOpModel>
    decreases n,
{
    if n <= 0 {
        Seq::empty()
    } else if secret_provided(creds[n - 1]) {
        secret_writes(creds, fresh, n - 1).push(
            KeychainOpModel::Write {
                cred_id: saved_id(creds[n - 1], fresh[n - 1]),
                secret: chars::trim(creds[n - 1].secret->0),
            },
        )
    } else {
        secret_writes(creds, fresh, n - 1)
    }
}

/// The credential now authenticates another way than its row did, and no new
/// secret came with it.
pub open spec fn secret_is_stale(c: InputModel, existing: Seq<CredentialModel>) -> bool {
    &&& c.id is Some
    &&& !secret_provided(c)
    &&& row_with_id(existing, c.id->0, 0) is Some
    &&& row_with_id(existing, c.id->0, 0)->0.auth_type != c.auth_type
}

/// The deletions of the stale secrets among the first `n` credentials.
pub open spec fn stale_deletes(
    creds: Seq<InputModel>,
    existing: Seq<CredentialModel>,
    n: int,
) -> Seq<KeychainOpModel>
    decreases n,
{
    if n <= 0 {
        Seq::empty()
    } else if secret_is_stale(creds[n - 1], existing) {
        stale_deletes(creds, existing, n - 1).push(
            KeychainOpModel::Delete { cred_id: creds[n - 1].id->0 },
        )
    } else {
        stale_deletes(creds, existing, n - 1)
    }
}

pub open spec fn deletes_of(ids: Seq<Seq<char>>) -> Seq<KeychainOpModel> {
    ids.map_values(|id: Seq<char>| KeychainOpModel::Delete { cred_id: id })
}

/// A save as it is asked for.
#[verifier::ext_equal]
pub struct SaveRequestModel {
    pub environment_id: Option<Seq<char>>,
    pub name: Seq<char>,
    pub host: Seq<char>,
    pub port: u16,
    pub credentials: Seq<InputModel>,
}

/// The rows that the credentials of a save are held against: none for an
/// environment that is new.
pub open spec fn rows_before(req: SaveRequestModel, snap: SaveSnapshot) -> Seq<CredentialModel> {
    if req.environment_id is Some {
        rows(snap.existing@)
    } else {
        Seq::empty()
    }
}

pub enum Refusal {
    Validation(Seq<char>),
    NotFound(Seq<char>),
}

/// Why a save is refused; `None` for one that is carried out.
pub open spec fn refusal(req: SaveRequestModel, snap: SaveSnapshot) -> Option<Refusal> {
    let unknown = first_unknown(req.credentials, rows_before(req, snap), 0);
    if chars::is_blank(req.name) || chars::is_blank(req.host) {
        Some(Refusal::Validation("名称 / 主机不能为空"@))
    } else if list_error(req.credentials) is Some {
        Some(Refusal::Validation(list_error(req.credentials)->0))
    } else if snap.name_taken {
        Some(Refusal::Validation("同名环境已存在"@))
    } else if req.environment_id is Some && !snap.environment_exists {
        Some(Refusal::NotFound(req.environment_id->0))
    } else if unknown is Some {
        Some(Refusal::Validation("凭证 "@ + unknown->0 + " 不存在或已失效，请刷新后重试"@))
    } else {
        None
    }
}

/// What a save changes. `fresh_env` is the id of an environment that is new,
/// `fresh[i]` that of credential `i` where it is new.
pub open spec fn save_plan(
    req: SaveRequestModel,
    snap: SaveSnapshot,
    fresh_env: Seq<char>,
    fresh: Seq<Seq<char>>,
) -> SavePlanModel {
    let creds = req.credentials;
    let existing = rows_before(req, snap);
    let def = creds[default_index(creds, 0)];
    let gone = removed(existing, creds, existing.len() as int);
    SavePlanModel {
        is_new: req.environment_id is None,
        environment: EnvironmentWriteModel {
            id: match req.environment_id {
                Some(id) => id,
                None => fresh_env,
            },
            name: chars::trim(req.name),
            host: chars::trim(req.host),
            port: req.port,
            user: chars::trim(def.username),
            auth_type: def.auth_type,
            private_key_path: key_path(def.auth_type, def.private_key_path),
        },
        deletes: gone,
        writes: Seq::new(creds.len(), |i: int| write_of(creds[i], fresh[i])),
        keychain: secret_writes(creds, fresh, creds.len() as int) + deletes_of(gone)
            + stale_deletes(creds, existing, creds.len() as int),
    }
}

pub open spec fn is_refusal(e: SaveError, why: Refusal) -> bool {
    match why {
        Refusal::Validation(m) => e matches SaveError::Validation(t) && t@ == m,
        Refusal::NotFound(m) => e matches SaveError::NotFound(t) && t@ == m,
    }
}

fn is_mentioned(creds: &Vec<CredentialInput>, id: &str) -> (r: bool)
    ensures
        r == mentioned(inputs(creds@), id@),
{
    let ghost model = inputs(creds@);
    let mut i: usize = 0;
    while i < creds.len()
        invariant
            i <= creds@.len(),
            model == inputs(creds@),
            forall|j: int| 0 <= j < i ==> (#[trigger] model[j]).id != Some(id@),
        decreases creds@.len() - i,
    {
        assert(model[i as int] == creds@[i as int]@);
        match &creds[i].id {
            Some(x) => {
                if text::same(x.as_str(), id) {
                    return true;
                }
            },
            None => {},
        }
        i = i + 1;
    }
    false
}

/// The first row with this id.
fn find_row<'a>(existing: &'a Vec<EnvCredentialRow>, id: &str) -> (r: Option<&'a EnvCredentialRow>)
    ensures
        match r {
            Some(row) => row_with_id(rows(existing@), id@, 0) == Some(row@),
            None => row_with_id(rows(existing@), id@, 0) is None,
        },
        r is Some == has_row(rows(existing@), id@),
{
    let ghost model = rows(existing@);
    let mut i: usize = 0;
    while i < existing.len()
        invariant
            i <= existing@.len(),
            model == rows(existing@),
            row_with_id(model, id@, 0) == row_with_id(model, id@, i as int),
            forall|j: int| 0 <= j < i ==> (#[trigger] model[j]).id != id@,
        decreases existing@.len() - i,
    {
        assert(model[i as int] == existing@[i as int]@);
        if text::same(existing[i].id.as_str(), id) {
            return Some(&existing[i]);
        }
        i = i + 1;
    }
    None
}

/// The ids of the rows for which the list has no credential.
fn removed_ids(existing: &Vec<EnvCredentialRow>, creds: &Vec<CredentialInput>) -> (r: Vec<String>)
    ensures
        r.deep_view() == removed(rows(existing@), inputs(creds@), existing@.len() as int),
{
    let ghost old_rows = rows(existing@);
    let ghost list = inputs(creds@);
    let mut out: Vec<String> = Vec::new();
    let mut i: usize = 0;
    assert(out.deep_view() =~= removed(old_rows, list, 0));
    while i < existing.len()
        invariant
            i <= existing@.len(),
            old_rows == rows(existing@),
            list == inputs(creds@),
            out.deep_view() == removed(old_rows, list, i as int),
        decreases existing@.len() - i,
    {
        assert(old_rows[i as int] == existing@[i as int]@);
        if !is_mentioned(creds, existing[i].id.as_str()) {
            let ghost before = out.deep_view();
            out.push(existing[i].id.clone());
            assert(out.deep_view() =~= before.push(old_rows[i as int].id));
        }
        i = i + 1;
    }
    out
}

/// The secret of a credential where a new one came with it, trimmed.
fn new_secret<'a>(c: &'a CredentialInput) -> (r: Option<&'a str>)
    ensures
        r is Some == secret_provided(c@),
        r is Some ==> r->0@ == chars::trim(c@.secret->0),
{
    match &c.secret {
        Some(s) => {
            let t = text::trim(s.as_str());
            if t.is_empty() {
                None
            } else {
                Some(t)
            }
        },
        None => None,
    }
}

/// The changes to the key chain: every write before every deletion.
fn plan_keychain(
    creds: &Vec<CredentialInput>,
    existing: &Vec<EnvCredentialRow>,
    gone: &Vec<String>,
    fresh: &Vec<String>,
) -> (r: Vec<KeychainOp>)
    requires
        fresh@.len() == creds@.len(),
    ensures
        r@.map_values(|o: KeychainOp| o@) == secret_writes(
            inputs(creds@),
            fresh.deep_view(),
            creds@.len() as int,
        ) + deletes_of(gone.deep_view()) + stale_deletes(
            inputs(creds@),
            rows(existing@),
            creds@.len() as int,
        ),
{
    let ghost list = inputs(creds@);
    let ghost old_rows = rows(existing@);
    let ghost ids = fresh.deep_view();
    let ghost v = |o: KeychainOp| o@;
    let mut out: Vec<KeychainOp> = Vec::new();
    assert(out@.map_values(v) =~= secret_writes(list, ids, 0));
    let mut i: usize = 0;
    while i < creds.len()
        invariant
            i <= creds@.len(),
            fresh@.len() == creds@.len(),
            list == inputs(creds@),
            ids == fresh.deep_view(),
            v == |o: KeychainOp| o@,
            out@.map_values(v) == secret_writes(list, ids, i as int),
        decreases creds@.len() - i,
    {
        assert(list[i as int] == creds@[i as int]@);
        assert(ids[i as int] == fresh@[i as int]@);
        match new_secret(&creds[i]) {
            Some(secret) => {
                let cred_id = match &creds[i].id {
                    Some(id) => id.clone(),
                    None => fresh[i].clone(),
                };
                let ghost before = out@.map_values(v);
                let op = KeychainOp::Write { cred_id, secret: text::owned(secret) };
                let ghost m = op@;
                out.push(op);
                assert(out@.map_values(v) =~= before.push(m));
            },
            None => {},
        }
        i = i + 1;
    }
    let ghost writes = out@.map_values(v);
    let mut i: usize = 0;
    assert(out@.map_values(v) =~= writes + deletes_of(gone.deep_view().take(0)));
    while i < gone.len()
        invariant
            i <= gone@.len(),
            v == |o: KeychainOp| o@,
            out@.map_values(v) == writes + deletes_of(gone.deep_view().take(i as int)),
        decreases gone@.len() - i,
    {
        let ghost before = out@.map_values(v);
        out.push(KeychainOp::Delete { cred_id: gone[i].clone() });
        i = i + 1;
        assert(out@.map_values(v) =~= before.push(
            KeychainOpModel::Delete { cred_id: gone.deep_view()[i - 1] },
        ));
        assert(out@.map_values(v) =~= writes + deletes_of(gone.deep_view().take(i as int)));
    }
    assert(gone.deep_view().take(i as int) =~= gone.deep_view());
    let ghost front = out@.map_values(v);
    let mut i: usize = 0;
    assert(out@.map_values(v) =~= front + stale_deletes(list, old_rows, 0));
    while i < creds.len()
        invariant
            i <= creds@.len(),
            list == inputs(creds@),
            old_rows == rows(existing@),
            v == |o: KeychainOp| o@,
            out@.map_values(v) == front + stale_deletes(list, old_rows, i as int),
        decreases creds@.len() - i,
    {
        assert(list[i as int] == creds@[i as int]@);
        let ghost before = out@.map_values(v);
        if new_secret(&creds[i]).is_none() {
            match &creds[i].id {
                Some(id) => match find_row(existing, id.as_str()) {
                    Some(row) => {
                        if crate::app::environments::should_clear_secret_on_update(
                            row.auth_type.as_str(),
                            creds[i].auth_type.as_str(),
                            false,
                        ) {
                            out.push(KeychainOp::Delete { cred_id: id.clone() });
                            assert(out@.map_values(v) =~= before.push(
                                KeychainOpModel::Delete { cred_id: list[i as int].id->0 },
                            ));
                        }
                    },
                    None => {},
                },
                None => {},
            }
        }
        i = i + 1;
        assert(out@.map_values(v) =~= front + stale_deletes(list, old_rows, i as int));
    }
    out
}

/// Works out a save, or why it is refused. `fresh_env` is the id of an
/// environment that is new, `fresh[i]` that of credential `i` where it is new.
pub fn plan_save(
    environment_id: Option<&str>,
    name: &str,
    host: &str,
    port: u16,
    credentials: &Vec<CredentialInput>,
    snapshot: &SaveSnapshot,
    fresh_env: &str,
    fresh: &Vec<String>,
) -> (r: Result<SavePlan, SaveError>)
    requires
        fresh@.len() == credentials@.len(),
    ensures
        ({
            let req = SaveRequestModel {
                environment_id: environment_id.deep_view(),
                name: name@,
                host: host@,
                port,
                credentials: inputs(credentials@),
            };
            match refusal(req, *snapshot) {
                None => r is Ok && r->Ok_0@ == save_plan(
                    req,
                    *snapshot,
                    fresh_env@,
                    fresh.deep_view(),
                ),
                Some(why) => r is Err && is_refusal(r->Err_0, why),
            }
        }),
{
    let ghost req = SaveRequestModel {
        environment_id: environment_id.deep_view(),
        name: name@,
        host: host@,
        port,
        credentials: inputs(credentials@),
    };
    let ghost list = inputs(credentials@);
    if text::is_blank(name) || text::is_blank(host) {
        return Err(SaveError::Validation(text::owned("名称 / 主机不能为空")));
    }
    match validate_credentials(credentials.as_slice()) {
        Ok(()) => {},
        Err(e) => return Err(e),
    }
    if snapshot.name_taken {
        return Err(SaveError::Validation(text::owned("同名环境已存在")));
    }
    let none: Vec<EnvCredentialRow> = Vec::new();
    let existing = match environment_id {
        Some(id) => {
            if !snapshot.environment_exists {
                return Err(SaveError::NotFound(text::owned(id)));
            }
            &snapshot.existing
        },
        None => &none,
    };
    proof {
        assert(rows(none@) =~= Seq::<CredentialModel>::empty());
        assert(rows(existing@) == rows_before(req, *snapshot));
    }
    let ghost old_rows = rows(existing@);
    let mut i: usize = 0;
    while i < credentials.len()
        invariant
            i <= credentials@.len(),
            list == inputs(credentials@),
            req.credentials == list,
            req.environment_id == environment_id.deep_view(),
            req.name == name@,
            req.host == host@,
            req.port == port,
            old_rows == rows(existing@),
            old_rows == rows_before(req, *snapshot),
            first_unknown(list, old_rows, 0) == first_unknown(list, old_rows, i as int),
            !chars::is_blank(req.name),
            !chars::is_blank(req.host),
            list_error(list) is None,
            !snapshot.name_taken,
            req.environment_id is Some ==> snapshot.environment_exists,
        decreases credentials@.len() - i,
    {
        assert(list[i as int] == credentials@[i as int]@);
        match &credentials[i].id {
            Some(id) => {
                if find_row(existing, id.as_str()).is_none() {
                    let mut m = text::owned("凭证 ");
                    m.append(id.as_str());
                    m.append(" 不存在或已失效，请刷新后重试");
                    return Err(SaveError::Validation(m));
                }
            },
            None => {},
        }
        i = i + 1;
    }
    let n: usize = credentials.len();
    let mut d: usize = 0;
    proof {
        lemma_default_exists(list, list.len() as int);
    }
    while !credentials[d].is_default
        invariant
            d < n == credentials@.len(),
            list == inputs(credentials@),
            default_index(list, 0) == default_index(list, d as int),
            exists|k: int| d <= k < list.len() && (#[trigger] list[k]).is_default,
        decreases credentials@.len() - d,
    {
        assert(list[d as int] == credentials@[d as int]@);
        d = d + 1;
    }
    assert(list[d as int] == credentials@[d as int]@);
    let def = &credentials[d];
    let deletes = removed_ids(existing, credentials);
    let mut writes: Vec<CredentialWrite> = Vec::new();
    let ghost ids = fresh.deep_view();
    let ghost v = |w: CredentialWrite| w@;
    let mut i: usize = 0;
    while i < credentials.len()
        invariant
            i <= credentials@.len(),
            fresh@.len() == credentials@.len(),
            list == inputs(credentials@),
            ids == fresh.deep_view(),
            v == |w: CredentialWrite| w@,
            writes@.map_values(v) == Seq::new(i as nat, |j: int| write_of(list[j], ids[j])),
        decreases credentials@.len() - i,
    {
        let c = &credentials[i];
        assert(list[i as int] == c@);
        assert(ids[i as int] == fresh@[i as int]@);
        let ghost before = writes@.map_values(v);
        let w = CredentialWrite {
            id: match &c.id {
                Some(id) => id.clone(),
                None => fresh[i].clone(),
            },
            is_new: c.id.is_none(),
            username: text::owned(text::trim(c.username.as_str())),
            auth_type: c.auth_type.clone(),
            private_key_path: text::to_owned_opt(
                bound_key_path(c.auth_type.as_str(), text::as_deref(&c.private_key_path)),
            ),
            is_default: c.is_default,
        };
        assert(w@ =~= write_of(list[i as int], ids[i as int]));
        let ghost m = w@;
        writes.push(w);
        i = i + 1;
        assert(writes@.map_values(v) =~= before.push(m));
        assert(writes@.map_values(v) =~= Seq::new(
            i as nat,
            |j: int| write_of(list[j], ids[j]),
        ));
    }
    let keychain = plan_keychain(credentials, existing, &deletes, fresh);
    let plan = SavePlan {
        is_new: environment_id.is_none(),
        environment: EnvironmentWrite {
            id: match environment_id {
                Some(id) => text::owned(id),
                None => text::owned(fresh_env),
            },
            name: text::owned(text::trim(name)),
            host: text::owned(text::trim(host)),
            port,
            user: text::owned(text::trim(def.username.as_str())),
            auth_type: def.auth_type.clone(),
            private_key_path: text::to_owned_opt(
                bound_key_path(def.auth_type.as_str(), text::as_deref(&def.private_key_path)),
            ),
        },
        deletes,
        writes,
        keychain,
    };
    assert(plan@ =~= save_plan(req, *snapshot, fresh_env@, ids));
    Ok(plan)
}

/// Where some credential is counted as the default, one is marked so.
proof fn lemma_default_exists(creds: Seq<InputModel>, n: int)
    requires
        0 <= n <= creds.len(),
        count_defaults(creds, n) > 0,
    ensures
        exists|k: int| 0 <= k < n && (#[trigger] creds[k]).is_default,
    decreases n,
{
    if creds[n - 1].is_default {
    } else {
        lemma_default_exists(creds, n - 1);
    }
}

/// Works out a save under fresh ids: one for the environment, should it be
/// new, and one for each credential that is.
pub fn save_environment(
    environment_id: Option<&str>,
    name: &str,
    host: &str,
    port: u16,
    credentials: &Vec<CredentialInput>,
    snapshot: &SaveSnapshot,
) -> (r: Result<SavePlan, SaveError>)
    ensures
        ({
            let req = SaveRequestModel {
                environment_id: environment_id.deep_view(),
                name: name@,
                host: host@,
                port,
                credentials: inputs(credentials@),
            };
            match refusal(req, *snapshot) {
                None => r is Ok && exists|fresh_env: Seq<char>, fresh: Seq<Seq<char>>|
                    ids::is_uuid(fresh_env) && fresh.len() == credentials@.len() && (forall|i: int|
                        0 <= i < fresh.len() ==> ids::is_uuid(#[trigger] fresh[i])) && r->Ok_0@
                        == #[trigger] save_plan(req, *snapshot, fresh_env, fresh),
                Some(why) => r is Err && is_refusal(r->Err_0, why),
            }
        }),
{
    let fresh_env = ids::new_uuid();
    let mut fresh: Vec<String> = Vec::new();
    while fresh.len() < credentials.len()
        invariant
            fresh@.len() <= credentials@.len(),
            forall|i: int| 0 <= i < fresh@.len() ==> ids::is_uuid((#[trigger] fresh@[i])@),
        decreases credentials@.len() - fresh@.len(),
    {
        fresh.push(ids::new_uuid());
    }
    let r = plan_save(
        environment_id,
        name,
        host,
        port,
        credentials,
        snapshot,
        fresh_env.as_str(),
        &fresh,
    );
    proof {
        let f = fresh.deep_view();
        assert forall|i: int| 0 <= i < f.len() implies ids::is_uuid(#[trigger] f[i]) by {
            assert(f[i] == fresh@[i]@);
        }
    }
    r
}

/// One step of taking back a save whose secrets could not be stored.
#[derive(Debug)]
pub enum RollbackStep {
    DeleteEnvironment,
    DeleteCredentials,
    InsertCredential(EnvCredentialRow),
}

pub enum RollbackStepModel {
    DeleteEnvironment,
    DeleteCredentials,
    InsertCredential(CredentialModel),
}

impl View for RollbackStep {
    type V = RollbackStepModel;

    open spec fn view(&self) -> RollbackStepModel {
        match self {
            RollbackStep::DeleteEnvironment => RollbackStepModel::DeleteEnvironment,
            RollbackStep::DeleteCredentials => RollbackStepModel::DeleteCredentials,
            RollbackStep::InsertCredential(row) => RollbackStepModel::InsertCredential(row@),
        }
    }
}

/// How a save is taken back: what was new is deleted; what was edited gets its
/// former credentials again. The row of an edited environment keeps what was saved.
pub open spec fn rollback_steps(
    is_new: bool,
    old_creds: Seq<CredentialModel>,
) -> Seq<RollbackStepModel> {
    if is_new {
        seq![RollbackStepModel::DeleteEnvironment, RollbackStepModel::DeleteCredentials]
    } else {
        seq![RollbackStepModel::DeleteCredentials] + old_creds.map_values(
            |c: CredentialModel| RollbackStepModel::InsertCredential(c),
        )
    }
}

pub fn rollback_saved_state(is_new: bool, old_creds: &Vec<EnvCredentialRow>) -> (r: Vec<RollbackStep>)
    ensures
        r@.map_values(|s: RollbackStep| s@) == rollback_steps(is_new, rows(old_creds@)),
{
    let ghost v = |s: RollbackStep| s@;
    let ghost old_rows = rows(old_creds@);
    let ghost f = |c: CredentialModel| RollbackStepModel::InsertCredential(c);
    let mut out: Vec<RollbackStep> = Vec::new();
    if is_new {
        out.push(RollbackStep::DeleteEnvironment);
        out.push(RollbackStep::DeleteCredentials);
        assert(out@.map_values(v) =~= rollback_steps(is_new, old_rows));
        return out;
    }
    out.push(RollbackStep::DeleteCredentials);
    let mut i: usize = 0;
    assert(out@.map_values(v) =~= seq![RollbackStepModel::DeleteCredentials] + old_rows.take(
        0,
    ).map_values(f));
    while i < old_creds.len()
        invariant
            i <= old_creds@.len(),
            old_rows == rows(old_creds@),
            v == |s: RollbackStep| s@,
            f == |c: CredentialModel| RollbackStepModel::InsertCredential(c),
            out@.map_values(v) == seq![RollbackStepModel::DeleteCredentials] + old_rows.take(
                i as int,
            ).map_values(f),
        decreases old_creds@.len() - i,
    {
        let ghost before = out@.map_values(v);
        out.push(RollbackStep::InsertCredential(old_creds[i].clone()));
        i = i + 1;
        assert(out@.map_values(v) =~= before.push(f(old_rows[i - 1])));
        assert(out@.map_values(v) =~= seq![RollbackStepModel::DeleteCredentials] + old_rows.take(
            i as int,
        ).map_values(f));
    }
    assert(old_rows.take(i as int) =~= old_rows);
    out
}

/// A finished save: the row of the environment and all of its credentials.
#[derive(Debug)]
pub struct SaveOutcome {
    pub environment: EnvironmentRow,
    pub credentials: Vec<EnvCredentialRow>,
}

/// A save as the user interface asks for it.
#[derive(Debug)]
pub struct SaveEnvironmentParams {
    /// `None` for an environment that is new.
    pub environment_id: Option<String>,
    pub name: String,
    pub host: String,
    pub port: Option<u16>,
    pub credentials: Vec<CredentialInput>,
}

/// A finished save as it is handed to the user interface.
#[derive(Debug)]
pub struct SaveEnvironmentResult {
    pub environment: EnvironmentRow,
    pub credentials: Vec<EnvCredentialRow>,
}

} // verus!
