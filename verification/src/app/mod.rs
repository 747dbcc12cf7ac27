//! Sessions, environments, credentials and settings.

pub mod agents;
pub mod credentials;
pub mod env_credentials;
pub mod env_save;
pub mod environments;
pub mod events;
pub mod keychain_run;
pub mod lifecycle;
pub mod message_laws;
pub mod messages;
pub mod migration;
pub mod mirroring;
pub mod plan_laws;
pub mod save_laws;
pub mod service_repos;
pub mod session;
pub mod settings;
pub mod table_laws;
