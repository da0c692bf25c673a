//! A tunneling server's verified core: configuration defaults, the
//! session registry, the per-connection channel router, the file-transfer
//! protocol state machine with its handle table, and server-key loading.
pub mod config;
pub mod handles;
pub mod keys;
pub mod registry;
pub mod router;
pub mod sftp;
pub mod tokens;

pub use crate::keys::get_server_keys;
