//! Verified core of an organisation mail-administration API: request
//! validation, permission checks, pagination, password policy and hashing,
//! session admission, identity bookkeeping and configuration parsing.

pub mod error;
pub mod text;
pub mod pagination;
pub mod session;
pub mod codec;
pub mod crypto;
pub mod password;
pub mod identity;
pub mod mailbox;
pub mod lifecycle;
pub mod access;
pub mod settings;
pub mod update;
