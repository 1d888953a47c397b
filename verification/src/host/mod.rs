//! Hosts: choosing, reaching and talking to them.

pub mod auth;
pub mod connection;
pub mod executor;
pub mod filter;
pub mod pool;
pub mod session_pool;
pub mod sftp;
pub mod shell;
