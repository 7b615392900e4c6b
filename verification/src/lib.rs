//! Verified core of a cross-platform file transfer client: session profiles,
//! file masks, transfer queue, credential and host-key bookkeeping, and the
//! pure decision logic of the protocol adapters.

pub mod cancel;
pub mod cli;
pub mod config;
pub mod ftp;
pub mod http;
pub mod local;
pub mod masks;
pub mod prompts;
pub mod s3;
pub mod scp;
pub mod protocol;
pub mod security;
pub mod session;
pub mod sftp;
pub mod ssh;
pub mod table;
pub mod text;
pub mod transfer;
pub mod webdav;
