//! Process orchestration for language servers, agent subprocesses and a
//! remote daemon: `Content-Length` framing, request correlation, the
//! client and session registries, server provisioning plans, and the
//! daemon's connection protocol, each with its contract proved.

pub mod acp;
pub mod checksum;
pub mod correlation;
pub mod daemon;
pub mod framing;
pub mod lsp;
pub mod mcp;
pub mod message;
pub mod models;
pub mod registry;
pub mod servers;
pub mod text;
pub mod workspace;
