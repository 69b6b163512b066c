//! Verified core of a portable remote-desktop profile manager: the server
//! tree and its search, connection-form validation, the session status
//! machine, reconnect back-off, tab bookkeeping, workspaces and the
//! credential vault.

pub mod reconnect;
pub mod ident;
pub mod server;
pub mod text;
pub mod search;
pub mod dialog;
pub mod session;
pub mod geometry;
pub mod settings;
pub mod workspace;
pub mod tabs;
pub mod scheduler;
pub mod workspace_manager;
pub mod secret;
pub mod vault;
pub mod dpapi;
pub mod controller;
