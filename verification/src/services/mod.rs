//! The daemon's side: the messages it exchanges over its socket and the
//! decisions it takes on them.

pub mod clipboard_ipc_server;
pub mod clipboard_manager;
