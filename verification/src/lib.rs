//! Pairing and file bridge: a PIN for pairing, a guard that keeps every path
//! inside the shared folder, the file operations of the bridge, and the
//! lifecycle of the server that exposes the folder.

pub mod decimal;
pub mod error;
pub mod file_ops;
pub mod path_guard;
pub mod pin;
pub mod server;
pub mod session;
pub mod text;
