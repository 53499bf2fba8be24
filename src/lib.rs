//! Terminal SSH connection manager: connection records, the connection form,
//! a directory browser for picking key files, and the key-driven mode machine.
pub mod text;
pub mod connection;
pub mod file_browser;
pub mod app;
pub mod machine;
