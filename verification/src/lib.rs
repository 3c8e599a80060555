//! sshman: the verified core of a terminal SSH session manager.
//!
//! The library holds the host database, the parsing and rendering of SSH
//! configuration text and CSV, the filtering, sorting and selection logic of
//! the interactive view, and the key-handling state machine. Everything that
//! touches the terminal, the file system or child processes lives in `app/`.
pub mod text;
pub mod models;
pub mod storage;
pub mod sorting;
pub mod search;
pub mod config;
pub mod ssh;
pub mod ssh_config;
pub mod app;
pub mod services;
pub mod commands;
pub mod views;
pub mod laws;
