//! Share a terminal session over SSH: the decisions behind the session host, the relay that lets
//! guests reach it, the settings screen and the command line.
//!
//! Sockets, pseudo-terminals and the screen belong to the program around this library. It reports
//! what happened and carries out what the functions here answer.

pub mod cli;
pub mod config;
pub mod decimal;
pub mod relay;
pub mod resize;
pub mod server;
pub mod session;
pub mod ssh;
pub mod supervisor;
pub mod text;

