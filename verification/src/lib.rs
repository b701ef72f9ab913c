//! The verified core of `ai`, a natural-language assistant for the interactive
//! command line.
//!
//! Everything that decides something lives here and is proved against its
//! contract: how arguments, configuration and model replies are read, which
//! file a model may touch, what is asked of a provider and what is shown to
//! the user. Reading, writing and sending are left to the program around it.
pub mod audit;
pub mod bytes;
pub mod chat;
pub mod cli;
pub mod client;
pub mod config;
pub mod context;
pub mod conversation;
pub mod database;
pub mod error;
pub mod file_tools;
pub mod loopback;
pub mod number;
pub mod openrouter;
pub mod paths;
pub mod pieces;
pub mod provider;
pub mod quote;
pub mod reply;
pub mod secure_fs;
pub mod session;
pub mod setup;
pub mod shell;
pub mod system_info;
pub mod text;
pub mod ui;
pub mod windows_console;
pub mod workspace;
