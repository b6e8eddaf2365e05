//! Core logic of a code-review tool for jj repositories: diff models, text
//! parsing of jj and ANSI output, and the state machines behind the terminal
//! widgets.

pub mod ansi;
pub mod color;
pub mod config;
pub mod db;
pub mod errors;
pub mod jj_graph;
pub mod jj_log;
pub mod keys;
pub mod laws;
pub mod models;
pub mod pr;
pub mod screens;
pub mod services;
pub mod style;
pub mod text;
pub mod widgets;
