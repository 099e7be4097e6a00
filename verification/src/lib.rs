//! Verified core of a terminal front end for the clash proxy: profile
//! handling, configuration decisions, YAML merging and the key handling
//! of the user interface.

pub mod text;
pub mod yaml;
pub mod backend;
pub mod profile;
pub mod config;
pub mod clash;
pub mod tui;
pub mod ui;
pub mod utils;
pub mod yaml_text;
