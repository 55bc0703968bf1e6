//! The logic of a modal Markdown editor for the terminal.
pub mod text;
pub mod style;
pub mod markdown;
pub mod links;
pub mod errors;
pub mod config;
pub mod modes;
pub mod image_proto;
pub mod ui;
pub mod search;
pub mod keymap;
pub mod paths;
pub mod document;
pub mod textarea;
pub mod image_cache;
pub mod preview_worker;
pub mod image_encoder;
pub mod cli;
pub mod app_state;
pub mod app;
