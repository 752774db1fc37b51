//! A registry of local executables published under stable Command Names.

pub mod application;
pub mod atomic_write;
pub mod blocking_laws;
pub mod candidate_laws;
pub mod cli;
pub mod config_git;
pub mod configuration;
pub mod configuration_laws;
pub mod course_laws;
pub mod discovery;
pub mod discovery_ignore;
pub mod discovery_laws;
pub mod environment;
pub mod failure_laws;
pub mod git_laws;
pub mod host;
pub mod ignoring_laws;
pub mod inspection_laws;
pub mod interface_laws;
pub mod lifecycle;
pub mod lifecycle_laws;
pub mod link_laws;
pub mod listing;
pub mod listing_laws;
pub mod loading_laws;
pub mod model;
pub mod operation_laws;
pub mod order;
pub mod output_laws;
pub mod path;
pub mod patterns;
pub mod reading_laws;
pub mod refusal_laws;
pub mod registry;
pub mod screen;
pub mod screen_laws;
pub mod search;
pub mod search_laws;
pub mod terminal;
pub mod text;
pub mod theme;
pub mod tui;
pub mod tui_laws;
pub mod value_laws;
pub mod views;
pub mod write_laws;
