//! Window and workspace automation for the niri compositor.

pub mod action;
pub mod columns;
pub mod config;
pub mod connection;
pub mod edge_pulse;
pub mod events;
pub mod geometry;
pub mod matcher;
pub mod named_workspace;
pub mod niri;
pub mod numbers;
pub mod panels;
pub mod pattern;
pub mod processes;
pub mod search;
pub mod swallow;
pub mod text;
pub mod toml_table;
pub mod window_rule;
pub mod window_utils;
pub mod workspace_rule;
