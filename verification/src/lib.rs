//! An interactive browser for a repository's commit history: a reactive
//! dispatch engine that coordinates panels through typed messages, over a
//! repository-navigation layer with commit cursor movement, prefix
//! resolution, filtered tree enumeration and blame-annotated content.

pub mod app;
pub mod commit_modal;
pub mod commit_viewer;
pub mod content_viewer;
pub mod filer;
pub mod filter;
pub mod help_modal;
pub mod messages;
pub mod repository;
pub mod strutil;
