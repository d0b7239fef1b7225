//! Core logic of a lightweight C/C++ editor: source classification, project tree
//! ordering, editor assists and highlighting, build planning and the application's
//! state machine.

pub mod text;

pub mod paths;
pub mod project;
pub mod editor;
pub mod highlight;
pub mod config;
pub mod compiler;
pub mod file_ops;
pub mod file_dialog;
pub mod file_tree;
pub mod app;
