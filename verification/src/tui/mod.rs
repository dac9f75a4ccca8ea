//! The terminal user interface, as a state machine.

pub mod app;
pub mod area;
pub mod bars;
pub mod cells;
pub mod commands;
pub mod dialog;
pub mod events;
pub mod frame;
pub mod help;
pub mod key;
pub mod keymap;
pub mod keys;
pub mod laws;
pub mod looks;
pub mod manners;
pub mod ops;
pub mod outcomes;
pub mod overlay;
pub mod panel;
pub mod pictures;
pub mod popup;
pub mod prompt;
pub mod prompted;
pub mod repo;
pub mod row;
pub mod sanity;
pub mod select;
pub mod spawn;
pub mod style;
pub mod submit;
pub mod table;
pub mod text;
pub mod trees;
pub mod worktree;
