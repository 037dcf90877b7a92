//! Verified core of the `tspace-menu` command palette: the command registry,
//! the fuzzy filter and ranking, the keyboard / mouse state machine of the
//! palette, mouse hit-testing and the ANSI escape encoding used by the
//! terminal backend.

pub mod click;
pub mod text;
pub mod backend;

pub mod commands;
pub mod screens;
pub mod keys;
pub mod plugin;
