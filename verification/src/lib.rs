//! Capture and restore of an i3 session.
//!
//! - [`i3ipc`]: the framing of the window manager's protocol, replies and
//!   events.
//! - [`i3_tree`]: the window tree, the windows in it, and the layout that
//!   is saved of it.
//! - [`mapping`], [`template`]: the rules that replace the command
//!   recorded for a window.
//! - [`process`], [`terminal`], [`probe`], [`capture`]: the command and
//!   working directory of the process behind a window, and what is asked
//!   of the system to find them.
//! - [`restore`], [`metadata`]: the plan of a restore and the visible
//!   workspaces.
//! - [`config`]: the configuration.
//! - [`pattern`], [`shellwords`], [`text`]: regular expressions, shell
//!   words and plain text.

pub mod capture;
pub mod config;
pub mod i3_tree;
pub mod i3ipc;
pub mod mapping;
pub mod metadata;
pub mod pattern;
pub mod probe;
pub mod process;
pub mod restore;
pub mod shellwords;
pub mod template;
pub mod terminal;
pub mod text;
