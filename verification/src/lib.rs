//! A library for a terminal dashboard that supervises long-running agent
//! processes hosted in sessions of a terminal multiplexer.
//!
//! The library holds the verified core: the status-inference engine that
//! turns a raw pane snapshot into a lifecycle classification, the parser for
//! the multiplexer's session listing, the modal state machine that owns the
//! session registry, and the text rendering of the project skeleton tree.
//! Process invocation, terminal drawing and other I/O live outside.

pub mod actions;
pub mod app;
pub mod messages;
pub mod skeleton;
pub mod text;
pub mod tmux;
