//! Synchronise files, run commands and collect metrics over a fleet of SSH hosts.
//!
//! This crate is the decision-making core of the `ssync` tool. It parses what
//! hosts answer, decides which file goes where, builds the shell commands that
//! are sent out, keeps the counters of a run and drives the terminal interface
//! as a state machine. Everything that talks to the network, the disk or the
//! terminal lives in the program around it.

pub mod cli;
pub mod commands;
pub mod config;
pub mod error;
pub mod host;
pub mod lookup;
pub mod metrics;
pub mod order;
pub mod output;
pub mod path_parts;
pub mod scan;
pub mod state;
pub mod text;
pub mod tui;
