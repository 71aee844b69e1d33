//! Event-coordination core of a terminal application for browsing Azure Key
//! Vaults.
//!
//! Three execution contexts cooperate through two channels: a terminal input
//! reader, a manager of background task units, and a state owner that redraws
//! the screen after every message. This crate holds the decisions each of them
//! makes, as functions from a state and an event to the next state and an
//! action, together with the laws that relate them. Reading the terminal,
//! moving messages between threads and painting the screen are left to the
//! program that drives these functions.
//!
//! - `terminal`: the events of the terminal.
//! - `input`: the input reader.
//! - `background`: the requests for background work, the task units and
//!   their manager.
//! - `tui`: the application state, its owner's loop and what it draws.
//! - `frame`: what is drawn, as plain values.
//! - `system`: task units and the state owner together, under every
//!   schedule.
//! - `azure_profile`: the profile from which the state takes its selected
//!   subscription.
//! - `versions`: the report of package versions that the workspace's helper
//!   prints.

pub mod azure_profile;
pub mod background;
pub mod frame;
pub mod input;
pub mod system;
pub mod terminal;
pub mod tui;
pub mod versions;
