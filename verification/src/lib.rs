//! port-shadow: the logic of an SSH port-forwarding daemon that mirrors the
//! remote host's listening ports on the local machine.

pub mod cli;
pub mod config;
pub mod discovery;
pub mod events;
pub mod forward;
pub mod poll;
pub mod ssh;
pub mod text;
pub mod tui;
